//! The encrypted-scalar capability that the storage engine consumes.

use vstd::prelude::*;

verus! {

/// Operations over an opaque scalar that never reveal the value they work
/// on.  Every operation returns a fresh scalar or flag; none of them exposes
/// the modeled plaintext to executable callers.  Because the engine is
/// generic over this trait and the trait offers no way to branch on a
/// scalar's content, the engine's control flow — the number, kind and order
/// of primitive operations it performs — is the same for every possible
/// content of its inputs.
///
/// `val` and `truth` are specification-only views: the plaintext that a
/// scalar or flag stands for.  Backends that wrap real ciphertexts carry
/// that view as ghost state, so it exists only for proofs.
pub trait ObliviousScalar: Sized {
    /// The opaque boolean produced by comparisons and consumed by `mux_ct`.
    type Flag;

    /// The plaintext this scalar stands for.
    spec fn val(&self) -> u8;

    /// The plaintext truth value a flag stands for.
    spec fn truth(f: &Self::Flag) -> bool;

    /// A copy of the scalar carrying the same plaintext.
    fn dup(&self) -> (r: Self)
        ensures
            r.val() == self.val(),
    ;

    /// A copy of a flag carrying the same truth value.
    fn dup_flag(f: &Self::Flag) -> (r: Self::Flag)
        ensures
            Self::truth(&r) == Self::truth(f),
    ;

    /// Equality test: the flag holds exactly when the plaintexts agree.
    fn eq_ct(&self, other: &Self) -> (r: Self::Flag)
        ensures
            Self::truth(&r) == (self.val() == other.val()),
    ;

    /// Ordering test: the flag holds exactly when `self <= other`.
    fn le_ct(&self, other: &Self) -> (r: Self::Flag)
        ensures
            Self::truth(&r) == (self.val() <= other.val()),
    ;

    /// Boolean conjunction of two flags.
    fn and_ct(a: &Self::Flag, b: &Self::Flag) -> (r: Self::Flag)
        ensures
            Self::truth(&r) == (Self::truth(a) && Self::truth(b)),
    ;

    /// Addition modulo 256, the full range of the scalar's plaintext.
    fn add_ct(&self, other: &Self) -> (r: Self)
        ensures
            r.val() == (self.val() + other.val()) % 256,
    ;

    /// Remainder of the division `self / other`.
    fn rem_ct(&self, other: &Self) -> (r: Self)
        requires
            other.val() != 0,
        ensures
            r.val() == self.val() % other.val(),
    ;

    /// Conditional select: `self` when the selector holds, `other` when it
    /// does not, without revealing which branch was taken.
    fn mux_ct(&self, other: &Self, sel: &Self::Flag) -> (r: Self)
        ensures
            r.val() == (if Self::truth(sel) {
                self.val()
            } else {
                other.val()
            }),
    ;
}

} // verus!
