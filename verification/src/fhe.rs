//! The fully homomorphic backend for the scalar capability, built on the
//! phantom-zone non-interactive multi-party scheme.
//!
//! A scalar here is a real eight-bit ciphertext paired with a ghost
//! plaintext: the value the ciphertext is modeled to decrypt to under the
//! protocol's serving key.  Each primitive operation calls the
//! corresponding homomorphic circuit and its contract propagates the
//! ghost plaintext the way the circuit's documentation says the real
//! plaintext moves.  Nothing executable ever reads a plaintext.
//!
//! Every operation in this module assumes the process-wide protocol
//! state that phantom-zone keeps in thread-local storage — the parameter
//! set, the common reference seed and the aggregated server key — has
//! been installed by the surrounding application before the first call.

use vstd::prelude::*;

use phantom_zone::{Encryptor, KeySwitchWithId, SampleExtractor};

use crate::circuit::const_count;
use crate::scalar::ObliviousScalar;

verus! {

/// A seed for the common reference string.
pub type Seed = [u8; 32];

/// A participant's identifier in the multi-party protocol.
pub type UserId = usize;

/// One participant's decryption share for one eight-bit ciphertext: one
/// share element per encrypted bit.
pub type DecryptionShare = Vec<u64>;

/// A participant's client key.  Opaque to the engine; the surrounding
/// application creates it with phantom-zone's key generation and may
/// reach the raw key through `inner`.
#[verifier::external_body]
pub struct ClientKeyHandle {
    pub inner: phantom_zone::ClientKey,
}

/// An eight-bit ciphertext.  Opaque to the engine; the surrounding
/// application may reach the raw ciphertext through `inner`, for
/// instance to generate decryption shares.
#[verifier::external_body]
pub struct CipherU8 {
    pub inner: phantom_zone::FheUint8,
}

/// A boolean ciphertext, as produced by homomorphic comparisons.
#[verifier::external_body]
pub struct CipherBool {
    pub inner: phantom_zone::FheBool,
}

/// An eight-bit ciphertext together with the ghost plaintext it is
/// modeled to decrypt to.  The pairing is maintained only by the trusted
/// operations of this module, so a value of this type carries a
/// consistent model from the moment it is created.
pub struct FheScalar {
    ct: CipherU8,
    v: Ghost<u8>,
}

/// A boolean ciphertext together with the ghost truth value it is
/// modeled to decrypt to.
pub struct FheFlag {
    ct: CipherBool,
    v: Ghost<bool>,
}

impl FheScalar {
    /// Wraps a ciphertext that arrived from a participant.  Nothing is
    /// assumed about the value it decrypts to: every contract downstream
    /// holds for all possible plaintexts of such a scalar.
    pub fn from_cipher(ct: CipherU8) -> FheScalar {
        FheScalar { ct, v: Ghost(vstd::pervasive::arbitrary()) }
    }

    /// The underlying ciphertext, for the participants' decryption.
    pub fn cipher(&self) -> &CipherU8 {
        &self.ct
    }
}

impl FheFlag {
    /// The underlying ciphertext, for the participants' decryption.
    pub fn cipher(&self) -> &CipherBool {
        &self.ct
    }
}

/// A model value for a scalar about which the contracts will say
/// everything that is known; ghost only, nothing exists at runtime.
fn unknown_scalar_model() -> Ghost<u8> {
    Ghost(vstd::pervasive::arbitrary())
}

/// A model value for a flag; ghost only, nothing exists at runtime.
fn unknown_flag_model() -> Ghost<bool> {
    Ghost(vstd::pervasive::arbitrary())
}

/// Relies on phantom-zone `FheUint8::clone`: a clone of a ciphertext
/// decrypts to the same value.
#[verifier::external_body]
fn scalar_dup(a: &FheScalar) -> (r: FheScalar)
    ensures
        r.v@ == a.v@,
{
    FheScalar { ct: CipherU8 { inner: a.ct.inner.clone() }, v: unknown_scalar_model() }
}

/// Relies on phantom-zone `FheBool::clone`: a clone of a ciphertext
/// decrypts to the same value.
#[verifier::external_body]
fn flag_dup(f: &FheFlag) -> (r: FheFlag)
    ensures
        r.v@ == f.v@,
{
    FheFlag { ct: CipherBool { inner: f.ct.inner.clone() }, v: unknown_flag_model() }
}

/// Relies on phantom-zone `FheUint8::eq`: the result decrypts to whether
/// the operands decrypt to the same value.
#[verifier::external_body]
fn scalar_eq(a: &FheScalar, b: &FheScalar) -> (r: FheFlag)
    ensures
        r.v@ == (a.v@ == b.v@),
{
    FheFlag { ct: CipherBool { inner: a.ct.inner.eq(&b.ct.inner) }, v: unknown_flag_model() }
}

/// Relies on phantom-zone `FheUint8::le`: the result decrypts to whether
/// the left operand's value is at most the right one's.
#[verifier::external_body]
fn scalar_le(a: &FheScalar, b: &FheScalar) -> (r: FheFlag)
    ensures
        r.v@ == (a.v@ <= b.v@),
{
    FheFlag { ct: CipherBool { inner: a.ct.inner.le(&b.ct.inner) }, v: unknown_flag_model() }
}

/// Relies on phantom-zone's `BitAnd` for `FheBool`: the result decrypts
/// to the conjunction of the operands' values.
#[verifier::external_body]
fn flag_and(a: &FheFlag, b: &FheFlag) -> (r: FheFlag)
    ensures
        r.v@ == (a.v@ && b.v@),
{
    FheFlag { ct: CipherBool { inner: &a.ct.inner & &b.ct.inner }, v: unknown_flag_model() }
}

/// Relies on phantom-zone's `Add` for `FheUint8`, an eight-bit adder
/// whose carry out is discarded: the result decrypts to the sum of the
/// operands' values modulo 256.
#[verifier::external_body]
fn scalar_add(a: &FheScalar, b: &FheScalar) -> (r: FheScalar)
    ensures
        r.v@ == (a.v@ + b.v@) % 256,
{
    FheScalar { ct: CipherU8 { inner: &a.ct.inner + &b.ct.inner }, v: unknown_scalar_model() }
}

/// Relies on phantom-zone's `Rem` for `FheUint8`, a division circuit:
/// for a divisor that decrypts to a non-zero value the result decrypts
/// to the remainder of the operands' values.
#[verifier::external_body]
fn scalar_rem(a: &FheScalar, b: &FheScalar) -> (r: FheScalar)
    requires
        b.v@ != 0,
    ensures
        r.v@ == a.v@ % b.v@,
{
    FheScalar { ct: CipherU8 { inner: &a.ct.inner % &b.ct.inner }, v: unknown_scalar_model() }
}

/// Relies on phantom-zone `FheUint8::mux`: the result decrypts to the
/// left operand's value when the selector decrypts to true and to the
/// right operand's value otherwise, revealing neither.
#[verifier::external_body]
fn scalar_mux(a: &FheScalar, b: &FheScalar, sel: &FheFlag) -> (r: FheScalar)
    ensures
        r.v@ == (if sel.v@ {
            a.v@
        } else {
            b.v@
        }),
{
    FheScalar {
        ct: CipherU8 { inner: a.ct.inner.mux(&b.ct.inner, &sel.ct.inner) },
        v: unknown_scalar_model(),
    }
}

impl ObliviousScalar for FheScalar {
    type Flag = FheFlag;

    closed spec fn val(&self) -> u8 {
        self.v@
    }

    closed spec fn truth(f: &FheFlag) -> bool {
        f.v@
    }

    fn dup(&self) -> (r: FheScalar) {
        scalar_dup(self)
    }

    fn dup_flag(f: &FheFlag) -> (r: FheFlag) {
        flag_dup(f)
    }

    fn eq_ct(&self, other: &FheScalar) -> (r: FheFlag) {
        scalar_eq(self, other)
    }

    fn le_ct(&self, other: &FheScalar) -> (r: FheFlag) {
        scalar_le(self, other)
    }

    fn and_ct(a: &FheFlag, b: &FheFlag) -> (r: FheFlag) {
        flag_and(a, b)
    }

    fn add_ct(&self, other: &FheScalar) -> (r: FheScalar) {
        scalar_add(self, other)
    }

    fn rem_ct(&self, other: &FheScalar) -> (r: FheScalar) {
        scalar_rem(self, other)
    }

    fn mux_ct(&self, other: &FheScalar, sel: &FheFlag) -> (r: FheScalar) {
        scalar_mux(self, other, sel)
    }
}

/// Relies on phantom-zone's `Encryptor::encrypt` for a client key,
/// `SeededBatchedFheUint8::unseed`, `KeySwitchWithId::key_switch` and
/// `SampleExtractor::extract_all`: the bytes are encrypted under the
/// named participant's key, re-keyed to the protocol's serving key and
/// extracted one ciphertext per input byte, in order, each decrypting to
/// the byte it encodes.
#[verifier::external_body]
fn encrypt_and_switch(client_key: &ClientKeyHandle, values: &Vec<u8>, party_id: usize) -> (r: Vec<
    FheScalar,
>)
    ensures
        r@.len() == values@.len(),
        forall|i: int| 0 <= i < r@.len() ==> (#[trigger] r@[i]).val() == values@[i],
{
    let batch = client_key.inner.encrypt(values.as_slice());
    let cts = batch.unseed::<Vec<Vec<u64>>>().key_switch(party_id).extract_all();
    cts.into_iter().map(
        |c| FheScalar { ct: CipherU8 { inner: c }, v: unknown_scalar_model() },
    ).collect()
}

/// Provisions the canonical constant set: the designated participant
/// encrypts the plaintexts `0 .. const_count(dim)` and the result is
/// re-keyed to the engine's serving key.  The engine cannot mint
/// encrypted constants of its own, so this runs once per engine, before
/// construction.
#[verifier::loop_isolation(false)]
pub fn setup_values(client_key: &ClientKeyHandle, dim: usize, party_id: usize) -> (r: Vec<
    FheScalar,
>)
    requires
        1 <= dim <= 128,
    ensures
        r@.len() == const_count(dim as int),
        forall|i: int| 0 <= i < r@.len() ==> (#[trigger] r@[i]).val() == i,
{
    let needed: usize = if dim >= 4 {
        dim
    } else {
        4
    };
    let mut values: Vec<u8> = Vec::new();
    let mut i: usize = 0;
    while i < needed
        invariant
            0 <= i <= needed,
            needed <= 128,
            values@.len() == i,
            forall|j: int| 0 <= j < i ==> values@[j] == j,
        decreases needed - i,
    {
        values.push(i as u8);
        i += 1;
    }
    encrypt_and_switch(client_key, &values, party_id)
}

} // verus!
