//! Helper for handing work items to a parallel worker pool.

use vstd::prelude::*;

verus! {

/// Pins a closure to a `Send`-able `FnOnce` so that a worker pool can
/// take it, and hands it back unchanged.  Naming the bound here keeps
/// type errors at the call site instead of deep inside the pool.
pub fn __requires_sendable_closure<R, F: FnOnce() -> R + Send>(x: F) -> (r: F)
    ensures
        r == x,
{
    x
}

} // verus!
