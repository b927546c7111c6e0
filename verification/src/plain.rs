//! A plaintext reference backend for the scalar capability.
//!
//! This backend carries its value in the clear.  It gives the engine a
//! fully verified instantiation and lets callers exercise the circuit
//! logic without an encryption provider; it is a reference model, not an
//! oblivious implementation, since the host can read its fields.

use vstd::prelude::*;

use crate::scalar::ObliviousScalar;

verus! {

/// A scalar whose plaintext is stored directly.
#[derive(Clone, Copy, PartialEq, Eq, Structural, Debug)]
pub struct PlainScalar {
    pub value: u8,
}

/// A flag whose truth value is stored directly.
#[derive(Clone, Copy, PartialEq, Eq, Structural, Debug)]
pub struct PlainFlag {
    pub value: bool,
}

impl PlainScalar {
    /// Wraps a plaintext byte as a scalar.
    pub fn new(value: u8) -> (r: PlainScalar)
        ensures
            r.val() == value,
    {
        PlainScalar { value }
    }
}

impl ObliviousScalar for PlainScalar {
    type Flag = PlainFlag;

    open spec fn val(&self) -> u8 {
        self.value
    }

    open spec fn truth(f: &PlainFlag) -> bool {
        f.value
    }

    fn dup(&self) -> (r: PlainScalar) {
        PlainScalar { value: self.value }
    }

    fn dup_flag(f: &PlainFlag) -> (r: PlainFlag) {
        PlainFlag { value: f.value }
    }

    fn eq_ct(&self, other: &PlainScalar) -> (r: PlainFlag) {
        PlainFlag { value: self.value == other.value }
    }

    fn le_ct(&self, other: &PlainScalar) -> (r: PlainFlag) {
        PlainFlag { value: self.value <= other.value }
    }

    fn and_ct(a: &PlainFlag, b: &PlainFlag) -> (r: PlainFlag) {
        PlainFlag { value: a.value && b.value }
    }

    fn add_ct(&self, other: &PlainScalar) -> (r: PlainScalar) {
        let wide: u16 = self.value as u16 + other.value as u16;
        PlainScalar { value: (wide % 256) as u8 }
    }

    fn rem_ct(&self, other: &PlainScalar) -> (r: PlainScalar) {
        PlainScalar { value: self.value % other.value }
    }

    fn mux_ct(&self, other: &PlainScalar, sel: &PlainFlag) -> (r: PlainScalar) {
        if sel.value {
            PlainScalar { value: self.value }
        } else {
            PlainScalar { value: other.value }
        }
    }
}

} // verus!
