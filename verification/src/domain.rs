//! The integer domain of an assignment run: a fixed bit width and signedness.
//!
//! All arithmetic works on raw two's-complement bit patterns held in a
//! `u128`, so a signed domain behaves exactly like its unsigned counterpart
//! of the same width; the signedness only matters to callers that
//! reinterpret the pattern.

use vstd::prelude::*;

use crate::parity::has_even_popcount;

verus! {

/// A fixed bit width (8, 16, 32, 64 or 128) together with a signedness.
///
/// Values of the domain are the raw bit patterns `0 ..= max_raw()`; the sign
/// bit takes part in the population count like any other bit.
#[derive(Copy, Clone, Debug, PartialEq, Eq, Structural)]
pub struct IntegerDomain {
    pub bits: u32,
    pub signed: bool,
}

/// The first value of the parity sequence: the all-zero pattern for even
/// parity (population count 0), one for odd parity (population count 1).
pub open spec fn first_value(is_even: bool) -> u128 {
    if is_even {
        0
    } else {
        1
    }
}

impl IntegerDomain {
    /// The width is one of the supported ones.
    pub open spec fn wf(&self) -> bool {
        self.bits == 8 || self.bits == 16 || self.bits == 32 || self.bits == 64 || self.bits
            == 128
    }

    /// The largest raw bit pattern of the domain: all `bits` bits set.
    pub open spec fn max_raw(&self) -> u128 {
        if self.bits == 8 {
            0xff
        } else if self.bits == 16 {
            0xffff
        } else if self.bits == 32 {
            0xffff_ffff
        } else if self.bits == 64 {
            0xffff_ffff_ffff_ffff
        } else {
            u128::MAX
        }
    }

    /// Builds a domain, rejecting unsupported widths.
    pub fn new(bits: u32, signed: bool) -> (r: Option<IntegerDomain>)
        ensures
            match r {
                Some(d) => d.wf() && d.bits == bits && d.signed == signed,
                None => !(IntegerDomain { bits, signed }).wf(),
            },
    {
        if bits == 8 || bits == 16 || bits == 32 || bits == 64 || bits == 128 {
            Some(IntegerDomain { bits, signed })
        } else {
            None
        }
    }

    /// The largest raw bit pattern, as a run-time value.
    pub fn max_value(&self) -> (r: u128)
        requires
            self.wf(),
        ensures
            r == self.max_raw(),
    {
        if self.bits == 8 {
            0xff
        } else if self.bits == 16 {
            0xffff
        } else if self.bits == 32 {
            0xffff_ffff
        } else if self.bits == 64 {
            0xffff_ffff_ffff_ffff
        } else {
            u128::MAX
        }
    }
}

/// The capability interface of a domain: the first value of the parity
/// sequence, the checked successor, and the bit parity of a pattern.
pub trait IntegerParity: Sized {
    /// The interface's well-formedness condition.
    spec fn inv(&self) -> bool;

    /// The largest representable raw pattern.
    spec fn spec_max(&self) -> u128;

    /// The domain's first value of the requested parity: zero for even, one
    /// for odd.
    fn first(&self, is_even: bool) -> (r: u128)
        requires
            self.inv(),
        ensures
            r == first_value(is_even),
            r <= self.spec_max(),
            has_even_popcount(r as nat) == is_even;

    /// The successor of `v` within the domain, or `None` at the maximum.
    fn checked_increment(&self, v: u128) -> (r: Option<u128>)
        requires
            self.inv(),
            v <= self.spec_max(),
        ensures
            match r {
                Some(n) => v < self.spec_max() && n == v + 1,
                None => v == self.spec_max(),
            };

    /// Whether the population count of `v` is even.
    fn has_even_parity(&self, v: u128) -> (r: bool)
        ensures
            r == has_even_popcount(v as nat);
}

impl IntegerParity for IntegerDomain {
    open spec fn inv(&self) -> bool {
        self.wf()
    }

    open spec fn spec_max(&self) -> u128 {
        self.max_raw()
    }

    fn first(&self, is_even: bool) -> (r: u128) {
        proof {
            assert(has_even_popcount(0nat));
            assert(crate::parity::popcount(1nat) == 1) by {
                reveal_with_fuel(crate::parity::popcount, 2);
            }
        }
        if is_even {
            0
        } else {
            1
        }
    }

    fn checked_increment(&self, v: u128) -> (r: Option<u128>) {
        if v == self.max_value() {
            None
        } else {
            Some(v + 1)
        }
    }

    fn has_even_parity(&self, v: u128) -> (r: bool) {
        crate::parity::has_even_parity(v)
    }
}

} // verus!
