//! Non-negative fixed-point numbers with nine decimal places.
//!
//! Biases, slopes and relative weights are all `Fixed` values: a `u128` count
//! of atomic units, `SCALE` of which make one whole unit. All arithmetic is
//! exact; operations that could exceed `u128::MAX` are checked.

use vstd::prelude::*;

verus! {

/// Atomic units per whole unit.
pub const SCALE: u128 = 1_000_000_000;

/// A non-negative fixed-point number: `atomics / SCALE` whole units.
#[derive(Clone, Copy, PartialEq, Eq, Structural, Debug)]
pub struct Fixed {
    pub atomics: u128,
}

impl Fixed {
    /// The value in atomic units, as a mathematical integer.
    pub open spec fn value(self) -> nat {
        self.atomics as nat
    }

    pub open spec fn spec_zero() -> Fixed {
        Fixed { atomics: 0 }
    }

    #[verifier::when_used_as_spec(spec_zero)]
    pub fn zero() -> (r: Fixed)
        ensures
            r == Self::spec_zero(),
    {
        Fixed { atomics: 0 }
    }

    /// Build from atomic units.
    pub fn from_atomics(atomics: u128) -> (r: Fixed)
        ensures
            r.value() == atomics,
    {
        Fixed { atomics }
    }

    /// Build from whole units; `None` when `whole * SCALE` exceeds `u128::MAX`.
    pub fn checked_from_whole(whole: u128) -> (r: Option<Fixed>)
        ensures
            whole * SCALE <= u128::MAX ==> r == Some(Fixed { atomics: (whole * SCALE) as u128 }),
            whole * SCALE > u128::MAX ==> r is None,
    {
        match whole.checked_mul(SCALE) {
            Some(atomics) => Some(Fixed { atomics }),
            None => None,
        }
    }

    /// The whole part of the value, rounding toward zero.
    pub fn floor(self) -> (r: u128)
        ensures
            r == self.value() / SCALE as nat,
    {
        self.atomics / SCALE
    }

    /// Exact sum; `None` on `u128` overflow.
    pub fn checked_add(self, other: Fixed) -> (r: Option<Fixed>)
        ensures
            self.value() + other.value() <= u128::MAX ==> (r matches Some(f)
                && f.value() == self.value() + other.value()),
            self.value() + other.value() > u128::MAX ==> r is None,
    {
        match self.atomics.checked_add(other.atomics) {
            Some(atomics) => Some(Fixed { atomics }),
            None => None,
        }
    }

    /// Difference, floored at zero.
    pub fn saturating_sub(self, other: Fixed) -> (r: Fixed)
        ensures
            r.value() == sat_sub(self.value(), other.value()),
    {
        if self.atomics >= other.atomics {
            Fixed { atomics: self.atomics - other.atomics }
        } else {
            Fixed { atomics: 0 }
        }
    }

    /// Exact product with an integer number of periods; `None` on overflow.
    pub fn checked_mul_u64(self, factor: u64) -> (r: Option<Fixed>)
        ensures
            self.value() * factor <= u128::MAX ==> (r matches Some(f)
                && f.value() == self.value() * factor),
            self.value() * factor > u128::MAX ==> r is None,
    {
        match self.atomics.checked_mul(factor as u128) {
            Some(atomics) => Some(Fixed { atomics }),
            None => None,
        }
    }

    /// The exact quotient `numerator / denominator`, rounded down to the
    /// nearest representable value; `None` when `numerator * SCALE` exceeds
    /// `u128::MAX`.
    pub fn checked_from_ratio(numerator: u128, denominator: u128) -> (r: Option<Fixed>)
        requires
            denominator > 0,
        ensures
            numerator * SCALE <= u128::MAX ==> (r matches Some(f)
                && f.value() == (numerator * SCALE) as nat / denominator as nat),
            numerator * SCALE > u128::MAX ==> r is None,
    {
        match numerator.checked_mul(SCALE) {
            Some(scaled) => Some(Fixed { atomics: scaled / denominator }),
            None => None,
        }
    }
}

/// Natural-number subtraction floored at zero.
pub open spec fn sat_sub(a: nat, b: nat) -> nat {
    if a >= b {
        (a - b) as nat
    } else {
        0
    }
}

} // verus!
