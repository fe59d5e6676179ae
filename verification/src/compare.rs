//! Ordering the library's numbers against primitive integers.
use crate::bit_number::BitNumber;
use crate::bit_range::BitRange;
use crate::convert::as_u128_or_zero;
use crate::number::Number;
use crate::parse::Integral;
use std::cmp::Ordering;
use vstd::prelude::*;
use vstd::std_specs::cmp::PartialOrdSpecImpl;

verus! {

/// How the natural number `a` orders against `b`.
pub open spec fn order_of(a: nat, b: int) -> Ordering {
    if a > b {
        Ordering::Greater
    } else if a < b {
        Ordering::Less
    } else {
        Ordering::Equal
    }
}

/// How `a` orders against `b`.
fn order_u128(a: u128, b: u128) -> (r: Ordering)
    ensures
        r == if a > b {
            Ordering::Greater
        } else if a < b {
            Ordering::Less
        } else {
            Ordering::Equal
        },
{
    if a > b {
        Ordering::Greater
    } else if a < b {
        Ordering::Less
    } else {
        Ordering::Equal
    }
}

impl<T: Integral> PartialOrd<T> for Number {
    /// A number orders as its value against a non-negative integer; it
    /// counts as less than any negative one.
    fn partial_cmp(&self, other: &T) -> (r: Option<Ordering>) {
        let o = match other.to_u128() {
            Some(o) => o,
            None => return Some(Ordering::Less),
        };
        let v = self.number::<u64>();
        Some(order_u128(v.into(), o))
    }
}

impl<T: Integral> PartialOrdSpecImpl<T> for Number {
    open spec fn obeys_partial_cmp_spec() -> bool {
        true
    }

    open spec fn partial_cmp_spec(&self, other: &T) -> Option<Ordering> {
        if other.as_int() < 0 {
            Some(Ordering::Less)
        } else {
            Some(order_of(self.value(), other.as_int()))
        }
    }
}

impl<T: Integral, const N: usize, const MIN: u128, const MAX: u128> PartialOrd<T> for BitNumber<N, MIN, MAX> {
    /// A number orders as it reads as a `u128`; it counts as less than any
    /// negative integer.
    fn partial_cmp(&self, other: &T) -> (r: Option<Ordering>) {
        let o = match other.to_u128() {
            Some(o) => o,
            None => return Some(Ordering::Less),
        };
        Some(order_u128(self.number::<u128>(), o))
    }
}

impl<T: Integral, const N: usize, const MIN: u128, const MAX: u128> PartialOrdSpecImpl<T> for BitNumber<N, MIN, MAX> {
    open spec fn obeys_partial_cmp_spec() -> bool {
        true
    }

    open spec fn partial_cmp_spec(&self, other: &T) -> Option<Ordering> {
        if other.as_int() < 0 {
            Some(Ordering::Less)
        } else {
            Some(order_of(as_u128_or_zero(self.value()), other.as_int()))
        }
    }
}

impl<T: Integral, const MIN: usize, const MAX: usize> PartialOrd<T> for BitRange<MIN, MAX> {
    /// A range orders as its number reads as a `u128`; it counts as less
    /// than any negative integer.
    fn partial_cmp(&self, other: &T) -> (r: Option<Ordering>) {
        let o = match other.to_u128() {
            Some(o) => o,
            None => return Some(Ordering::Less),
        };
        Some(order_u128(self.number::<u128>(), o))
    }
}

impl<T: Integral, const MIN: usize, const MAX: usize> PartialOrdSpecImpl<T> for BitRange<MIN, MAX> {
    open spec fn obeys_partial_cmp_spec() -> bool {
        true
    }

    open spec fn partial_cmp_spec(&self, other: &T) -> Option<Ordering> {
        if other.as_int() < 0 {
            Some(Ordering::Less)
        } else {
            Some(order_of(as_u128_or_zero(self.value()), other.as_int()))
        }
    }
}

} // verus!
