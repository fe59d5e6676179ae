//! The unsigned primitive integers a number can be set from or read as.
use crate::bits::exp2;
use vstd::prelude::*;

verus! {

/// An unsigned primitive integer.
pub trait Unsigned: Copy + Sized {
    /// The value as a natural number.
    spec fn as_nat(self) -> nat;

    /// The largest value of the type.
    spec fn max_nat() -> nat;

    /// Every value lies between zero and the largest value, which is below `2^128`.
    proof fn lemma_range(self)
        ensures
            self.as_nat() <= Self::max_nat(),
            Self::max_nat() < exp2(128),
    ;

    /// The largest value of the type, widened to `u128`.
    fn max_u128() -> (r: u128)
        ensures
            r == Self::max_nat(),
    ;

    /// The value widened to `u128`.
    fn as_u128(self) -> (r: u128)
        ensures
            r == self.as_nat(),
    ;

    /// The value `v`, or zero where `v` does not fit into the type.
    fn from_u128_or_default(v: u128) -> (r: Self)
        ensures
            r.as_nat() == if v <= Self::max_nat() {
                v as nat
            } else {
                0
            },
    ;
}

/// `2^128`, the number of `u128` values.
pub proof fn lemma_exp2_128()
    ensures
        exp2(128) == 0x1_0000_0000_0000_0000_0000_0000_0000_0000,
{
    crate::bits::lemma_exp2_values();
    crate::bits::lemma_exp2_add(8, 8);
    crate::bits::lemma_exp2_add(16, 16);
    crate::bits::lemma_exp2_add(32, 32);
    crate::bits::lemma_exp2_add(64, 64);
    let a = exp2(8);
    let b = exp2(16);
    let c = exp2(32);
    let d = exp2(64);
    assert(b == 0x1_0000) by (nonlinear_arith)
        requires
            b == a * a,
            a == 256,
    ;
    assert(c == 0x1_0000_0000) by (nonlinear_arith)
        requires
            c == b * b,
            b == 0x1_0000,
    ;
    assert(d == 0x1_0000_0000_0000_0000) by (nonlinear_arith)
        requires
            d == c * c,
            c == 0x1_0000_0000,
    ;
    assert(exp2(128) == 0x1_0000_0000_0000_0000_0000_0000_0000_0000) by (nonlinear_arith)
        requires
            exp2(128) == d * d,
            d == 0x1_0000_0000_0000_0000,
    ;
}

impl Unsigned for u8 {
    open spec fn as_nat(self) -> nat {
        self as nat
    }

    open spec fn max_nat() -> nat {
        u8::MAX as nat
    }

    proof fn lemma_range(self) {
        lemma_exp2_128();
    }

    fn max_u128() -> (r: u128) {
        u8::MAX as u128
    }

    fn as_u128(self) -> (r: u128) {
        self as u128
    }

    fn from_u128_or_default(v: u128) -> (r: Self) {
        if v <= u8::MAX as u128 {
            v as u8
        } else {
            0
        }
    }
}

impl Unsigned for u16 {
    open spec fn as_nat(self) -> nat {
        self as nat
    }

    open spec fn max_nat() -> nat {
        u16::MAX as nat
    }

    proof fn lemma_range(self) {
        lemma_exp2_128();
    }

    fn max_u128() -> (r: u128) {
        u16::MAX as u128
    }

    fn as_u128(self) -> (r: u128) {
        self as u128
    }

    fn from_u128_or_default(v: u128) -> (r: Self) {
        if v <= u16::MAX as u128 {
            v as u16
        } else {
            0
        }
    }
}

impl Unsigned for u32 {
    open spec fn as_nat(self) -> nat {
        self as nat
    }

    open spec fn max_nat() -> nat {
        u32::MAX as nat
    }

    proof fn lemma_range(self) {
        lemma_exp2_128();
    }

    fn max_u128() -> (r: u128) {
        u32::MAX as u128
    }

    fn as_u128(self) -> (r: u128) {
        self as u128
    }

    fn from_u128_or_default(v: u128) -> (r: Self) {
        if v <= u32::MAX as u128 {
            v as u32
        } else {
            0
        }
    }
}

impl Unsigned for u64 {
    open spec fn as_nat(self) -> nat {
        self as nat
    }

    open spec fn max_nat() -> nat {
        u64::MAX as nat
    }

    proof fn lemma_range(self) {
        lemma_exp2_128();
    }

    fn max_u128() -> (r: u128) {
        u64::MAX as u128
    }

    fn as_u128(self) -> (r: u128) {
        self as u128
    }

    fn from_u128_or_default(v: u128) -> (r: Self) {
        if v <= u64::MAX as u128 {
            v as u64
        } else {
            0
        }
    }
}

impl Unsigned for u128 {
    open spec fn as_nat(self) -> nat {
        self as nat
    }

    open spec fn max_nat() -> nat {
        u128::MAX as nat
    }

    proof fn lemma_range(self) {
        lemma_exp2_128();
    }

    fn max_u128() -> (r: u128) {
        u128::MAX
    }

    fn as_u128(self) -> (r: u128) {
        self
    }

    fn from_u128_or_default(v: u128) -> (r: Self) {
        v
    }
}

impl Unsigned for usize {
    open spec fn as_nat(self) -> nat {
        self as nat
    }

    open spec fn max_nat() -> nat {
        usize::MAX as nat
    }

    proof fn lemma_range(self) {
        lemma_exp2_128();
    }

    fn max_u128() -> (r: u128) {
        usize::MAX as u128
    }

    fn as_u128(self) -> (r: u128) {
        self as u128
    }

    fn from_u128_or_default(v: u128) -> (r: Self) {
        if v <= usize::MAX as u128 {
            v as usize
        } else {
            0
        }
    }
}

} // verus!
