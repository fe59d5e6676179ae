//! Storage for a number or a bit string of a bounded number of bits.
use crate::bits::{
    bit_at, bits_of, byte_bits, bytes_for, exp2, lemma_bits_of_empty, lemma_bits_of_push,
    lemma_exp2_add, lemma_exp2_pos, lemma_to_bits, lemma_value_concat, lemma_zeros_value, padded_bits, to_bits, value_of, zeros,
};
use crate::buffers::{bytes_clone, bytes_copy_from_slice, bytes_from_vec, bytes_to_vec, bytes_view};
use crate::partial::{lemma_write_fits, lemma_write_wf_bits, PartialByte};
use crate::unsigned::{lemma_exp2_128, Unsigned};
use bytes::Bytes;
use vstd::prelude::*;

verus! {

/// The number of bits needed to write `v`; zero takes one bit.
pub open spec fn bit_len(v: nat) -> nat
    decreases v,
{
    if v < 2 {
        1
    } else {
        1 + bit_len(v / 2)
    }
}

/// `v` fits into `k >= 1` bits exactly when it needs at most `k` bits.
pub proof fn lemma_bit_len(v: nat, k: nat)
    requires
        k >= 1,
    ensures
        bit_len(v) <= k <==> v < exp2(k),
        bit_len(v) >= 1,
    decreases v,
{
    reveal_with_fuel(exp2, 2);
    crate::bits::lemma_exp2_mono(1, k);
    if v >= 2 {
        if k >= 2 {
            lemma_bit_len(v / 2, (k - 1) as nat);
            assert(exp2(k) == 2 * exp2((k - 1) as nat));
        } else {
            lemma_bit_len(v / 2, 1);
        }
    }
}

/// Returns the number of bits required to
/// store `v`.
pub fn num_bits<U: Unsigned>(v: U) -> (r: usize)
    ensures
        r == bit_len(v.as_nat()),
        1 <= r <= 128,
{
    let mut x = v.as_u128();
    let mut k: usize = 1;
    proof {
        v.lemma_range();
        lemma_bit_len(v.as_nat(), 128);
        lemma_bit_len(x as nat, 1);
    }
    while x >= 2
        invariant
            k + bit_len(x as nat) == bit_len(v.as_nat()) + 1,
            bit_len(v.as_nat()) <= 128,
            1 <= k,
        decreases x,
    {
        proof {
            lemma_bit_len((x / 2) as nat, 1);
        }
        x = x / 2;
        k = k + 1;
    }
    k
}

/// length is not between the required bounds
#[derive(Debug, Clone, Copy, PartialEq)]
pub struct InvalidBitLength {
    pub got: usize,
    pub min: usize,
    pub max: usize,
}

/// Error of a [BitStore] operation.
#[derive(Debug, Clone, PartialEq)]
pub enum Error {
    /// length is not between the required bounds
    InvalidLength { source: InvalidBitLength },
    /// trying to fit a number into too small a space
    InvalidFit { num: u128, needs: usize, expected: usize },
    /// trying to set a number beyond 128 bits
    TooLarge,
}

/// A sequence of `len` bits, kept left-aligned in whole bytes.
///
/// `MIN` and `MAX` bound the number of bits that may be set.
#[derive(Debug, PartialEq, Eq, PartialOrd, Ord)]
pub struct BitStore<const MIN: usize, const MAX: usize> {
    data: Bytes,
    len: usize,
}

impl<const MIN: usize, const MAX: usize> BitStore<MIN, MAX> {
    /// The stored bytes.
    pub closed spec fn data(&self) -> Seq<u8> {
        bytes_view(self.data)
    }

    /// The number of stored bits.
    pub closed spec fn len(&self) -> nat {
        self.len as nat
    }

    /// The stored bits; bits past the stored bytes read as zero.
    pub open spec fn bits_view(&self) -> Seq<bool> {
        padded_bits(self.data(), self.len())
    }

    /// The stored number.
    pub open spec fn value(&self) -> nat {
        value_of(self.bits_view())
    }

    /// The error for a bit length outside of `MIN..=MAX`.
    pub open spec fn length_error(bits: usize) -> InvalidBitLength {
        InvalidBitLength { got: bits, min: MIN, max: MAX }
    }

    /// Stores `bits` bits from `buf`.
    ///
    /// On success the store itself is handed back, for chaining.
    pub fn set_bits(&mut self, buf: &[u8], bits: usize) -> (r: Result<&mut Self, Error>)
        ensures
            bits < MIN || bits > MAX ==> r == Err::<&mut Self, Error>(
                Error::InvalidLength { source: Self::length_error(bits) },
            ) && final(self).data() == old(self).data() && final(self).len() == old(self).len(),
            !(bits < MIN || bits > MAX) ==> (r matches Ok(s) && s.data() == buf@ && s.len() == bits
                && *final(self) == *final(s)),
    {
        if let Err(e) = Self::ensure_fit(bits) {
            return Err(Error::InvalidLength { source: e });
        }
        self.data = bytes_copy_from_slice(buf);
        self.len = bits;
        Ok(self)
    }

    /// Stores the number `num` in `bits` bits, or in as many bits as it
    /// needs when `bits` is `None`. On success the store itself is handed
    /// back, for chaining.
    pub fn set_number<U: Unsigned>(&mut self, num: U, bits: Option<usize>) -> (r: Result<&mut Self, Error>)
        ensures
            ({
                let needs = bit_len(num.as_nat());
                let b = match bits {
                    Some(b) => b as nat,
                    None => needs,
                };
                let unfit = match bits {
                    Some(b) => b < needs,
                    None => false,
                };
                &&& unfit ==> r == Err::<&mut Self, Error>(
                    Error::InvalidFit { num: num.as_nat() as u128, needs: needs as usize, expected: b as usize },
                ) && final(self).data() == old(self).data() && final(self).len() == old(self).len()
                &&& !unfit && (b < MIN || b > MAX) ==> r == Err::<
                    &mut Self,
                    Error,
                >(Error::InvalidLength { source: Self::length_error(b as usize) })
                    && final(self).data() == old(self).data() && final(self).len() == old(
                    self,
                ).len()
                &&& !unfit && MIN <= b <= MAX && b > 128 ==> r
                    == Err::<&mut Self, Error>(Error::TooLarge) && final(self).data() == old(self).data()
                    && final(self).len() == b
                &&& !unfit && MIN <= b <= MAX && b <= 128 ==> {
                    &&& r matches Ok(s)
                    &&& s.len() == b
                    &&& bits_of(s.data()) == to_bits(num.as_nat(), b) + zeros(
                        (8 * bytes_for(b) - b) as nat,
                    )
                    &&& s.value() == num.as_nat()
                    &&& *final(self) == *final(s)
                }
            }),
    {
        let num_bits = num_bits(num);
        let bits = match bits {
            Some(b) => {
                // check if number can fit into the expected space
                if b < num_bits {
                    return Err(Error::InvalidFit { num: num.as_u128(), needs: num_bits, expected: b });
                }
                b
            },
            None => num_bits,
        };
        if let Err(e) = Self::ensure_fit(bits) {
            return Err(Error::InvalidLength { source: e });
        }
        self.len = bits;
        if bits > 128 {
            return Err(Error::TooLarge);
        }
        let v = num.as_u128();
        proof {
            num.lemma_range();
            lemma_exp2_128();
            lemma_bit_len(v as nat, bits as nat);
        }
        let out = left_aligned(v, bits);
        self.data = bytes_from_vec(out);
        proof {
            lemma_to_bits(v as nat, bits as nat);
            lemma_padded_of_aligned(self.data(), to_bits(v as nat, bits as nat));
        }
        Ok(self)
    }

    /// Returns the stored bytes.
    pub fn bits(&self) -> (r: Bytes)
        ensures
            bytes_view(r) == self.data(),
    {
        bytes_clone(&self.data)
    }

    /// Returns the number of stored bits.
    pub fn len_bits(&self) -> (r: usize)
        ensures
            r == self.len(),
    {
        self.len
    }

    /// Returns the stored number, or zero where it does not fit into `U`.
    pub fn number<U: Unsigned>(&self) -> (r: U)
        ensures
            r.as_nat() == if self.value() <= U::max_nat() {
                self.value()
            } else {
                0
            },
    {
        let data = bytes_to_vec(&self.data);
        match value_up_to(&data, self.len, U::max_u128()) {
            Some(v) => U::from_u128_or_default(v),
            None => U::from_u128_or_default(0),
        }
    }

    fn ensure_fit(bits: usize) -> (r: Result<(), InvalidBitLength>)
        ensures
            r == if bits < MIN || bits > MAX {
                Err::<(), InvalidBitLength>(Self::length_error(bits))
            } else {
                Ok(())
            },
    {
        if bits < MIN || bits > MAX {
            Err(InvalidBitLength { got: bits, min: MIN, max: MAX })
        } else {
            Ok(())
        }
    }

    /// An empty store with room for `MIN` bits.
    pub fn new() -> (r: Self)
        ensures
            r.data() == Seq::new(bytes_for(MIN as nat), |i: int| 0u8),
            r.len() == 0,
            r.value() == 0,
    {
        let bytes = MIN / 8;
        let bits = MIN % 8;
        let len = if bits != 0 {
            bytes + 1
        } else {
            bytes
        };
        let mut v: Vec<u8> = Vec::new();
        let mut i: usize = 0;
        while i < len
            invariant
                i <= len,
                v@ == Seq::new(i as nat, |j: int| 0u8),
            decreases len - i,
        {
            v.push(0);
            i = i + 1;
            proof {
                assert(v@ =~= Seq::new(i as nat, |j: int| 0u8));
            }
        }
        let r = BitStore { data: bytes_from_vec(v), len: 0 };
        proof {
            assert(r.bits_view() =~= Seq::<bool>::empty());
        }
        r
    }
}

impl<const MIN: usize, const MAX: usize> Clone for BitStore<MIN, MAX> {
    fn clone(&self) -> (r: Self)
        ensures
            r.data() == self.data(),
            r.len() == self.len(),
    {
        BitStore { data: bytes_clone(&self.data), len: self.len }
    }
}

impl<const MIN: usize, const MAX: usize> Default for BitStore<MIN, MAX> {
    fn default() -> (r: Self)
        ensures
            r.data() == Seq::new(bytes_for(MIN as nat), |i: int| 0u8),
            r.len() == 0,
            r.value() == 0,
    {
        Self::new()
    }
}

/// Bits of a byte buffer beyond a prefix that spells `bits` read as zero.
proof fn lemma_padded_of_aligned(data: Seq<u8>, bits: Seq<bool>)
    requires
        bits_of(data) == bits + zeros((8 * bytes_for(bits.len()) - bits.len()) as nat),
    ensures
        padded_bits(data, bits.len()) == bits,
{
    let n = bits.len();
    assert(bits_of(data).len() == 8 * data.len());
    assert forall|i: int| 0 <= i < n implies padded_bits(data, n)[i] == bits[i] by {
        assert(bits_of(data)[i] == bits[i]);
    }
    assert(padded_bits(data, n) =~= bits);
}

/// The `len` low bits of `v`, most significant first, left-aligned in
/// as few bytes as hold them.
pub(crate) fn left_aligned(v: u128, len: usize) -> (out: Vec<u8>)
    requires
        1 <= len <= 128,
        v < exp2(len as nat),
    ensures
        bits_of(out@) == to_bits(v as nat, len as nat) + zeros(
            (8 * bytes_for(len as nat) - len) as nat,
        ),
{
    // the bits of v, least significant first
    let mut low_first: Vec<bool> = Vec::new();
    let mut x = v;
    let mut i: usize = 0;
    while i < len
        invariant
            i <= len,
            low_first@.len() == i,
            to_bits(v as nat, len as nat) == to_bits(x as nat, (len - i) as nat)
                + low_first@.reverse(),
        decreases len - i,
    {
        let ghost l0 = low_first@;
        let ghost x0 = x;
        low_first.push(x % 2 == 1);
        x = x / 2;
        i = i + 1;
        proof {
            assert(to_bits(x0 as nat, (len - i + 1) as nat) == to_bits(x as nat, (len - i) as nat).push(
                x0 % 2 == 1,
            ));
            assert(low_first@.reverse() =~= seq![x0 % 2 == 1] + l0.reverse());
            assert(to_bits(x as nat, (len - i) as nat).push(x0 % 2 == 1) + l0.reverse()
                =~= to_bits(x as nat, (len - i) as nat) + low_first@.reverse());
        }
    }
    proof {
        assert(to_bits(v as nat, len as nat) =~= low_first@.reverse());
    }
    let ghost target = low_first@.reverse();
    // write them out, most significant first
    let mut out: Vec<u8> = Vec::new();
    let mut acc = PartialByte::default();
    proof {
        assert(0u8 & (0xFFu8 >> 0u8) == 0u8) by (bit_vector);
        lemma_bits_of_empty();
        assert(acc.cached_bits() =~= Seq::<bool>::empty());
    }
    let mut k: usize = 0;
    while k < len
        invariant
            k <= len,
            low_first@.len() == len,
            target == low_first@.reverse(),
            acc.write_wf(),
            8 * out@.len() + acc.index == k,
            bits_of(out@) + acc.cached_bits() == target.take(k as int),
        decreases len - k,
    {
        let b = low_first[len - 1 - k];
        let bit: u8 = if b {
            0x80
        } else {
            0
        };
        proof {
            lemma_write_fits(acc.byte, acc.index, bit, 1);
            assert(byte_bits(bit).take(1) =~= seq![b]) by {
                assert(bit_at(0x80u8, 0) && !bit_at(0u8, 0)) by (bit_vector);
            }
        }
        let ghost o0 = out@;
        let ghost c = acc.cached_bits() + byte_bits(bit).take(1);
        let w = acc.write(bit, 1);
        if let Some(byte) = w {
            out.push(byte);
            proof {
                assert(c.take(8) + c.skip(8) =~= c);
                lemma_bits_of_push(o0, byte);
            }
        }
        proof {
            assert(target[k as int] == b);
            assert(bits_of(out@) + acc.cached_bits() =~= bits_of(o0) + c);
            assert(target.take(k as int + 1) =~= target.take(k as int) + seq![b]);
        }
        k = k + 1;
    }
    proof {
        assert(target.take(len as int) =~= target);
    }
    if acc.index > 0 {
        let ghost o0 = out@;
        out.push(acc.byte);
        proof {
            lemma_bits_of_push(o0, acc.byte);
            lemma_write_wf_bits(acc.byte, acc.index);
            assert(bytes_for(len as nat) == o0.len() + 1);
            assert(bits_of(out@) =~= bits_of(o0) + acc.cached_bits() + zeros((8 - acc.index) as nat));
            assert(bits_of(out@) =~= target + zeros((8 * bytes_for(len as nat) - len) as nat));
        }
    } else {
        proof {
            assert(acc.cached_bits() =~= Seq::<bool>::empty());
            assert(bytes_for(len as nat) == out@.len());
            assert(bits_of(out@) =~= target + zeros(0));
        }
    }
    out
}

/// The number spelled by the first `len` bits of `data`, bits past its end
/// reading as zero, or `None` where that number is larger than `max`.
fn value_up_to(data: &Vec<u8>, len: usize, max: u128) -> (r: Option<u128>)
    ensures
        r matches Some(v) ==> v == value_of(padded_bits(data@, len as nat)) && v <= max,
        r is None ==> value_of(padded_bits(data@, len as nat)) > max,
{
    let ghost p = padded_bits(data@, len as nat);
    let total = data.len();
    let mut v: u128 = 0;
    let mut i: usize = 0;
    while i < len && i / 8 < total
        invariant
            p == padded_bits(data@, len as nat),
            i <= len,
            total == data@.len(),
            i <= 8 * total,
            v == value_of(p.take(i as int)),
            v <= max,
        decreases len - i,
    {
        let byte = data[i / 8];
        let r8 = (i % 8) as u8;
        let sh = 7 - r8;
        let b: u8 = (byte >> sh) & 1;
        proof {
            assert(b <= 1 && (b == 1) == bit_at(byte, r8)) by (bit_vector)
                requires
                    b == (byte >> sh) & 1,
                    sh == 7 - r8,
                    r8 < 8,
            ;
            assert(p.take(i as int + 1).drop_last() =~= p.take(i as int));
            assert(p[i as int] == (b == 1));
        }
        if b as u128 > max || v > (max - b as u128) / 2 {
            proof {
                lemma_prefix_value_le(p, i as int + 1);
            }
            return None;
        }
        v = 2 * v + b as u128;
        i = i + 1;
    }
    if i < len {
        // the remaining bits read as zero
        proof {
            assert(8 * total <= i);
            assert(p =~= p.take(i as int) + zeros((len - i) as nat));
        }
        if v == 0 {
            proof {
                lemma_value_concat(p.take(i as int), zeros((len - i) as nat));
                lemma_zeros_value((len - i) as nat);
                let e = exp2((len - i) as nat);
                assert(0 * e == 0) by (nonlinear_arith);
                assert(value_of(p) == 0);
            }
            return Some(0);
        }
        let rest = len - i;
        let mut j: usize = 0;
        proof {
            assert(exp2(0) == 1);
            assert(v * 1 == v);
        }
        while j < rest
            invariant
                p == padded_bits(data@, len as nat),
                p == p.take(i as int) + zeros(rest as nat),
                i <= len,
                j <= rest,
                rest == len - i,
                v >= 1,
                v <= max,
                v == value_of(p.take(i as int)) * exp2(j as nat),
            decreases rest - j,
        {
            if v > max / 2 {
                proof {
                    lemma_exp2_add(j as nat, (rest - j) as nat);
                    lemma_exp2_pos((rest - j - 1) as nat);
                    let a = value_of(p.take(i as int));
                    let e = exp2(j as nat);
                    let f = exp2((rest - j) as nat);
                    assert(f >= 2) by {
                        assert(f == 2 * exp2((rest - j - 1) as nat));
                    }
                    assert(a * (e * f) == (a * e) * f) by (nonlinear_arith);
                    assert((a * e) * f >= (a * e) * 2) by (nonlinear_arith)
                        requires
                            f >= 2,
                            a * e >= 0,
                    ;
                    lemma_value_concat(p.take(i as int), zeros((len - i) as nat));
                    lemma_zeros_value((len - i) as nat);
                    assert(value_of(p) == a * exp2(rest as nat));
                    assert(j + (rest - j) == rest);
                    assert(exp2(rest as nat) == e * f);
                    assert(v == a * e);
                    assert(2 * v > max);
                }
                return None;
            }
            proof {
                let a = value_of(p.take(i as int));
                let e = exp2(j as nat);
                assert(a * (2 * e) == 2 * (a * e)) by (nonlinear_arith);
                assert(exp2((j + 1) as nat) == 2 * e);
            }
            v = 2 * v;
            j = j + 1;
        }
        proof {
            lemma_value_concat(p.take(i as int), zeros((len - i) as nat));
            lemma_zeros_value((len - i) as nat);
        }
        Some(v)
    } else {
        proof {
            assert(p.take(i as int) =~= p);
        }
        Some(v)
    }
}

/// A prefix spells at most the number of the whole sequence.
proof fn lemma_prefix_value_le(s: Seq<bool>, k: int)
    requires
        0 <= k <= s.len(),
    ensures
        value_of(s.take(k)) <= value_of(s),
{
    assert(s =~= s.take(k) + s.skip(k));
    lemma_value_concat(s.take(k), s.skip(k));
    lemma_exp2_pos(s.skip(k).len());
    let a = value_of(s.take(k));
    let e = exp2(s.skip(k).len());
    assert(a * e >= a) by (nonlinear_arith)
        requires
            e >= 1,
            a >= 0,
    ;
}

} // verus!
