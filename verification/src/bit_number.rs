//! A number of a fixed number of bits, `x (N)` in the QUIC RFC.
use crate::bits::{
    bits_of, bytes_for, exp2, lemma_padded_prefix, lemma_to_bits, lemma_value_bound,
    lemma_value_injective, padded_bits, to_bits, value_of, zeros,
};
use crate::bitstore::{bit_len, num_bits, BitStore};
use crate::buffers::bytes_to_vec;
use crate::reader::{left_align, lemma_read_bits_result, Reader, ReaderError};
use crate::unsigned::Unsigned;
use crate::writer::Writer;
use crate::VarInt;
use vstd::prelude::*;

verus! {

/// This type represents several types of
/// the QUIC RFC:
///
/// - `x (N)` -> `BitNumber<N, 0, MAX>` a Number
///   represented by `N` bits
/// - `x (N) = C` -> `BitNumber<N, C, C>`
///   a Number represented by `N` Bits
///   with the const value `C`
/// - `x (N) = C..D` -> `BitNumber<N, C, D>`
///   a Number represented by `N` Bits
///   with a value between `C` and `D`
///   (inclusive)
#[derive(Debug, PartialEq, Eq, PartialOrd, Ord)]
pub struct BitNumber<const N: usize, const MIN: u128, const MAX: u128> {
    data: BitStore<N, N>,
}

/// Error of a [BitNumber] operation.
#[derive(Debug, PartialEq)]
pub enum BitNumberError<U: Unsigned> {
    ReaderError { source: ReaderError },
    BitStoreError { source: crate::bitstore::Error },
    /// number is outside of the specified range
    OutOfRange { value: U, min: u128, max: u128 },
    /// number needs more bits than available
    InvalidCapacity { value: U, needs: usize, cap: usize },
}

impl<U: Unsigned> BitNumberError<U> {
    /// The same error with the offending value widened to `u128`.
    pub fn cast(self) -> (r: BitNumberError<u128>)
        ensures
            match (self, r) {
                (BitNumberError::BitStoreError { source: a }, BitNumberError::BitStoreError {
                    source: b,
                }) => a == b,
                (
                    BitNumberError::InvalidCapacity { value: a, needs: n1, cap: c1 },
                    BitNumberError::InvalidCapacity { value: b, needs: n2, cap: c2 },
                ) => a.as_nat() == b && n1 == n2 && c1 == c2,
                (
                    BitNumberError::OutOfRange { value: a, min: m1, max: x1 },
                    BitNumberError::OutOfRange { value: b, min: m2, max: x2 },
                ) => a.as_nat() == b && m1 == m2 && x1 == x2,
                (BitNumberError::ReaderError { source: a }, BitNumberError::ReaderError {
                    source: b,
                }) => a == b,
                _ => false,
            },
    {
        match self {
            Self::BitStoreError { source } => BitNumberError::BitStoreError { source },
            Self::InvalidCapacity { value, needs, cap } => BitNumberError::InvalidCapacity {
                value: value.as_u128(),
                needs,
                cap,
            },
            Self::OutOfRange { value, min, max } => BitNumberError::OutOfRange {
                value: value.as_u128(),
                min,
                max,
            },
            Self::ReaderError { source } => BitNumberError::ReaderError { source },
        }
    }
}

impl<const N: usize, const MIN: u128, const MAX: u128> BitNumber<N, MIN, MAX> {
    /// The store always holds the bytes for `N` bits; its bits past `N`
    /// are zero, and an unset store holds no set bit.
    #[verifier::type_invariant]
    closed spec fn inv(self) -> bool {
        &&& self.data.data().len() == bytes_for(N as nat)
        &&& bits_of(self.data.data()).skip(N as int) == zeros((8 * bytes_for(N as nat) - N) as nat)
        &&& (self.data.len() == N || (self.data.len() == 0 && bits_of(self.data.data()) == zeros(
            8 * bytes_for(N as nat),
        )))
    }

    /// The `N` bits of the number, most significant first.
    pub closed spec fn bits_view(&self) -> Seq<bool> {
        bits_of(self.data.data()).take(N as int)
    }

    /// The number held.
    pub open spec fn value(&self) -> nat {
        value_of(self.bits_view())
    }

    proof fn lemma_inv_value(&self)
        requires
            self.inv(),
        ensures
            self.data.value() == self.value(),
            self.bits_view().len() == N,
            bits_of(self.data.data()) == self.bits_view() + zeros(
                (8 * bytes_for(N as nat) - N) as nat,
            ),
    {
        let d = self.data.data();
        assert(bits_of(d).len() == 8 * d.len());
        assert(bits_of(d) =~= self.bits_view() + bits_of(d).skip(N as int));
        if self.data.len() == N {
            lemma_padded_prefix(d, N as nat);
        } else {
            assert(padded_bits(d, 0) =~= Seq::<bool>::empty());
            assert(self.bits_view() =~= zeros(N as nat));
            crate::bits::lemma_zeros_value(N as nat);
        }
    }

    /// A number of zero bits.
    pub fn zero() -> (r: Self)
        ensures
            r.value() == 0,
    {
        let data: BitStore<N, N> = BitStore::new();
        proof {
            crate::bits::lemma_bits_of_zero_bytes(bytes_for(N as nat));
            assert(bits_of(data.data()) =~= zeros(8 * bytes_for(N as nat)));
            assert(bits_of(data.data()).skip(N as int) =~= zeros(
                (8 * bytes_for(N as nat) - N) as nat,
            ));
        }
        let r = BitNumber { data };
        proof {
            r.lemma_inv_value();
        }
        r
    }

    /// The error for `v` in [set_number](Self::set_number), if any.
    pub open spec fn set_error<U: Unsigned>(v: U) -> Option<BitNumberError<U>> {
        if bit_len(v.as_nat()) > N {
            Some(
                BitNumberError::InvalidCapacity {
                    value: v,
                    needs: bit_len(v.as_nat()) as usize,
                    cap: N,
                },
            )
        } else if v.as_nat() < MIN || v.as_nat() > MAX {
            Some(BitNumberError::OutOfRange { value: v, min: MIN, max: MAX })
        } else if N > 128 {
            Some(BitNumberError::BitStoreError { source: crate::bitstore::Error::TooLarge })
        } else {
            None
        }
    }

    /// Constructs a new Number.
    pub fn new<U: Unsigned>(v: U) -> (r: Result<Self, BitNumberError<U>>)
        ensures
            Self::set_error(v) is None ==> (r matches Ok(n) && n.value() == v.as_nat()),
            Self::set_error(v) matches Some(e) ==> r == Err::<Self, BitNumberError<U>>(e),
    {
        let mut this = Self::zero();
        match this.set_number(v) {
            Ok(_) => Ok(this),
            Err(e) => Err(e),
        }
    }

    /// Returns the value of the Number, or zero where it does not fit into `U`.
    pub fn number<U: Unsigned>(&self) -> (r: U)
        ensures
            r.as_nat() == if self.value() <= U::max_nat() {
                self.value()
            } else {
                0
            },
    {
        proof {
            use_type_invariant(self);
            self.lemma_inv_value();
        }
        self.data.number()
    }

    /// Set the inner value to `v`; on success the number itself is handed
    /// back, for chaining.
    pub fn set_number<U: Unsigned>(&mut self, v: U) -> (r: Result<&mut Self, BitNumberError<U>>)
        ensures
            Self::set_error(v) is None ==> (r matches Ok(s) && s.value() == v.as_nat()
                && *final(self) == *final(s)),
            Self::set_error(v) matches Some(e) ==> r == Err::<&mut Self, BitNumberError<U>>(e)
                && final(self).value() == old(self).value(),
    {
        proof {
            use_type_invariant(&*self);
            self.lemma_inv_value();
        }
        let len = num_bits(v);
        // ensure v fits
        if len > N {
            return Err(BitNumberError::InvalidCapacity { value: v, needs: len, cap: N });
        }
        let x = v.as_u128();
        if x < MIN || x > MAX {
            return Err(BitNumberError::OutOfRange { value: v, min: MIN, max: MAX });
        }
        if N > 128 {
            return Err(BitNumberError::BitStoreError { source: crate::bitstore::Error::TooLarge });
        }
        let mut data: BitStore<N, N> = BitStore::new();
        proof {
            crate::bits::lemma_bits_of_zero_bytes(bytes_for(N as nat));
            assert(bits_of(data.data()).skip(N as int) =~= zeros(
                (8 * bytes_for(N as nat) - N) as nat,
            ));
        }
        std::mem::swap(&mut data, &mut self.data);
        let r = match data.set_number(v, Some(N)) {
            Ok(_) => Ok(()),
            Err(e) => Err(e),
        };
        proof {
            crate::bitstore::lemma_bit_len(x as nat, N as nat);
            crate::bits::lemma_to_bits_len(x as nat, N as nat);
            let d = data.data();
            assert(bits_of(d).skip(N as int) =~= zeros((8 * bytes_for(N as nat) - N) as nat));
        }
        std::mem::swap(&mut data, &mut self.data);
        proof {
            self.lemma_inv_value();
        }
        match r {
            Ok(()) => Ok(self),
            Err(e) => Err(BitNumberError::BitStoreError { source: e }),
        }
    }
}

impl<const N: usize, const MIN: u128, const MAX: u128> Clone for BitNumber<N, MIN, MAX> {
    fn clone(&self) -> (r: Self)
        ensures
            r.value() == self.value(),
    {
        proof {
            use_type_invariant(self);
        }
        BitNumber { data: self.data.clone() }
    }
}

impl<const N: usize, const MIN: u128, const MAX: u128> Default for BitNumber<N, MIN, MAX> {
    fn default() -> (r: Self)
        ensures
            r.value() == 0,
    {
        Self::zero()
    }
}

impl<const N: usize, const MIN: u128, const MAX: u128> VarInt for BitNumber<N, MIN, MAX> {
    type Error = BitNumberError<u128>;

    open spec fn measurable(&self) -> bool {
        true
    }

    open spec fn encodable(&self, length: Option<usize>) -> bool {
        true
    }

    fn decode<R: Reader>(reader: &mut R, _length: Option<usize>) -> (r: Result<
        (Self, usize),
        BitNumberError<u128>,
    >)
        ensures
            ({
                let u = old(reader).unread();
                let v = value_of(u.take(N as int));
                let fits = v <= u128::MAX;
                let in_range = if fits {
                    MIN <= v <= MAX
                } else {
                    MIN == 0
                };
                &&& N <= u.len() && in_range ==> (r matches Ok((n, bits)) && bits == N && n.value()
                    == v && final(reader).unread() == u.skip(N as int))
                &&& N > u.len() ==> r == Err::<(Self, usize), BitNumberError<u128>>(
                    BitNumberError::ReaderError { source: R::read_bits_error(u, N) },
                )
                &&& N <= u.len() && !in_range ==> r == Err::<(Self, usize), BitNumberError<u128>>(
                    BitNumberError::OutOfRange {
                        value: if fits {
                            v as u128
                        } else {
                            0
                        },
                        min: MIN,
                        max: MAX,
                    },
                )
            }),
    {
        let ghost u = reader.unread();
        let buf = match reader.read_bits(N) {
            Ok(b) => b,
            Err(e) => return Err(BitNumberError::ReaderError { source: e }),
        };
        let raw = bytes_to_vec(&buf);
        proof {
            lemma_read_bits_result(u, N as nat);
            assert(bits_of(raw@).len() == 8 * raw@.len());
        }
        // the bits come right-aligned: lay them out from the most significant end
        let bytes = left_align(raw.as_slice(), N);
        let mut data: BitStore<N, N> = BitStore::new();
        let _ = data.set_bits(&bytes, N);
        proof {
            assert(bits_of(bytes@).len() == 8 * bytes@.len());
            assert(bits_of(bytes@).skip(N as int) =~= zeros((8 * bytes_for(N as nat) - N) as nat));
        }
        let this = BitNumber { data };
        proof {
            this.lemma_inv_value();
            assert(this.bits_view() =~= u.take(N as int));
        }
        let num: u128 = this.number();
        if num < MIN || num > MAX {
            return Err(BitNumberError::OutOfRange { value: num, min: MIN, max: MAX });
        }
        Ok((this, N))
    }

    fn encode<W: Writer>(&self, writer: &mut W, _length: Option<usize>) -> (r: Result<
        usize,
        BitNumberError<u128>,
    >)
        ensures
            r == Ok::<usize, BitNumberError<u128>>(N),
            final(writer).written() == old(writer).written() + self.bits_view(),
            self.bits_view().len() == N,
            self.bits_view() == to_bits(self.value(), N as nat),
            self.value() < exp2(N as nat),
    {
        proof {
            use_type_invariant(self);
            self.lemma_inv_value();
            lemma_value_bound(self.bits_view());
            lemma_to_bits(self.value(), N as nat);
            lemma_value_injective(self.bits_view(), to_bits(self.value(), N as nat));
        }
        let buf = self.data.bits();
        let bytes = bytes_to_vec(&buf);
        writer.write_bits(N, bytes.as_slice());
        proof {
            assert(bits_of(bytes@).take(N as int) =~= self.bits_view());
        }
        Ok(N)
    }

    fn len_bits(&self) -> (r: Result<usize, BitNumberError<u128>>)
        ensures
            r == Ok::<usize, BitNumberError<u128>>(N),
    {
        Ok(N)
    }

    fn length_required() -> (r: bool)
        ensures
            !r,
    {
        // length is provided by the generic bound N
        false
    }
}

} // verus!
