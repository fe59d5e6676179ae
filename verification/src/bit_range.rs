//! A number or bit string of a bounded number of bits, `x (A..B)` in the QUIC RFC.
use crate::bits::{bits_of, bytes_for, lemma_padded_prefix, padded_bits, to_bits, value_of, zeros};
use crate::bitstore::{bit_len, num_bits, BitStore};
use crate::buffers::{bytes_to_vec, bytes_view};
use crate::reader::{left_align, lemma_read_bits_result, Reader, ReaderError};
use crate::unsigned::Unsigned;
use crate::writer::Writer;
use crate::VarInt;
use bytes::Bytes;
use vstd::prelude::*;
use vstd::std_specs::cmp::PartialEqSpecImpl;
use vstd::string::StringSliceAdditionalSpecFns;
use vstd::utf8::encode_utf8;

verus! {

/// No upper bound on the number of bits.
pub const UNBOUNDED: usize = usize::MAX;

/// Error of a [BitRange] operation.
#[derive(Debug, PartialEq, Clone)]
pub enum BitRangeError {
    /// Decoding Error
    Reader { source: ReaderError },
    /// number needs more bits than available
    InvalidCapacity { value: u128, needs: usize, cap: usize },
    /// decoding a [BitRange] requires a specified length in bits,
    /// usually provided by a preceding number specifying the
    /// length
    MissingLength,
    /// given decode length doesn't fit into the defined BitRange
    InvalidLength { got: usize, min: usize, max: usize },
    /// Internal Error
    BitStore { source: crate::bitstore::Error },
}

/// This type represents the type `x (A..B)`
/// in the QUIC RFC.
///
/// It is a Number that has a binary
/// representation with a number of
/// bits between `A` and `B`.
///
/// `BitRange<0, UNBOUNDED>` opens both range limits.
#[derive(Debug, PartialEq, Eq, PartialOrd, Ord)]
pub struct BitRange<const MIN: usize, const MAX: usize> {
    data: BitStore<MIN, MAX>,
}

impl<const MIN: usize, const MAX: usize> BitRange<MIN, MAX> {
    /// The stored bytes.
    pub closed spec fn stored(&self) -> Seq<u8> {
        self.data.data()
    }

    /// The number of stored bits.
    pub closed spec fn bit_count(&self) -> nat {
        self.data.len()
    }

    /// The stored bits; bits past the stored bytes read as zero.
    pub open spec fn bits_view(&self) -> Seq<bool> {
        padded_bits(self.stored(), self.bit_count())
    }

    /// The stored number.
    pub open spec fn value(&self) -> nat {
        value_of(self.bits_view())
    }

    /// The bit count [set_number](Self::set_number) asks for before applying `MIN`.
    pub open spec fn requested_len(v: nat, n: Option<usize>) -> nat {
        match n {
            Some(bits) => if bits < MIN {
                MIN as nat
            } else {
                bits as nat
            },
            None => bit_len(v),
        }
    }

    /// The outcome of [set_number](Self::set_number) for `v` and `n`:
    /// the error, if any.
    pub open spec fn set_number_error(v: nat, n: Option<usize>) -> Option<BitRangeError> {
        let len = Self::requested_len(v, n);
        let len1 = if len < MIN {
            MIN as nat
        } else {
            len
        };
        if len > MAX {
            Some(BitRangeError::InvalidCapacity { value: v as u128, needs: len as usize, cap: MAX })
        } else if bit_len(v) > len1 {
            Some(
                BitRangeError::BitStore {
                    source: crate::bitstore::Error::InvalidFit {
                        num: v as u128,
                        needs: bit_len(v) as usize,
                        expected: len1 as usize,
                    },
                },
            )
        } else if len1 > MAX {
            Some(
                BitRangeError::BitStore {
                    source: crate::bitstore::Error::InvalidLength {
                        source: BitStore::<MIN, MAX>::length_error(len1 as usize),
                    },
                },
            )
        } else if len1 > 128 {
            Some(BitRangeError::BitStore { source: crate::bitstore::Error::TooLarge })
        } else {
            None
        }
    }

    /// The number of bits [set_number](Self::set_number) stores `v` in.
    pub open spec fn set_len(v: nat, n: Option<usize>) -> nat {
        let len = Self::requested_len(v, n);
        if len < MIN {
            MIN as nat
        } else {
            len
        }
    }

    /// An empty range.
    pub fn empty() -> (r: Self)
        ensures
            r.bit_count() == 0,
            r.value() == 0,
            r.stored() == Seq::new(bytes_for(MIN as nat), |i: int| 0u8),
    {
        BitRange { data: BitStore::new() }
    }

    /// Constructs a range holding the number `v` in `n` bits, or in as many
    /// bits as it needs; never fewer than `MIN`.
    pub fn new_number<U: Unsigned>(v: U, n: Option<usize>) -> (r: Result<Self, BitRangeError>)
        ensures
            Self::set_number_error(v.as_nat(), n) matches Some(e) ==> r == Err::<Self, BitRangeError>(e),
            Self::set_number_error(v.as_nat(), n) is None ==> (r matches Ok(b) && b.value() == v.as_nat()
                && b.bit_count() == Self::set_len(v.as_nat(), n) && bits_of(b.stored()) == to_bits(
                v.as_nat(),
                b.bit_count(),
            ) + zeros((8 * bytes_for(b.bit_count()) - b.bit_count()) as nat)),
    {
        let mut this = Self::empty();
        match this.set_number(v, n) {
            Ok(_) => Ok(this),
            Err(e) => Err(e),
        }
    }

    /// Returns the value of the Number, or zero where it does not fit into `U`.
    pub fn number<U: Unsigned>(&self) -> (r: U)
        ensures
            r.as_nat() == if self.value() <= U::max_nat() {
                self.value()
            } else {
                0
            },
    {
        self.data.number()
    }

    /// Set the inner value to `v`; on success the range itself is handed
    /// back, for chaining.
    pub fn set_number<U: Unsigned>(&mut self, v: U, n: Option<usize>) -> (r: Result<&mut Self, BitRangeError>)
        ensures
            Self::set_number_error(v.as_nat(), n) matches Some(e) ==> r == Err::<&mut Self, BitRangeError>(e)
                && final(self).stored() == old(self).stored(),
            Self::set_number_error(v.as_nat(), n) matches Some(e) ==> final(self).bit_count() == if e
                == (BitRangeError::BitStore { source: crate::bitstore::Error::TooLarge }) {
                Self::set_len(v.as_nat(), n)
            } else {
                old(self).bit_count()
            },
            Self::set_number_error(v.as_nat(), n) is None ==> (r matches Ok(s) && s.value()
                == v.as_nat() && s.bit_count() == Self::set_len(v.as_nat(), n) && bits_of(
                s.stored(),
            ) == to_bits(v.as_nat(), s.bit_count()) + zeros(
                (8 * bytes_for(s.bit_count()) - s.bit_count()) as nat,
            ) && *final(self) == *final(s)),
    {
        let num_bits = num_bits(v);
        let len = match n {
            Some(bits) => {
                if bits < MIN {
                    MIN
                } else {
                    bits
                }
            },
            None => num_bits,
        };
        // ensure v fits
        if len > MAX {
            return Err(BitRangeError::InvalidCapacity { value: v.as_u128(), needs: len, cap: MAX });
        }
        let len = if len < MIN {
            MIN
        } else {
            len
        };
        match self.data.set_number(v, Some(len)) {
            Ok(_) => Ok(self),
            Err(e) => Err(BitRangeError::BitStore { source: e }),
        }
    }

    /// The bit count [set_bytes](Self::set_bytes) stores.
    pub open spec fn bytes_len(buf: Seq<u8>, n: Option<usize>) -> nat {
        match n {
            Some(n) => n as nat,
            None => 8 * buf.len(),
        }
    }

    /// Constructs a range of the first `n` bits of `buf`, or of all of its bits.
    pub fn new_bytes(buf: &[u8], n: Option<usize>) -> (r: Result<Self, BitRangeError>)
        requires
            n is None ==> 8 * buf@.len() <= usize::MAX,
        ensures
            ({
                let len = Self::bytes_len(buf@, n);
                if MIN <= len && len <= MAX {
                    r matches Ok(b) && b.stored() == buf@ && b.bit_count() == len
                } else {
                    r == Err::<Self, BitRangeError>(
                        BitRangeError::BitStore {
                            source: crate::bitstore::Error::InvalidLength {
                                source: BitStore::<MIN, MAX>::length_error(len as usize),
                            },
                        },
                    )
                }
            }),
    {
        let mut this = Self::empty();
        match this.set_bytes(buf, n) {
            Ok(_) => Ok(this),
            Err(e) => Err(e),
        }
    }

    /// Returns the stored bytes.
    pub fn bytes(&self) -> (r: Bytes)
        ensures
            bytes_view(r) == self.stored(),
    {
        self.data.bits()
    }

    /// Stores the first `n` bits of `buf`, or all of its bits; on success
    /// the range itself is handed back, for chaining.
    pub fn set_bytes(&mut self, buf: &[u8], n: Option<usize>) -> (r: Result<&mut Self, BitRangeError>)
        requires
            n is None ==> 8 * buf@.len() <= usize::MAX,
        ensures
            ({
                let len = Self::bytes_len(buf@, n);
                if MIN <= len && len <= MAX {
                    &&& r matches Ok(s)
                    &&& s.stored() == buf@
                    &&& s.bit_count() == len
                    &&& *final(self) == *final(s)
                } else {
                    &&& r == Err::<&mut Self, BitRangeError>(
                        BitRangeError::BitStore {
                            source: crate::bitstore::Error::InvalidLength {
                                source: BitStore::<MIN, MAX>::length_error(len as usize),
                            },
                        },
                    )
                    &&& final(self).stored() == old(self).stored()
                    &&& final(self).bit_count() == old(self).bit_count()
                }
            }),
    {
        let n = match n {
            Some(n) => n,
            None => buf.len() * 8,
        };
        match self.data.set_bits(buf, n) {
            Ok(_) => Ok(self),
            Err(e) => Err(BitRangeError::BitStore { source: e }),
        }
    }
}

impl<const MIN: usize, const MAX: usize> Clone for BitRange<MIN, MAX> {
    fn clone(&self) -> (r: Self)
        ensures
            r.stored() == self.stored(),
            r.bit_count() == self.bit_count(),
    {
        BitRange { data: self.data.clone() }
    }
}

impl<const MIN: usize, const MAX: usize> Default for BitRange<MIN, MAX> {
    fn default() -> (r: Self)
        ensures
            r.bit_count() == 0,
            r.value() == 0,
    {
        Self::empty()
    }
}

impl<const MIN: usize, const MAX: usize> VarInt for BitRange<MIN, MAX> {
    type Error = BitRangeError;

    /// The stored bytes must hold the bits to encode.
    open spec fn measurable(&self) -> bool {
        true
    }

    open spec fn encodable(&self, length: Option<usize>) -> bool {
        match length {
            Some(l) => bytes_for(l as nat) <= self.stored().len(),
            None => true,
        }
    }

    fn decode<R: Reader>(reader: &mut R, length: Option<usize>) -> (r: Result<
        (Self, usize),
        BitRangeError,
    >)
        ensures
            ({
                let u = old(reader).unread();
                match length {
                    None => r == Err::<(Self, usize), BitRangeError>(BitRangeError::MissingLength),
                    Some(l) => if l < MIN || l > MAX {
                        r == Err::<(Self, usize), BitRangeError>(
                            BitRangeError::InvalidLength { got: l, min: MIN, max: MAX },
                        )
                    } else if l > u.len() {
                        r == Err::<(Self, usize), BitRangeError>(
                            BitRangeError::Reader { source: R::read_bits_error(u, l) },
                        )
                    } else {
                        &&& r matches Ok((b, bits))
                        &&& bits == l
                        &&& b.bit_count() == l
                        &&& b.bits_view() == u.take(l as int)
                        &&& bits_of(b.stored()) == u.take(l as int) + zeros(
                            (8 * bytes_for(l as nat) - l) as nat,
                        )
                        &&& final(reader).unread() == u.skip(l as int)
                    },
                }
            }),
    {
        let length = match length {
            Some(l) => l,
            None => return Err(BitRangeError::MissingLength),
        };
        if length < MIN || length > MAX {
            return Err(BitRangeError::InvalidLength { got: length, min: MIN, max: MAX });
        }
        let ghost u = reader.unread();
        let buf = match reader.read_bits(length) {
            Ok(b) => b,
            Err(e) => return Err(BitRangeError::Reader { source: e }),
        };
        let raw = bytes_to_vec(&buf);
        proof {
            lemma_read_bits_result(u, length as nat);
            assert(bits_of(raw@).len() == 8 * raw@.len());
        }
        // the bits come right-aligned: lay them out from the most significant end
        let bytes = left_align(raw.as_slice(), length);
        let mut this = Self::empty();
        let _ = this.set_bytes(bytes.as_slice(), Some(length));
        proof {
            assert(bits_of(bytes@).len() == 8 * bytes@.len());
            lemma_padded_prefix(bytes@, length as nat);
            assert(bits_of(bytes@).take(length as int) =~= u.take(length as int));
        }
        Ok((this, length))
    }

    fn encode<W: Writer>(&self, writer: &mut W, length: Option<usize>) -> (r: Result<
        usize,
        BitRangeError,
    >)
        ensures
            match length {
                None => {
                    &&& r == Err::<usize, BitRangeError>(BitRangeError::MissingLength)
                    &&& final(writer).written() == old(writer).written()
                },
                Some(l) => {
                    &&& r == Ok::<usize, BitRangeError>(l)
                    &&& final(writer).written() == old(writer).written() + bits_of(
                        self.stored(),
                    ).take(l as int)
                },
            },
    {
        let length = match length {
            Some(l) => l,
            None => return Err(BitRangeError::MissingLength),
        };
        let bits = self.data.bits();
        let bytes = bytes_to_vec(&bits);
        writer.write_bits(length, bytes.as_slice());
        Ok(length)
    }

    fn len_bits(&self) -> (r: Result<usize, BitRangeError>)
        ensures
            r matches Ok(n) && n == self.bit_count(),
    {
        Ok(self.data.len_bits())
    }

    fn length_required() -> (r: bool)
        ensures
            r,
    {
        // length is variable and needs to be provided
        true
    }
}

impl<'a> From<&'a [u8]> for BitRange<0, UNBOUNDED> {
    /// All bits of `value`.
    fn from(value: &'a [u8]) -> (r: Self)
        ensures
            8 * value@.len() <= usize::MAX ==> r.stored() == value@ && r.bit_count() == 8
                * value@.len(),
    {
        let n = value.len();
        if n > usize::MAX / 8 {
            return Self::empty();
        }
        match Self::new_bytes(value, Some(n * 8)) {
            Ok(r) => r,
            Err(_) => Self::empty(),
        }
    }
}

/// The buffer a conversion produces is a fresh one, so what `from` gives is
/// stated by the `ensures` of the impl itself rather than as a spec value.
impl<'a> vstd::std_specs::convert::FromSpecImpl<&'a [u8]> for BitRange<0, UNBOUNDED> {
    open spec fn obeys_from_spec() -> bool {
        false
    }

    open spec fn from_spec(v: &'a [u8]) -> Self {
        arbitrary()
    }
}

impl<'a> From<&'a str> for BitRange<0, UNBOUNDED> {
    /// All bits of the UTF-8 bytes of `value`.
    fn from(value: &'a str) -> (r: Self)
        ensures
            8 * value.spec_bytes().len() <= usize::MAX ==> r.stored() == value.spec_bytes()
                && r.bit_count() == 8 * value.spec_bytes().len(),
    {
        Self::from(value.as_bytes())
    }
}

/// See the conversion from a byte slice.
impl<'a> vstd::std_specs::convert::FromSpecImpl<&'a str> for BitRange<0, UNBOUNDED> {
    open spec fn obeys_from_spec() -> bool {
        false
    }

    open spec fn from_spec(v: &'a str) -> Self {
        arbitrary()
    }
}

impl From<String> for BitRange<0, UNBOUNDED> {
    /// All bits of the UTF-8 bytes of `value`.
    fn from(value: String) -> (r: Self)
        ensures
            8 * encode_utf8(value@).len() <= usize::MAX ==> r.stored() == encode_utf8(value@)
                && r.bit_count() == 8 * encode_utf8(value@).len(),
    {
        Self::from(value.as_str().as_bytes())
    }
}

/// See the conversion from a byte slice.
impl vstd::std_specs::convert::FromSpecImpl<String> for BitRange<0, UNBOUNDED> {
    open spec fn obeys_from_spec() -> bool {
        false
    }

    open spec fn from_spec(v: String) -> Self {
        arbitrary()
    }
}

/// Whether `a` and `b` hold the same bytes.
pub(crate) fn same_bytes(a: &[u8], b: &[u8]) -> (r: bool)
    ensures
        r == (a@ == b@),
{
    if a.len() != b.len() {
        return false;
    }
    let mut i: usize = 0;
    while i < a.len()
        invariant
            i <= a@.len(),
            a@.len() == b@.len(),
            forall|j: int| 0 <= j < i ==> a@[j] == b@[j],
        decreases a@.len() - i,
    {
        if a[i] != b[i] {
            return false;
        }
        i = i + 1;
    }
    proof {
        assert(a@ =~= b@);
    }
    true
}

impl<'a> PartialEq<&'a [u8]> for BitRange<0, UNBOUNDED> {
    fn eq(&self, other: &&'a [u8]) -> (r: bool) {
        let v = bytes_to_vec(&self.bytes());
        same_bytes(v.as_slice(), *other)
    }
}

impl<'a> PartialEqSpecImpl<&'a [u8]> for BitRange<0, UNBOUNDED> {
    open spec fn obeys_eq_spec() -> bool {
        true
    }

    open spec fn eq_spec(&self, other: &&'a [u8]) -> bool {
        self.stored() == other@
    }
}

impl<'a> PartialEq<&'a str> for BitRange<0, UNBOUNDED> {
    fn eq(&self, other: &&'a str) -> (r: bool) {
        let v = bytes_to_vec(&self.bytes());
        same_bytes(v.as_slice(), other.as_bytes())
    }
}

impl<'a> PartialEqSpecImpl<&'a str> for BitRange<0, UNBOUNDED> {
    open spec fn obeys_eq_spec() -> bool {
        true
    }

    open spec fn eq_spec(&self, other: &&'a str) -> bool {
        self.stored() == other.spec_bytes()
    }
}

impl PartialEq<String> for BitRange<0, UNBOUNDED> {
    fn eq(&self, other: &String) -> (r: bool) {
        let v = bytes_to_vec(&self.bytes());
        same_bytes(v.as_slice(), other.as_str().as_bytes())
    }
}

impl PartialEqSpecImpl<String> for BitRange<0, UNBOUNDED> {
    open spec fn obeys_eq_spec() -> bool {
        true
    }

    open spec fn eq_spec(&self, other: &String) -> bool {
        self.stored() == encode_utf8(other@)
    }
}

} // verus!
