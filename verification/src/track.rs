//! Track names and namespaces of the MOQT wire format.
use crate::binary_data::{as_count, header_len, header_value, utf8_lossy, utf8_lossy_text};
use crate::buffers::bytes_as_slice;
use crate::bit_range::{BitRange, BitRangeError, UNBOUNDED};
use crate::bits::{bits_of, bytes_for};
use crate::number::{
    decodable, lemma_varint_bits_len, number_read_error, varint_bits, Number, NumberError,
};
use crate::reader::Reader;
use crate::tuple::{parse_items, tuple_bits, tuple_read_error, Tuple, TupleError};
use crate::writer::Writer;
use crate::VarInt;
use vstd::prelude::*;
use vstd::utf8::{decode_utf8, valid_utf8};

verus! {

/// Error of encoding or decoding a track field.
#[derive(Debug, Clone, PartialEq)]
pub enum TrackError {
    /// Invalid length prefix
    Number { source: NumberError },
    /// Invalid name bytes
    BitRange { source: BitRangeError },
    /// Invalid namespace tuple
    Tuple { source: TupleError },
}

/// The bit count of a range. The range's upper bound stays a parameter here,
/// which lets the trait's specification of the range be looked up.
pub(crate) fn range_len_bits<const MAX: usize>(b: &BitRange<0, MAX>) -> (r: Result<usize, BitRangeError>)
    ensures
        r == Ok::<usize, BitRangeError>(b.bit_count() as usize),
{
    b.len_bits()
}

/// Writes the first `l` bits of a range; see [range_len_bits].
pub(crate) fn range_encode<const MAX: usize, W: Writer>(b: &BitRange<0, MAX>, writer: &mut W, l: usize) -> (r:
    Result<usize, BitRangeError>)
    requires
        bytes_for(l as nat) <= b.stored().len(),
    ensures
        r == Ok::<usize, BitRangeError>(l),
        final(writer).written() == old(writer).written() + bits_of(b.stored()).take(l as int),
{
    b.encode(writer, Some(l))
}

/// ## Track Name
///
/// On the wire: the number of bytes, then the bytes.
#[derive(Debug, PartialEq, Clone)]
pub struct Name {
    inner: BitRange<0, UNBOUNDED>,
}

/// The wire form of a name holding `bits` bits from `stored`: the number
/// of whole bytes, then the bits.
pub open spec fn name_bits(stored: Seq<u8>, bits: nat) -> Seq<bool> {
    varint_bits(bits / 8) + bits_of(stored).take(bits as int)
}

/// The error a reader `R` ends a read of the bytes that the byte count at
/// the front of `u` announces with, where they are not all there.
pub open spec fn field_read_error<R: Reader>(u: Seq<bool>) -> BitRangeError {
    let n = as_count(header_value(u));
    let l = if 8 * n <= usize::MAX {
        8 * n
    } else {
        usize::MAX as nat
    };
    BitRangeError::Reader { source: R::read_bits_error(u.skip(header_len(u) as int), l as usize) }
}

/// The error a reader `R` ends a read of a name at the front of `u` with,
/// where none is there whole: that of its length prefix, or that of the
/// bits the prefix announces.
pub open spec fn name_read_error<R: Reader>(u: Seq<bool>) -> TrackError {
    if decodable(u) {
        TrackError::BitRange { source: field_read_error::<R>(u) }
    } else {
        TrackError::Number { source: NumberError::Reader { source: number_read_error::<R>(u) } }
    }
}

impl Name {
    /// The name's bits.
    pub closed spec fn inner(&self) -> BitRange<0, UNBOUNDED> {
        self.inner
    }

    /// A name holding what the conversion of `num` into bits gives.
    pub fn new<T>(num: T) -> (r: Self) where BitRange<0, UNBOUNDED>: From<T>
        ensures
            call_ensures(BitRange::<0, UNBOUNDED>::from, (num,), r.inner()),
    {
        Self::from(num)
    }

    /// The stored bytes read as UTF-8; invalid sequences are replaced.
    pub fn string(&self) -> (r: String)
        ensures
            r@ == utf8_lossy_text(self.inner().stored()),
            valid_utf8(self.inner().stored()) ==> r@ == decode_utf8(self.inner().stored()),
    {
        let b = self.inner.bytes();
        utf8_lossy(bytes_as_slice(&b))
    }
}

impl<T> From<T> for Name where BitRange<0, UNBOUNDED>: From<T> {
    /// A name holding what the conversion of `value` into bits gives.
    fn from(value: T) -> (r: Self)
        ensures
            call_ensures(BitRange::<0, UNBOUNDED>::from, (value,), r.inner()),
    {
        Name { inner: BitRange::from(value) }
    }
}

/// What a name holds is stated by the conversion itself.
impl<T> vstd::std_specs::convert::FromSpecImpl<T> for Name where BitRange<0, UNBOUNDED>: From<T> {
    open spec fn obeys_from_spec() -> bool {
        false
    }

    open spec fn from_spec(v: T) -> Self {
        arbitrary()
    }
}

impl VarInt for Name {
    type Error = TrackError;

    /// The stored bytes hold every bit, and the bit count of the wire form
    /// fits into a `usize`.
    /// The byte count and the bits fit into a `usize`.
    open spec fn measurable(&self) -> bool {
        varint_bits(self.inner().bit_count() / 8).len() + self.inner().bit_count() <= usize::MAX
    }

    open spec fn encodable(&self, length: Option<usize>) -> bool {
        &&& bytes_for(self.inner().bit_count()) <= self.inner().stored().len()
        &&& varint_bits(self.inner().bit_count() / 8).len() + self.inner().bit_count()
            <= usize::MAX
    }

    fn decode<R: Reader>(reader: &mut R, _length: Option<usize>) -> (r: Result<
        (Self, usize),
        TrackError,
    >)
        ensures
            ({
                let u = old(reader).unread();
                let h = header_len(u);
                let n = as_count(header_value(u));
                &&& r is Ok <==> decodable(u) && h + 8 * n <= u.len()
                &&& r matches Ok((name, bits)) ==> {
                    &&& bits == h + 8 * n
                    &&& name.inner().bit_count() == 8 * n
                    &&& name.inner().bits_view() == u.subrange(h as int, bits as int)
                    &&& bits_of(name.inner().stored()) == u.subrange(h as int, bits as int)
                    &&& final(reader).unread() == u.skip(bits as int)
                }
                &&& r matches Err(e) ==> e == name_read_error::<R>(u)
            }),
    {
        let ghost u = reader.unread();
        let (len, b1) = match Number::decode(reader, None) {
            Ok(x) => x,
            Err(e) => return Err(TrackError::Number { source: e }),
        };
        let n = len.number::<usize>();
        // a byte count too large for a bit count can never be read
        let field_len = if n <= usize::MAX / 8 {
            n * 8
        } else {
            usize::MAX
        };
        let (inner, b2) = match BitRange::<0, UNBOUNDED>::decode(reader, Some(field_len)) {
            Ok(x) => x,
            Err(e) => return Err(TrackError::BitRange { source: e }),
        };
        proof {
            assert(u.skip(b1 as int).take(b2 as int) =~= u.subrange(b1 as int, b1 + b2));
            assert(u.skip(b1 as int).skip(b2 as int) =~= u.skip(b1 + b2));
        }
        Ok((Name { inner }, b1 + b2))
    }

    fn encode<W: Writer>(&self, writer: &mut W, _length: Option<usize>) -> (r: Result<
        usize,
        TrackError,
    >)
        ensures
            ({
                let w = old(writer).written();
                let wire = name_bits(self.inner().stored(), self.inner().bit_count());
                &&& r is Ok <==> w.len() % 8 == 0
                &&& r matches Ok(n) ==> n == wire.len() && final(writer).written() == w + wire
                &&& r matches Err(e) ==> {
                    &&& e == TrackError::Number {
                        source: NumberError::Writer { source: W::write_bytes_error(w) },
                    }
                    &&& final(writer).written() == w
                }
            }),
    {
        let field_len = match range_len_bits(&self.inner) {
            Ok(l) => l,
            Err(e) => return Err(TrackError::BitRange { source: e }),
        };
        proof {
            lemma_varint_bits_len(field_len as nat / 8);
            assert(bits_of(self.inner().stored()).len() == 8 * self.inner().stored().len());
        }
        let field_length = match Number::try_new(field_len / 8) {
            Ok(n) => n,
            Err(e) => return Err(TrackError::Number { source: e }),
        };
        let b1 = match field_length.encode(writer, None) {
            Ok(b) => b,
            Err(e) => return Err(TrackError::Number { source: e }),
        };
        let b2 = match range_encode(&self.inner, writer, field_len) {
            Ok(b) => b,
            Err(e) => return Err(TrackError::BitRange { source: e }),
        };
        proof {
            assert(old(writer).written() + varint_bits(field_len as nat / 8) + bits_of(
                self.inner().stored(),
            ).take(field_len as int) =~= old(writer).written() + name_bits(
                self.inner().stored(),
                self.inner().bit_count(),
            ));
        }
        Ok(b1 + b2)
    }

    fn len_bits(&self) -> (r: Result<usize, TrackError>)
        ensures
            r == Ok::<usize, TrackError>(
                (varint_bits(self.inner().bit_count() / 8).len() + self.inner().bit_count()) as usize,
            ),
    {
        let field_len = match range_len_bits(&self.inner) {
            Ok(l) => l,
            Err(e) => return Err(TrackError::BitRange { source: e }),
        };
        proof {
            lemma_varint_bits_len(field_len as nat / 8);
        }
        let field_length = match Number::try_new(field_len / 8) {
            Ok(n) => n,
            Err(e) => return Err(TrackError::Number { source: e }),
        };
        let lb = match field_length.len_bits() {
            Ok(b) => b,
            Err(e) => return Err(TrackError::Number { source: e }),
        };
        Ok(lb + field_len)
    }

    fn length_required() -> (r: bool)
        ensures
            !r,
    {
        false
    }
}

/// ## Track Namespace
///
/// On the wire: a [Tuple].
#[derive(Debug, PartialEq, Clone)]
pub struct Namespace {
    inner: Tuple,
}

impl Namespace {
    /// The namespace's tuple.
    pub closed spec fn inner(&self) -> Tuple {
        self.inner
    }

    /// A namespace holding what the conversion of `tup` into a tuple gives.
    pub fn new<T>(tup: T) -> (r: Self) where Tuple: From<T>
        ensures
            call_ensures(Tuple::from, (tup,), r.inner()),
    {
        Self::from(tup)
    }
}

impl<T> From<T> for Namespace where Tuple: From<T> {
    /// A namespace holding what the conversion of `value` into a tuple gives.
    fn from(value: T) -> (r: Self)
        ensures
            call_ensures(Tuple::from, (value,), r.inner()),
    {
        Namespace { inner: Tuple::from(value) }
    }
}

/// What a namespace holds is stated by the conversion itself.
impl<T> vstd::std_specs::convert::FromSpecImpl<T> for Namespace where Tuple: From<T> {
    open spec fn obeys_from_spec() -> bool {
        false
    }

    open spec fn from_spec(v: T) -> Self {
        arbitrary()
    }
}

impl VarInt for Namespace {
    type Error = TrackError;

    /// The bit count of the wire form must fit into a `usize`.
    open spec fn measurable(&self) -> bool {
        tuple_bits(self.inner()@).len() <= usize::MAX
    }

    open spec fn encodable(&self, length: Option<usize>) -> bool {
        tuple_bits(self.inner()@).len() <= usize::MAX
    }

    fn decode<R: Reader>(reader: &mut R, _length: Option<usize>) -> (r: Result<
        (Self, usize),
        TrackError,
    >)
        ensures
            ({
                let u = old(reader).unread();
                let h = header_len(u);
                let items = parse_items(u.skip(h as int), as_count(header_value(u)));
                &&& r is Ok <==> decodable(u) && items is Some
                &&& r matches Ok((ns, bits)) ==> {
                    &&& items matches Some((ps, l))
                    &&& bits == h + l
                    &&& ns.inner()@.len() == ps.len()
                    &&& forall|i: int|
                        0 <= i < ps.len() ==> bits_of(#[trigger] ns.inner()@[i]) == ps[i]
                    &&& final(reader).unread() == u.skip(bits as int)
                }
                &&& r matches Err(e) ==> e == TrackError::Tuple { source: tuple_read_error::<R>(u) }
            }),
    {
        match Tuple::decode(reader, None) {
            Ok((inner, bits)) => Ok((Namespace { inner }, bits)),
            Err(e) => Err(TrackError::Tuple { source: e }),
        }
    }

    fn encode<W: Writer>(&self, writer: &mut W, _length: Option<usize>) -> (r: Result<
        usize,
        TrackError,
    >)
        ensures
            ({
                let w = old(writer).written();
                &&& r is Ok <==> w.len() % 8 == 0
                &&& r matches Ok(n) ==> {
                    &&& n == tuple_bits(self.inner()@).len()
                    &&& final(writer).written() == w + tuple_bits(self.inner()@)
                }
                &&& r matches Err(e) ==> {
                    &&& e == TrackError::Tuple {
                        source: TupleError::Number {
                            source: NumberError::Writer { source: W::write_bytes_error(w) },
                        },
                    }
                    &&& final(writer).written() == w
                }
            }),
    {
        match self.inner.encode(writer, None) {
            Ok(b) => Ok(b),
            Err(e) => Err(TrackError::Tuple { source: e }),
        }
    }

    fn len_bits(&self) -> (r: Result<usize, TrackError>)
        ensures
            r == Ok::<usize, TrackError>(tuple_bits(self.inner()@).len() as usize),
    {
        match self.inner.len_bits() {
            Ok(b) => Ok(b),
            Err(e) => Err(TrackError::Tuple { source: e }),
        }
    }

    fn length_required() -> (r: bool)
        ensures
            !r,
    {
        false
    }
}

} // verus!
