//! Lists of byte strings with a count prefix, `x(tuple)` in the MOQT wire format.
use crate::binary_data::{
    as_count, binary_bits, binary_read_error, utf8_lossy_text, header_len, header_value, parse_binary, BinaryData, BinaryDataError,
};
use crate::bits::bits_of;
use crate::buffers::bytes_view;
use crate::number::{
    decodable, lemma_varint_bits_len, number_read_error, varint_bits, Number, NumberError,
};
use crate::reader::{Reader, ReaderError};
use crate::writer::{Writer, WriterError};
use crate::VarInt;
use bytes::Bytes;
use vstd::prelude::*;
use vstd::string::StringSliceAdditionalSpecFns;
use vstd::utf8::{decode_utf8, valid_utf8};

verus! {

/// Error of a [Tuple] operation.
#[derive(Debug, Clone, PartialEq)]
pub enum TupleError {
    /// Decoding Error
    Reader { source: ReaderError },
    /// Encoding Error
    Writer { source: WriterError },
    /// Invalid Length Encoding/Decoding
    Number { source: NumberError },
    /// Invalid BinaryData Encoding/Decoding
    BinaryData { source: BinaryDataError },
}

/// The wire forms of the byte strings `items`, one after the other.
pub open spec fn items_bits(items: Seq<Seq<u8>>) -> Seq<bool>
    decreases items.len(),
{
    if items.len() == 0 {
        Seq::empty()
    } else {
        items_bits(items.drop_last()) + binary_bits(items.last())
    }
}

/// The wire form of a tuple of the byte strings `items`: their count as a
/// number, then each of them.
pub open spec fn tuple_bits(items: Seq<Seq<u8>>) -> Seq<bool> {
    varint_bits(items.len()) + items_bits(items)
}

/// The `c` byte strings at the front of `u`, if they are there: their
/// payload bits and the number of bits they take.
pub open spec fn parse_items(u: Seq<bool>, c: nat) -> Option<(Seq<Seq<bool>>, nat)>
    decreases c,
{
    if c == 0 {
        Some((Seq::empty(), 0))
    } else {
        match parse_items(u, (c - 1) as nat) {
            None => None,
            Some((ps, l)) => match parse_binary(u.skip(l as int)) {
                None => None,
                Some((p, m)) => Some((ps.push(p), l + m)),
            },
        }
    }
}

/// The error a reader `R` ends a read of `c` byte strings at the front of
/// `u` with, where they are not all there: that of the first one missing.
pub open spec fn items_read_error<R: Reader>(u: Seq<bool>, c: nat) -> BinaryDataError
    decreases c,
{
    if c == 0 {
        arbitrary()
    } else {
        match parse_items(u, (c - 1) as nat) {
            None => items_read_error::<R>(u, (c - 1) as nat),
            Some((_, l)) => binary_read_error::<R>(u.skip(l as int)),
        }
    }
}

/// The error a reader `R` ends a read of a tuple at the front of `u` with,
/// where none is there whole: that of its count prefix, or that of the
/// first byte string missing.
pub open spec fn tuple_read_error<R: Reader>(u: Seq<bool>) -> TupleError {
    if decodable(u) {
        TupleError::BinaryData {
            source: items_read_error::<R>(
                u.skip(header_len(u) as int),
                as_count(header_value(u)),
            ),
        }
    } else {
        TupleError::Number { source: NumberError::Reader { source: number_read_error::<R>(u) } }
    }
}

/// Where the `k`-th byte string is the first one missing, a read of any
/// longer list ends with its error.
pub proof fn lemma_items_read_error<R: Reader>(u: Seq<bool>, k: nat, c: nat)
    requires
        k < c,
        parse_items(u, k) is Some,
        parse_items(u, k + 1) is None,
    ensures
        parse_items(u, k) matches Some((_, l)) && items_read_error::<R>(u, c)
            == binary_read_error::<R>(u.skip(l as int)),
    decreases c,
{
    if c > k + 1 {
        lemma_parse_items_none(u, k + 1, (c - 1) as nat);
        lemma_items_read_error::<R>(u, k, (c - 1) as nat);
    }
}

/// Once the byte strings at the front of `u` run out, no longer list of them is there.
pub proof fn lemma_parse_items_none(u: Seq<bool>, k: nat, c: nat)
    requires
        k <= c,
        parse_items(u, k) is None,
    ensures
        parse_items(u, c) is None,
    decreases c,
{
    if c > k {
        lemma_parse_items_none(u, k, (c - 1) as nat);
    }
}

/// Parsed byte strings stay within what they were parsed from.
pub proof fn lemma_parse_items_len(u: Seq<bool>, c: nat)
    requires
        parse_items(u, c) is Some,
    ensures
        parse_items(u, c) matches Some((ps, l)) && ps.len() == c && l <= u.len(),
    decreases c,
{
    if c > 0 {
        lemma_parse_items_len(u, (c - 1) as nat);
    }
}

/// The wire form of a list grows by the wire form of the byte string added.
pub proof fn lemma_items_bits_take(items: Seq<Seq<u8>>, i: int)
    requires
        0 <= i < items.len(),
    ensures
        items_bits(items.take(i + 1)) == items_bits(items.take(i)) + binary_bits(items[i]),
{
    assert(items.take(i + 1).drop_last() =~= items.take(i));
}

/// Each byte string takes at least eight bits; a prefix of the list takes
/// no more than the list.
pub proof fn lemma_items_bits_len(items: Seq<Seq<u8>>, i: int)
    requires
        0 <= i <= items.len(),
    ensures
        items_bits(items.take(i)).len() <= items_bits(items).len(),
        items_bits(items).len() >= 8 * items.len(),
    decreases items.len(),
{
    if items.len() > 0 {
        let d = items.drop_last();
        lemma_varint_bits_len(items.last().len());
        if i == items.len() {
            assert(items.take(i) =~= items);
            lemma_items_bits_len(d, 0);
        } else {
            assert(items.take(i) =~= d.take(i));
            lemma_items_bits_len(d, i);
        }
    } else {
        assert(items.take(i) =~= items);
    }
}

/// A Tuple or x(tuple) is a list
/// of [BinaryData].
///
/// It starts with a [VarInt](crate::Number) signaling
/// the number of [BinaryData] elements, followed by
/// that many [BinaryData].
#[derive(Debug, Clone, PartialEq, Eq, PartialOrd, Ord, Hash)]
pub struct Tuple {
    data: Vec<BinaryData>,
}

impl View for Tuple {
    type V = Seq<Seq<u8>>;

    closed spec fn view(&self) -> Seq<Seq<u8>> {
        self.data@.map_values(|b: BinaryData| b@)
    }
}

impl Tuple {
    /// A tuple of the byte strings `data`.
    pub closed spec fn from_vec(data: Vec<BinaryData>) -> Tuple {
        Tuple { data }
    }

    /// An empty tuple.
    pub fn new() -> (r: Self)
        ensures
            r@ == Seq::<Seq<u8>>::empty(),
    {
        let r = Tuple { data: Vec::new() };
        proof {
            assert(r@ =~= Seq::<Seq<u8>>::empty());
        }
        r
    }

    /// Returns the inner data as Byte Vector
    pub fn bytes(&self) -> (r: Vec<Bytes>)
        ensures
            r@.len() == self@.len(),
            forall|i: int| 0 <= i < r@.len() ==> bytes_view(#[trigger] r@[i]) == self@[i],
    {
        let mut out: Vec<Bytes> = Vec::new();
        let mut i: usize = 0;
        while i < self.data.len()
            invariant
                i <= self.data@.len(),
                out@.len() == i,
                forall|j: int| 0 <= j < i ==> bytes_view(#[trigger] out@[j]) == self.data@[j]@,
            decreases self.data@.len() - i,
        {
            out.push(self.data[i].bytes());
            i = i + 1;
        }
        out
    }

    /// Returns the inner data as String Vector; invalid UTF-8 is replaced.
    pub fn strings(&self) -> (r: Vec<String>)
        ensures
            r@.len() == self@.len(),
            forall|i: int| 0 <= i < r@.len() ==> (#[trigger] r@[i])@ == utf8_lossy_text(self@[i]),
            forall|i: int|
                0 <= i < r@.len() && valid_utf8(self@[i]) ==> (#[trigger] r@[i])@ == decode_utf8(
                    self@[i],
                ),
    {
        let mut out: Vec<String> = Vec::new();
        let mut i: usize = 0;
        while i < self.data.len()
            invariant
                i <= self.data@.len(),
                out@.len() == i,
                forall|j: int| 0 <= j < i ==> (#[trigger] out@[j])@ == utf8_lossy_text(self.data@[j]@),
                forall|j: int|
                    0 <= j < i && valid_utf8(self.data@[j]@) ==> (#[trigger] out@[j])@
                        == decode_utf8(self.data@[j]@),
            decreases self.data@.len() - i,
        {
            out.push(self.data[i].string());
            i = i + 1;
        }
        out
    }

    /// The byte strings, as a slice.
    pub fn as_slice(&self) -> (r: &[BinaryData])
        ensures
            r@.map_values(|b: BinaryData| b@) == self@,
    {
        self.data.as_slice()
    }

    /// The number of byte strings.
    pub fn len(&self) -> (r: usize)
        ensures
            r == self@.len(),
    {
        self.data.len()
    }
}

impl Default for Tuple {
    fn default() -> (r: Self)
        ensures
            r@ == Seq::<Seq<u8>>::empty(),
    {
        Self::new()
    }
}

impl From<Vec<BinaryData>> for Tuple {
    fn from(value: Vec<BinaryData>) -> (r: Self)
        ensures
            r@ == value@.map_values(|b: BinaryData| b@),
    {
        Tuple { data: value }
    }
}

impl vstd::std_specs::convert::FromSpecImpl<Vec<BinaryData>> for Tuple {
    open spec fn obeys_from_spec() -> bool {
        true
    }

    open spec fn from_spec(v: Vec<BinaryData>) -> Self {
        Tuple::from_vec(v)
    }
}

impl Tuple {
    /// A tuple of the UTF-8 bytes of each string of `items`, in order.
    fn from_strs<'a>(items: &[&'a str]) -> (r: Self)
        ensures
            r@ == items@.map_values(|s: &'a str| s.spec_bytes()),
    {
        let mut data: Vec<BinaryData> = Vec::new();
        let mut i: usize = 0;
        while i < items.len()
            invariant
                i <= items@.len(),
                data@.len() == i,
                forall|j: int| 0 <= j < i ==> (#[trigger] data@[j])@ == items@[j].spec_bytes(),
            decreases items@.len() - i,
        {
            data.push(BinaryData::from(items[i]));
            i = i + 1;
        }
        let r = Tuple { data };
        proof {
            assert(r@ =~= items@.map_values(|s: &'a str| s.spec_bytes()));
        }
        r
    }
}

impl<'a, const N: usize> From<[&'a str; N]> for Tuple {
    /// One byte string per string, holding its UTF-8 bytes.
    fn from(value: [&'a str; N]) -> (r: Self)
        ensures
            r@ == value@.map_values(|s: &'a str| s.spec_bytes()),
    {
        Tuple::from_strs(value.as_slice())
    }
}

/// See the conversion from an array of strings.
impl<'a, const N: usize> vstd::std_specs::convert::FromSpecImpl<[&'a str; N]> for Tuple {
    open spec fn obeys_from_spec() -> bool {
        false
    }

    open spec fn from_spec(v: [&'a str; N]) -> Self {
        arbitrary()
    }
}

impl<'a, 'b, const N: usize> From<&'b [&'a str; N]> for Tuple {
    /// One byte string per string, holding its UTF-8 bytes.
    fn from(value: &'b [&'a str; N]) -> (r: Self)
        ensures
            r@ == value@.map_values(|s: &'a str| s.spec_bytes()),
    {
        Tuple::from_strs(value.as_slice())
    }
}

/// See the conversion from an array of strings.
impl<'a, 'b, const N: usize> vstd::std_specs::convert::FromSpecImpl<&'b [&'a str; N]> for Tuple {
    open spec fn obeys_from_spec() -> bool {
        false
    }

    open spec fn from_spec(v: &'b [&'a str; N]) -> Self {
        arbitrary()
    }
}

impl<'a, 'b> From<&'b [&'a str]> for Tuple {
    /// One byte string per string, holding its UTF-8 bytes.
    fn from(value: &'b [&'a str]) -> (r: Self)
        ensures
            r@ == value@.map_values(|s: &'a str| s.spec_bytes()),
    {
        Tuple::from_strs(value)
    }
}

/// See the conversion from an array of strings.
impl<'a, 'b> vstd::std_specs::convert::FromSpecImpl<&'b [&'a str]> for Tuple {
    open spec fn obeys_from_spec() -> bool {
        false
    }

    open spec fn from_spec(v: &'b [&'a str]) -> Self {
        arbitrary()
    }
}

impl<'a> From<Vec<&'a str>> for Tuple {
    /// One byte string per string, holding its UTF-8 bytes.
    fn from(value: Vec<&'a str>) -> (r: Self)
        ensures
            r@ == value@.map_values(|s: &'a str| s.spec_bytes()),
    {
        Tuple::from_strs(value.as_slice())
    }
}

/// See the conversion from an array of strings.
impl<'a> vstd::std_specs::convert::FromSpecImpl<Vec<&'a str>> for Tuple {
    open spec fn obeys_from_spec() -> bool {
        false
    }

    open spec fn from_spec(v: Vec<&'a str>) -> Self {
        arbitrary()
    }
}

impl VarInt for Tuple {
    type Error = TupleError;

    /// The bit count of the wire form must fit into a `usize`.
    open spec fn measurable(&self) -> bool {
        tuple_bits(self@).len() <= usize::MAX
    }

    open spec fn encodable(&self, length: Option<usize>) -> bool {
        tuple_bits(self@).len() <= usize::MAX
    }

    fn decode<R: Reader>(reader: &mut R, _length: Option<usize>) -> (r: Result<
        (Self, usize),
        TupleError,
    >)
        ensures
            ({
                let u = old(reader).unread();
                let h = header_len(u);
                let items = parse_items(u.skip(h as int), as_count(header_value(u)));
                &&& r is Ok <==> decodable(u) && items is Some
                &&& r matches Ok((t, bits)) ==> {
                    &&& items matches Some((ps, l))
                    &&& bits == h + l
                    &&& t@.len() == ps.len()
                    &&& forall|i: int| 0 <= i < ps.len() ==> bits_of(#[trigger] t@[i]) == ps[i]
                    &&& final(reader).unread() == u.skip(bits as int)
                }
                &&& r matches Err(e) ==> e == tuple_read_error::<R>(u)
            }),
    {
        let ghost u = reader.unread();
        let (length, len) = match Number::decode(reader, None) {
            Ok(x) => x,
            Err(e) => return Err(TupleError::Number { source: e }),
        };
        let count = length.number::<usize>();
        let ghost h = header_len(u);
        let ghost v = u.skip(h as int);
        let mut bits = len;
        let mut tuples: Vec<BinaryData> = Vec::new();
        let ghost mut ps: Seq<Seq<bool>> = Seq::empty();
        let ghost mut l: nat = 0;
        let mut i: usize = 0;
        proof {
            assert(count == as_count(header_value(u)));
            assert(v.skip(0) =~= v);
        }
        while i < count
            invariant
                i <= count,
                count == as_count(header_value(u)),
                u == old(reader).unread(),
                decodable(u),
                h == header_len(u),
                v == u.skip(h as int),
                h <= u.len() < usize::MAX,
                parse_items(v, i as nat) == Some((ps, l)),
                h + l <= u.len(),
                bits == h + l,
                reader.unread() == v.skip(l as int),
                tuples@.len() == i,
                ps.len() == i,
                forall|j: int| 0 <= j < i ==> bits_of(#[trigger] tuples@[j]@) == ps[j],
            ensures
                i == count,
            decreases count - i,
        {
            let (data, b) = match BinaryData::decode(reader, None) {
                Ok(x) => x,
                Err(e) => {
                    proof {
                        assert(parse_items(v, (i + 1) as nat) is None);
                        lemma_parse_items_none(v, (i + 1) as nat, count as nat);
                        assert(parse_items(u.skip(h as int), as_count(header_value(u))) is None);
                        lemma_items_read_error::<R>(v, i as nat, count as nat);
                    }
                    return Err(TupleError::BinaryData { source: e });
                },
            };
            proof {
                let p = parse_binary(v.skip(l as int));
                assert(p matches Some((pp, m)) && m == b);
                let l0 = l;
                ps = ps.push(bits_of(data@));
                l = l0 + b as nat;
                assert(v.skip(l0 as int).skip(b as int) =~= v.skip(l as int));
                lemma_parse_items_len(v, (i + 1) as nat);
                assert(v.len() == u.len() - h);
            }
            bits = bits + b;
            tuples.push(data);
            i = i + 1;
        }
        proof {
            assert(v.skip(l as int) =~= u.skip(bits as int));
        }
        let t = Tuple { data: tuples };
        proof {
            assert forall|j: int| 0 <= j < ps.len() implies bits_of(#[trigger] t@[j]) == ps[j] by {
                assert(t@[j] == tuples@[j]@);
            }
        }
        Ok((t, bits))
    }

    fn encode<W: Writer>(&self, writer: &mut W, _length: Option<usize>) -> (r: Result<
        usize,
        TupleError,
    >)
        ensures
            ({
                let w = old(writer).written();
                &&& r is Ok <==> w.len() % 8 == 0
                &&& r matches Ok(n) ==> {
                    &&& n == tuple_bits(self@).len()
                    &&& final(writer).written() == w + tuple_bits(self@)
                }
                &&& r matches Err(e) ==> {
                    &&& e == TupleError::Number {
                        source: NumberError::Writer { source: W::write_bytes_error(w) },
                    }
                    &&& final(writer).written() == w
                }
            }),
    {
        let ghost items = self@;
        let len = self.data.len();
        proof {
            lemma_items_bits_len(items, 0);
            lemma_varint_bits_len(len as nat);
        }
        let length = match Number::new_number(len, None) {
            Ok(n) => n,
            Err(e) => return Err(TupleError::Number { source: e }),
        };
        let mut bits = match length.encode(writer, None) {
            Ok(b) => b,
            Err(e) => return Err(TupleError::Number { source: e }),
        };
        let ghost w0 = old(writer).written() + varint_bits(len as nat);
        let mut i: usize = 0;
        proof {
            assert(items.take(0) =~= Seq::<Seq<u8>>::empty());
            assert(w0 + items_bits(items.take(0)) =~= w0);
        }
        while i < len
            invariant
                i <= len,
                len == self.data@.len(),
                items == self@,
                items.len() == len,
                tuple_bits(items).len() <= usize::MAX,
                w0 == old(writer).written() + varint_bits(len as nat),
                w0.len() % 8 == 0,
                writer.written() == w0 + items_bits(items.take(i as int)),
                bits == varint_bits(len as nat).len() + items_bits(items.take(i as int)).len(),
            decreases len - i,
        {
            let ghost before = writer.written();
            proof {
                lemma_items_bits_take(items, i as int);
                lemma_items_bits_len(items, (i + 1) as int);
                assert(items[i as int] == self.data@[i as int]@);
                lemma_varint_bits_len(items[i as int].len());
                crate::binary_data::lemma_binary_bits_len(items[i as int]);
                lemma_items_bits_whole_bytes(items.take(i as int));
            }
            let b = match self.data[i].encode(writer, None) {
                Ok(b) => b,
                Err(e) => return Err(TupleError::BinaryData { source: e }),
            };
            proof {
                assert(w0 + items_bits(items.take(i as int)) + binary_bits(items[i as int]) =~= w0
                    + items_bits(items.take(i + 1)));
            }
            bits = bits + b;
            i = i + 1;
        }
        proof {
            assert(items.take(len as int) =~= items);
            assert(old(writer).written() + varint_bits(len as nat) + items_bits(items) =~= old(
                writer,
            ).written() + tuple_bits(items));
        }
        Ok(bits)
    }

    fn len_bits(&self) -> (r: Result<usize, TupleError>)
        ensures
            r == Ok::<usize, TupleError>(tuple_bits(self@).len() as usize),
    {
        let ghost items = self@;
        let num_tuples = self.data.len();
        proof {
            lemma_items_bits_len(items, 0);
            lemma_varint_bits_len(num_tuples as nat);
        }
        let len = match Number::new_number(num_tuples, None) {
            Ok(n) => n,
            Err(e) => return Err(TupleError::Number { source: e }),
        };
        let lb = match len.len_bits() {
            Ok(b) => b,
            Err(e) => return Err(TupleError::Number { source: e }),
        };
        let mut acc: usize = 0;
        let mut i: usize = 0;
        proof {
            assert(items.take(0) =~= Seq::<Seq<u8>>::empty());
        }
        while i < num_tuples
            invariant
                i <= num_tuples,
                num_tuples == self.data@.len(),
                items == self@,
                items.len() == num_tuples,
                tuple_bits(items).len() <= usize::MAX,
                lb == varint_bits(num_tuples as nat).len(),
                acc == items_bits(items.take(i as int)).len(),
            decreases num_tuples - i,
        {
            proof {
                lemma_items_bits_take(items, i as int);
                lemma_items_bits_len(items, (i + 1) as int);
                assert(items[i as int] == self.data@[i as int]@);
            }
            let b = match self.data[i].len_bits() {
                Ok(b) => b,
                Err(e) => return Err(TupleError::BinaryData { source: e }),
            };
            acc = acc + b;
            i = i + 1;
        }
        proof {
            assert(items.take(num_tuples as int) =~= items);
        }
        // each Binary data bits + number of bits required to encode the number of BinaryData
        Ok(acc + lb)
    }

    fn length_required() -> (r: bool)
        ensures
            !r,
    {
        false
    }
}

/// The wire forms of byte strings fill whole bytes.
pub proof fn lemma_items_bits_whole_bytes(items: Seq<Seq<u8>>)
    ensures
        items_bits(items).len() % 8 == 0,
    decreases items.len(),
{
    if items.len() > 0 {
        lemma_items_bits_whole_bytes(items.drop_last());
        crate::binary_data::lemma_binary_bits_len(items.last());
    }
}

} // verus!
