//! Byte strings with a length prefix, `x(b)` in the MOQT wire format.
use crate::bits::{bits_of, value_of};
use crate::buffers::{
    bytes_as_slice, bytes_clone, bytes_copy_from_slice, bytes_from_vec, bytes_len, bytes_to_vec,
    bytes_view,
};
use crate::number::{
    decodable, lemma_varint_bits_len, number_read_error, tag_width, varint_bits, Number, NumberError,
};
use crate::reader::{Reader, ReaderError};
use crate::writer::{Writer, WriterError};
use crate::VarInt;
use bytes::Bytes;
use crate::bit_range::same_bytes;
use vstd::prelude::*;
use vstd::std_specs::cmp::PartialEqSpecImpl;
use vstd::std_specs::convert::FromSpecImpl;
use vstd::string::StringSliceAdditionalSpecFns;
use vstd::utf8::encode_utf8;
use vstd::utf8::{decode_utf8, valid_utf8};

verus! {

/// Error of a [BinaryData] operation.
#[derive(Debug, Clone, PartialEq)]
pub enum BinaryDataError {
    /// Invalid length encoding or decoding
    Number { source: NumberError },
    /// Decoding Error
    Reader { source: ReaderError },
    /// Encoding Error
    Writer { source: WriterError },
}

/// The number of bits of the number at the front of `u`, as its two
/// leading bits give it.
pub open spec fn header_len(u: Seq<bool>) -> nat {
    2 + tag_width(value_of(u.take(2)))
}

/// The number at the front of `u`.
pub open spec fn header_value(u: Seq<bool>) -> nat {
    value_of(u.subrange(2, header_len(u) as int))
}

/// The count a prefix value `v` stands for once read as a `usize`: `v`
/// itself, or zero where `v` does not fit.
pub open spec fn as_count(v: nat) -> nat {
    if v <= usize::MAX {
        v
    } else {
        0
    }
}

/// The byte string at the front of `u`, if one is there: its payload bits
/// and the number of bits it takes, prefix included.
pub open spec fn parse_binary(u: Seq<bool>) -> Option<(Seq<bool>, nat)> {
    if decodable(u) {
        let h = header_len(u);
        let n = as_count(header_value(u));
        if h + 8 * n <= u.len() {
            Some((u.subrange(h as int, (h + 8 * n) as int), h + 8 * n))
        } else {
            None
        }
    } else {
        None
    }
}

/// The error a reader `R` ends a read of a byte string at the front of `u`
/// with, where none is there whole: that of its length prefix, or that of
/// the bytes the prefix announces.
pub open spec fn binary_read_error<R: Reader>(u: Seq<bool>) -> BinaryDataError {
    if decodable(u) {
        BinaryDataError::Reader {
            source: R::read_bytes_error(
                u.skip(header_len(u) as int),
                as_count(header_value(u)) as usize,
            ),
        }
    } else {
        BinaryDataError::Number { source: NumberError::Reader { source: number_read_error::<R>(u) } }
    }
}

/// The wire form of the byte string `d`: its length as a number, then its bytes.
pub open spec fn binary_bits(d: Seq<u8>) -> Seq<bool> {
    varint_bits(d.len()) + bits_of(d)
}

/// The wire form of a byte string fills whole bytes, at least one.
pub proof fn lemma_binary_bits_len(d: Seq<u8>)
    ensures
        binary_bits(d).len() == varint_bits(d.len()).len() + 8 * d.len(),
        binary_bits(d).len() % 8 == 0,
        binary_bits(d).len() >= 8,
{
    lemma_varint_bits_len(d.len());
}

/// The text `String::from_utf8_lossy` makes of the bytes `b`: determined by
/// the bytes alone.
pub uninterp spec fn utf8_lossy_text(b: Seq<u8>) -> Seq<char>;

/// `String::from_utf8_lossy`, made an owned `String`: the text
/// [utf8_lossy_text] names for the bytes; valid UTF-8 is decoded as it is.
/// What an invalid sequence turns into (U+FFFD) is not spelled out.
#[verifier::external_body]
pub(crate) fn utf8_lossy(b: &[u8]) -> (r: String)
    ensures
        r@ == utf8_lossy_text(b@),
        valid_utf8(b@) ==> r@ == decode_utf8(b@),
{
    String::from_utf8_lossy(b).into_owned()
}

/// A BinaryData is a sequence of Bytes.
///
/// It starts with a [VarInt](crate::Number), followed
/// by that many bytes.
#[derive(Debug, PartialEq, Eq, PartialOrd, Ord, Hash)]
pub struct BinaryData {
    data: Bytes,
}

impl View for BinaryData {
    type V = Seq<u8>;

    closed spec fn view(&self) -> Seq<u8> {
        bytes_view(self.data)
    }
}

impl BinaryData {
    /// A byte string holding a copy of `buf`.
    pub fn new(buf: &[u8]) -> (r: Self)
        ensures
            r@ == buf@,
    {
        BinaryData { data: bytes_copy_from_slice(buf) }
    }

    /// The bytes, as a `Bytes` handle.
    pub fn bytes(&self) -> (r: Bytes)
        ensures
            bytes_view(r) == self@,
    {
        bytes_clone(&self.data)
    }

    /// The bytes read as UTF-8; invalid sequences are replaced.
    pub fn string(&self) -> (r: String)
        ensures
            r@ == utf8_lossy_text(self@),
            valid_utf8(self@) ==> r@ == decode_utf8(self@),
    {
        utf8_lossy(bytes_as_slice(&self.data))
    }

    /// The bytes, as a slice.
    pub fn as_slice(&self) -> (r: &[u8])
        ensures
            r@ == self@,
    {
        bytes_as_slice(&self.data)
    }

    /// A copy of the bytes.
    pub fn to_vec(&self) -> (r: Vec<u8>)
        ensures
            r@ == self@,
    {
        bytes_to_vec(&self.data)
    }

    /// The number of bytes.
    pub fn len(&self) -> (r: usize)
        ensures
            r == self@.len(),
    {
        bytes_len(&self.data)
    }
}

impl Clone for BinaryData {
    fn clone(&self) -> (r: Self)
        ensures
            r@ == self@,
    {
        BinaryData { data: bytes_clone(&self.data) }
    }
}

impl Default for BinaryData {
    fn default() -> (r: Self)
        ensures
            r@ == Seq::<u8>::empty(),
    {
        BinaryData { data: bytes_from_vec(Vec::new()) }
    }
}

impl VarInt for BinaryData {
    type Error = BinaryDataError;

    /// The bit count of the wire form must fit into a `usize`.
    open spec fn measurable(&self) -> bool {
        binary_bits(self@).len() <= usize::MAX
    }

    open spec fn encodable(&self, length: Option<usize>) -> bool {
        binary_bits(self@).len() <= usize::MAX
    }

    fn decode<R: Reader>(reader: &mut R, _length: Option<usize>) -> (r: Result<
        (Self, usize),
        BinaryDataError,
    >)
        ensures
            ({
                let u = old(reader).unread();
                &&& r is Ok <==> parse_binary(u) is Some
                &&& r matches Ok((d, bits)) ==> {
                    &&& parse_binary(u) matches Some((p, l))
                    &&& bits == l
                    &&& bits_of(d@) == p
                    &&& final(reader).unread() == u.skip(l as int)
                }
                &&& r matches Err(e) ==> e == binary_read_error::<R>(u)
            }),
    {
        let ghost u = reader.unread();
        // VarInt determines the number of bytes
        let (length, len) = match Number::decode(reader, None) {
            Ok(x) => x,
            Err(e) => return Err(BinaryDataError::Number { source: e }),
        };
        let n = length.number::<usize>();
        let ghost h = header_len(u);
        proof {
            assert(len == h);
            assert(u.len() % 8 == 0);
            assert(h % 8 == 0);
            assert(n == as_count(header_value(u)));
        }
        // read the data payload
        let data = match reader.read_bytes(n) {
            Ok(b) => b,
            Err(e) => return Err(BinaryDataError::Reader { source: e }),
        };
        proof {
            assert(u.skip(h as int).take(8 * n) =~= u.subrange(h as int, (h + 8 * n) as int));
            assert(u.skip(h as int).skip(8 * n) =~= u.skip((h + 8 * n) as int));
        }
        Ok((BinaryData { data }, len + n * 8))
    }

    fn encode<W: Writer>(&self, writer: &mut W, _length: Option<usize>) -> (r: Result<
        usize,
        BinaryDataError,
    >)
        ensures
            ({
                let w = old(writer).written();
                &&& r is Ok <==> w.len() % 8 == 0
                &&& r matches Ok(n) ==> {
                    &&& n == binary_bits(self@).len()
                    &&& final(writer).written() == w + binary_bits(self@)
                }
                &&& r matches Err(e) ==> {
                    &&& e == BinaryDataError::Number {
                        source: NumberError::Writer { source: W::write_bytes_error(w) },
                    }
                    &&& final(writer).written() == w
                }
            }),
    {
        let len = bytes_len(&self.data);
        proof {
            lemma_varint_bits_len(len as nat);
        }
        // encode the VarInt length
        let number = match Number::new_number(len, None) {
            Ok(n) => n,
            Err(e) => return Err(BinaryDataError::Number { source: e }),
        };
        let bits = match number.encode(writer, None) {
            Ok(b) => b,
            Err(e) => return Err(BinaryDataError::Number { source: e }),
        };
        proof {
            lemma_varint_bits_len(len as nat);
        }
        // encode the data payload
        match writer.write_bytes(bytes_as_slice(&self.data)) {
            Ok(_) => {},
            Err(e) => return Err(BinaryDataError::Writer { source: e }),
        }
        proof {
            assert(old(writer).written() + varint_bits(len as nat) + bits_of(self@) =~= old(
                writer,
            ).written() + binary_bits(self@));
        }
        Ok(bits + len * 8)
    }

    /// Returns the number of bits required to represent the data as VarInt.
    fn len_bits(&self) -> (r: Result<usize, BinaryDataError>)
        ensures
            r == Ok::<usize, BinaryDataError>(binary_bits(self@).len() as usize),
    {
        let num_bytes = bytes_len(&self.data);
        proof {
            lemma_varint_bits_len(num_bytes as nat);
        }
        let len = match Number::new_number(num_bytes, None) {
            Ok(n) => n,
            Err(e) => return Err(BinaryDataError::Number { source: e }),
        };
        let lb = match len.len_bits() {
            Ok(b) => b,
            Err(e) => return Err(BinaryDataError::Number { source: e }),
        };
        proof {
            lemma_varint_bits_len(num_bytes as nat);
        }
        // data in bits + number of bits required to encode its length
        Ok(num_bytes * 8 + lb)
    }

    fn length_required() -> (r: bool)
        ensures
            !r,
    {
        // length is provided by a preceding VarInt
        false
    }
}

impl PartialEq<[u8]> for BinaryData {
    fn eq(&self, other: &[u8]) -> (r: bool) {
        same_bytes(bytes_as_slice(&self.data), other)
    }
}

impl PartialEqSpecImpl<[u8]> for BinaryData {
    open spec fn obeys_eq_spec() -> bool {
        true
    }

    open spec fn eq_spec(&self, other: &[u8]) -> bool {
        self@ == other@
    }
}

impl PartialEq<str> for BinaryData {
    fn eq(&self, other: &str) -> (r: bool) {
        same_bytes(bytes_as_slice(&self.data), other.as_bytes())
    }
}

impl PartialEqSpecImpl<str> for BinaryData {
    open spec fn obeys_eq_spec() -> bool {
        true
    }

    open spec fn eq_spec(&self, other: &str) -> bool {
        self@ == other.spec_bytes()
    }
}

impl PartialEq<Vec<u8>> for BinaryData {
    fn eq(&self, other: &Vec<u8>) -> (r: bool) {
        same_bytes(bytes_as_slice(&self.data), other.as_slice())
    }
}

impl PartialEqSpecImpl<Vec<u8>> for BinaryData {
    open spec fn obeys_eq_spec() -> bool {
        true
    }

    open spec fn eq_spec(&self, other: &Vec<u8>) -> bool {
        self@ == other@
    }
}

impl PartialEq<String> for BinaryData {
    fn eq(&self, other: &String) -> (r: bool) {
        same_bytes(bytes_as_slice(&self.data), other.as_str().as_bytes())
    }
}

impl PartialEqSpecImpl<String> for BinaryData {
    open spec fn obeys_eq_spec() -> bool {
        true
    }

    open spec fn eq_spec(&self, other: &String) -> bool {
        self@ == encode_utf8(other@)
    }
}

impl From<Vec<u8>> for BinaryData {
    fn from(value: Vec<u8>) -> (r: Self)
        ensures
            r@ == value@,
    {
        BinaryData { data: bytes_from_vec(value) }
    }
}

/// The buffer is opaque, so the impl's own `ensures` says what the
/// conversion gives.
impl FromSpecImpl<Vec<u8>> for BinaryData {
    open spec fn obeys_from_spec() -> bool {
        false
    }

    open spec fn from_spec(v: Vec<u8>) -> Self {
        arbitrary()
    }
}

impl<'a> From<&'a [u8]> for BinaryData {
    fn from(value: &'a [u8]) -> (r: Self)
        ensures
            r@ == value@,
    {
        Self::new(value)
    }
}

/// See the conversion from a vector.
impl<'a> FromSpecImpl<&'a [u8]> for BinaryData {
    open spec fn obeys_from_spec() -> bool {
        false
    }

    open spec fn from_spec(v: &'a [u8]) -> Self {
        arbitrary()
    }
}

impl<'a> From<&'a str> for BinaryData {
    fn from(value: &'a str) -> (r: Self)
        ensures
            r@ == value.spec_bytes(),
    {
        Self::new(value.as_bytes())
    }
}

/// See the conversion from a vector.
impl<'a> FromSpecImpl<&'a str> for BinaryData {
    open spec fn obeys_from_spec() -> bool {
        false
    }

    open spec fn from_spec(v: &'a str) -> Self {
        arbitrary()
    }
}

impl From<String> for BinaryData {
    fn from(value: String) -> (r: Self)
        ensures
            r@ == encode_utf8(value@),
    {
        Self::new(value.as_str().as_bytes())
    }
}

/// See the conversion from a vector.
impl FromSpecImpl<String> for BinaryData {
    open spec fn obeys_from_spec() -> bool {
        false
    }

    open spec fn from_spec(v: String) -> Self {
        arbitrary()
    }
}

impl From<BinaryData> for Vec<u8> {
    fn from(value: BinaryData) -> (r: Self)
        ensures
            r@ == value@,
    {
        value.to_vec()
    }
}

/// A vector's contents are its view, so the impl's own `ensures` says what
/// the conversion gives.
impl FromSpecImpl<BinaryData> for Vec<u8> {
    open spec fn obeys_from_spec() -> bool {
        false
    }

    open spec fn from_spec(v: BinaryData) -> Self {
        arbitrary()
    }
}

impl From<BinaryData> for String {
    /// The bytes read as UTF-8; invalid sequences are replaced.
    fn from(value: BinaryData) -> (r: Self)
        ensures
            r@ == utf8_lossy_text(value@),
            valid_utf8(value@) ==> r@ == decode_utf8(value@),
    {
        value.string()
    }
}

/// See the conversion into a vector.
impl FromSpecImpl<BinaryData> for String {
    open spec fn obeys_from_spec() -> bool {
        false
    }

    open spec fn from_spec(v: BinaryData) -> Self {
        arbitrary()
    }
}

} // verus!
