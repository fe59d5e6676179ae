//! Key-value parameters of the MOQT wire format: an even key carries a
//! number, an odd key a length-prefixed byte string.
use crate::binary_data::{as_count, header_len, header_value};
use crate::bit_range::{BitRange, BitRangeError, UNBOUNDED};
use crate::bits::{bits_of, bytes_for};
use crate::number::{
    decodable, lemma_varint_bits_len, number_read_error, varint_bits, Number, NumberError,
};
use crate::reader::Reader;
use crate::track::{field_read_error, name_bits, range_encode, range_len_bits};
use crate::writer::Writer;
use crate::VarInt;
use vstd::prelude::*;

verus! {

/// Error of a list of key-value parameters.
#[derive(Debug, Clone, PartialEq)]
pub enum IndexMapError {
    Number { source: NumberError },
    KeyValuePair { source: KeyValuePairError },
    Parameter { cause: String },
}

/// Error of a [KeyValuePair] operation.
#[derive(Debug, Clone, PartialEq)]
pub enum KeyValuePairError {
    Number { source: NumberError },
    Bytes { source: BitRangeError },
}

/// The value of a parameter.
#[derive(Debug, PartialEq, Eq, PartialOrd, Ord, Clone)]
pub enum Value {
    Number(Number),
    Bytes(BitRange<0, UNBOUNDED>),
}

/// A parameter: a number as key, and a value whose kind the key's parity
/// gives.
#[derive(Debug, PartialEq, Eq, PartialOrd, Ord, Clone)]
pub struct KeyValuePair {
    pub key: Number,
    pub value: Value,
}

/// The wire form of a parameter with key `key` and value `value`: the key,
/// then a number value, or the byte count and bits of a byte value.
pub open spec fn kvp_bits(key: nat, value: Value) -> Seq<bool> {
    varint_bits(key) + match value {
        Value::Number(n) => varint_bits(n.value()),
        Value::Bytes(b) => name_bits(b.stored(), b.bit_count()),
    }
}

/// The number of bits of the wire form of a parameter with key `key` and
/// value `value`.
pub open spec fn kvp_len(key: nat, value: Value) -> nat {
    varint_bits(key).len() + match value {
        Value::Number(n) => varint_bits(n.value()).len(),
        Value::Bytes(b) => varint_bits(b.bit_count() / 8).len() + b.bit_count(),
    }
}

impl VarInt for KeyValuePair {
    type Error = KeyValuePairError;

    /// A byte value holds all its bits, and the bit count of the wire form
    /// fits into a `usize`.
    /// The bit count of the wire form fits into a `usize`.
    open spec fn measurable(&self) -> bool {
        kvp_len(self.key.value(), self.value) <= usize::MAX
    }

    open spec fn encodable(&self, length: Option<usize>) -> bool {
        &&& (self.value matches Value::Bytes(b) ==> bytes_for(b.bit_count()) <= b.stored().len())
        &&& kvp_bits(self.key.value(), self.value).len() <= usize::MAX
    }

    fn decode<R: Reader>(reader: &mut R, _length: Option<usize>) -> (r: Result<
        (Self, usize),
        KeyValuePairError,
    >)
        ensures
            ({
                let u = old(reader).unread();
                let h1 = header_len(u);
                let k = header_value(u);
                let v = u.skip(h1 as int);
                let h2 = header_len(v);
                let n = as_count(header_value(v));
                let even = k % 2 == 0;
                &&& r is Ok <==> decodable(u) && decodable(v) && (even || h2 + 8 * n <= v.len())
                &&& r matches Ok((kvp, bits)) ==> {
                    &&& kvp.key.value() == k
                    &&& even ==> (kvp.value matches Value::Number(x) && x.value() == header_value(
                        v,
                    ) && bits == h1 + h2)
                    &&& !even ==> (kvp.value matches Value::Bytes(b) && b.bit_count() == 8 * n
                        && b.bits_view() == v.subrange(h2 as int, (h2 + 8 * n) as int) && bits_of(
                        b.stored(),
                    ) == v.subrange(h2 as int, (h2 + 8 * n) as int) && bits == h1 + h2 + 8 * n)
                    &&& final(reader).unread() == u.skip(bits as int)
                }
                &&& r matches Err(e) ==> e == if !decodable(u) {
                    KeyValuePairError::Number {
                        source: NumberError::Reader { source: number_read_error::<R>(u) },
                    }
                } else if !decodable(v) {
                    KeyValuePairError::Number {
                        source: NumberError::Reader { source: number_read_error::<R>(v) },
                    }
                } else {
                    KeyValuePairError::Bytes { source: field_read_error::<R>(v) }
                }
            }),
    {
        let ghost u = reader.unread();
        let (key, b1) = match Number::decode(reader, None) {
            Ok(x) => x,
            Err(e) => return Err(KeyValuePairError::Number { source: e }),
        };
        let ghost v = u.skip(b1 as int);
        let (num, b2) = match Number::decode(reader, None) {
            Ok(x) => x,
            Err(e) => return Err(KeyValuePairError::Number { source: e }),
        };
        let k = key.number::<u128>();
        if k % 2 == 0 {
            proof {
                assert(v.skip(b2 as int) =~= u.skip(b1 + b2));
            }
            return Ok((KeyValuePair { key, value: Value::Number(num) }, b1 + b2));
        }
        let c = num.number::<usize>();
        // a byte count too large for a bit count can never be read
        let field_len = if c <= usize::MAX / 8 {
            c * 8
        } else {
            usize::MAX
        };
        let (bytes, b3) = match BitRange::<0, UNBOUNDED>::decode(reader, Some(field_len)) {
            Ok(x) => x,
            Err(e) => return Err(KeyValuePairError::Bytes { source: e }),
        };
        proof {
            assert(v.skip(b2 as int).take(b3 as int) =~= v.subrange(b2 as int, b2 + b3));
            assert(v.skip(b2 as int).skip(b3 as int) =~= u.skip(b1 + b2 + b3));
        }
        Ok((KeyValuePair { key, value: Value::Bytes(bytes) }, b1 + b2 + b3))
    }

    fn encode<W: Writer>(&self, writer: &mut W, _length: Option<usize>) -> (r: Result<
        usize,
        KeyValuePairError,
    >)
        ensures
            ({
                let w = old(writer).written();
                let wire = kvp_bits(self.key.value(), self.value);
                &&& r is Ok <==> w.len() % 8 == 0
                &&& r matches Ok(n) ==> n == wire.len() && final(writer).written() == w + wire
                &&& r matches Err(e) ==> {
                    &&& e == KeyValuePairError::Number {
                        source: NumberError::Writer { source: W::write_bytes_error(w) },
                    }
                    &&& final(writer).written() == w
                }
            }),
    {
        let b1 = match self.key.encode(writer, None) {
            Ok(b) => b,
            Err(e) => return Err(KeyValuePairError::Number { source: e }),
        };
        proof {
            lemma_varint_bits_len(self.key.value());
        }
        match &self.value {
            Value::Number(num) => {
                proof {
                    lemma_varint_bits_len(num.value());
                }
                let b2 = match num.encode(writer, None) {
                    Ok(b) => b,
                    Err(e) => return Err(KeyValuePairError::Number { source: e }),
                };
                proof {
                    assert(old(writer).written() + varint_bits(self.key.value()) + varint_bits(
                        num.value(),
                    ) =~= old(writer).written() + kvp_bits(self.key.value(), self.value));
                }
                Ok(b1 + b2)
            },
            Value::Bytes(buf) => {
                let length = match range_len_bits(buf) {
                    Ok(l) => l,
                    Err(e) => return Err(KeyValuePairError::Bytes { source: e }),
                };
                proof {
                    lemma_varint_bits_len(length as nat / 8);
                }
                let count = match Number::new_number(length / 8, None) {
                    Ok(n) => n,
                    Err(e) => return Err(KeyValuePairError::Number { source: e }),
                };
                let b2 = match count.encode(writer, None) {
                    Ok(b) => b,
                    Err(e) => return Err(KeyValuePairError::Number { source: e }),
                };
                let b3 = match range_encode(buf, writer, length) {
                    Ok(b) => b,
                    Err(e) => return Err(KeyValuePairError::Bytes { source: e }),
                };
                proof {
                    assert(old(writer).written() + varint_bits(self.key.value()) + varint_bits(
                        length as nat / 8,
                    ) + crate::bits::bits_of(buf.stored()).take(length as int) =~= old(
                        writer,
                    ).written() + kvp_bits(self.key.value(), self.value));
                }
                Ok(b1 + b2 + b3)
            },
        }
    }

    fn len_bits(&self) -> (r: Result<usize, KeyValuePairError>)
        ensures
            r == Ok::<usize, KeyValuePairError>(kvp_len(self.key.value(), self.value) as usize),
    {
        let b1 = match self.key.len_bits() {
            Ok(b) => b,
            Err(e) => return Err(KeyValuePairError::Number { source: e }),
        };
        proof {
            lemma_varint_bits_len(self.key.value());
        }
        match &self.value {
            Value::Number(num) => {
                proof {
                    lemma_varint_bits_len(num.value());
                }
                let b2 = match num.len_bits() {
                    Ok(b) => b,
                    Err(e) => return Err(KeyValuePairError::Number { source: e }),
                };
                Ok(b1 + b2)
            },
            Value::Bytes(buf) => {
                let length = match range_len_bits(buf) {
                    Ok(l) => l,
                    Err(e) => return Err(KeyValuePairError::Bytes { source: e }),
                };
                proof {
                    lemma_varint_bits_len(length as nat / 8);
                }
                let count = match Number::new_number(length / 8, None) {
                    Ok(n) => n,
                    Err(e) => return Err(KeyValuePairError::Number { source: e }),
                };
                let b2 = match count.len_bits() {
                    Ok(b) => b,
                    Err(e) => return Err(KeyValuePairError::Number { source: e }),
                };
                Ok(b1 + b2 + length)
            },
        }
    }

    fn length_required() -> (r: bool)
        ensures
            !r,
    {
        false
    }
}

} // verus!
