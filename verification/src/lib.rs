//! Variable-length integers and bit-level encoding as used by the QUIC and
//! MOQT wire formats.
use vstd::prelude::*;

pub mod binary_data;
pub mod bit_number;
pub mod bit_range;
pub mod bits;
pub mod bitstore;
pub mod buffers;
pub mod compare;
pub mod convert;
pub mod key_value;
pub mod laws;
pub mod number;
pub mod parse;
pub mod partial;
pub mod reader;
pub mod track;
pub mod tuple;
pub mod unsigned;
pub mod writer;

pub use binary_data::{BinaryData, BinaryDataError};
pub use bit_number::{BitNumber, BitNumberError};
pub use bit_range::{BitRange, BitRangeError};
pub use key_value::{IndexMapError, KeyValuePair, KeyValuePairError, Value};
pub use number::{Number, NumberError};
pub use partial::{PartialByte, PartialByteError};
pub use reader::{Reader, ReaderError, ReferenceReader};
pub use track::{Name, Namespace, TrackError};
pub use tuple::{Tuple, TupleError};
pub use writer::{ReferenceWriter, Writer, WriterError};

verus! {

/// `std::num::ParseIntError`, held opaque.
#[verifier::external_type_specification]
#[verifier::external_body]
pub struct ExParseIntError(std::num::ParseIntError);

/// `ParseIntError::clone`, which the derived `Clone` of [StringError] calls;
/// nothing is claimed of its result.
pub assume_specification[ <std::num::ParseIntError as Clone>::clone ](
    e: &std::num::ParseIntError,
) -> std::num::ParseIntError;

/// Error of parsing a number from a string.
#[derive(Debug, PartialEq, Clone)]
pub enum StringError {
    /// Negative Numbers are not supported
    IsNegative,
    /// Failed to parse the input as number
    NumberError { input: String, source: std::num::ParseIntError },
}

/// A number could not be read from a string.
#[derive(Debug, PartialEq, Clone)]
pub struct NumberStringError {}

/// A value with a wire encoding.
pub trait VarInt: Sized {
    /// The error type.
    type Error;

    /// Whether `encode` can be asked to encode this value with `length`.
    spec fn encodable(&self, length: Option<usize>) -> bool;

    /// Encode the data for transmission.
    ///
    /// The `length` (in bits) is needed by some type for
    /// correct encoding. Usually, those type are
    /// preceded by its length. Types that don't
    /// need a specified length ignore this length.
    ///
    /// On success the number of bits encoded is returned.
    fn encode<W: Writer>(&self, writer: &mut W, length: Option<usize>) -> Result<usize, Self::Error>
        requires
            self.encodable(length),
    ;

    /// Decode received data.
    ///
    /// The `length` (in bits) is needed by some types for
    /// correct decoding. Usually, those types are
    /// preceded by its length. Types that don't
    /// need a specified length ignore this length.
    ///
    /// On success the decoded data and the number of
    /// decoded bits is returned.
    ///
    /// The bits left in the reader must be countable in a `usize`.
    fn decode<R: Reader>(reader: &mut R, length: Option<usize>) -> Result<(Self, usize), Self::Error>
        requires
            old(reader).unread().len() < usize::MAX,
    ;

    /// Whether the number of bits of the wire form can be counted in a
    /// `usize`.
    spec fn measurable(&self) -> bool;

    /// Returns the number of bits required to represent
    /// the data as VarInt.
    fn len_bits(&self) -> Result<usize, Self::Error>
        requires
            self.measurable(),
    ;

    /// Indicates whether this types requires the `length`
    /// argument for `encode` and `decode`.
    fn length_required() -> bool;
}

} // verus!
