use bytes::Bytes;
use varint_core::number::NumberError;
use varint_core::{BinaryData, BinaryDataError, Reader, ReaderError, ReferenceReader, ReferenceWriter, VarInt, Writer, WriterError};

const BUFFER: &[u8] = &[
    // x(i) => 8
    0b0000_1000,
    // 8 bytes data
    1,
    2,
    3,
    4,
    5,
    6,
    7,
    8,
];
const INVALID: &[u8] = &[
    // x(i) => 8
    0b0000_1000,
    // only 7 bytes data => too few
    1,
    2,
    3,
    4,
    5,
    6,
    7,
];

#[test]
fn binary_data_decode_test() {
    let mut reader = ReferenceReader::new(BUFFER);

    let (valid, bits) = BinaryData::decode(&mut reader, None).unwrap();
    assert_eq!(bits, BUFFER.len() * 8);
    assert_eq!(valid.as_slice(), &BUFFER[1..]);

    let mut reader = ReferenceReader::new(INVALID);

    let invalid = BinaryData::decode(&mut reader, None);
    assert_eq!(
        invalid,
        Err(BinaryDataError::Reader {
            source: ReaderError::MissingBytes { needs: 8, left: 7 }
        })
    );
}

#[test]
fn binary_data_varint_decode_test() {
    let mut reader = ReferenceReader::new(BUFFER);

    let valid = BinaryData::decode(&mut reader, None);
    assert_eq!(valid, Ok((BinaryData::new(&BUFFER[1..]), BUFFER.len() * 8)));

    let mut reader = ReferenceReader::new(INVALID);

    let invalid = BinaryData::decode(&mut reader, None);
    assert_eq!(
        invalid,
        Err(BinaryDataError::Reader {
            source: ReaderError::MissingBytes { needs: 8, left: 7 }
        })
    );
}

#[test]
fn binary_data_encode_test() {
    let mut writer = ReferenceWriter::new();

    let data = BinaryData::new(&BUFFER[1..]);
    let bits = data.encode(&mut writer, None).unwrap();

    assert_eq!(bits, BUFFER.len() * 8);
    assert_eq!(writer.finish(), Ok(Bytes::from(BUFFER)));
}

#[test]
fn binary_data_varint_encode_test() {
    let mut writer = ReferenceWriter::new();

    let data = BinaryData::new(&BUFFER[1..]);
    let bits = data.encode(&mut writer, None);

    assert_eq!(bits, Ok(BUFFER.len() * 8));
    assert_eq!(data.len_bits(), Ok(BUFFER.len() * 8));
    assert_eq!(writer.finish(), Ok(Bytes::from(BUFFER)));
}

#[test]
fn binary_data_accessors_test() {
    let data = BinaryData::new(b"moqt");
    assert_eq!(data.bytes(), Bytes::from_static(b"moqt"));
    assert_eq!(data.string(), "moqt".to_owned());
    assert_eq!(data.to_vec(), b"moqt".to_vec());
    assert_eq!(data.len(), 4);
    assert_eq!(data.clone(), data);
    assert_eq!(BinaryData::default().len(), 0);

    let lossy = BinaryData::new(&[0x66, 0xff, 0x6f]);
    assert_eq!(lossy.string(), "f\u{FFFD}o".to_owned());
}

#[test]
fn binary_data_errors_test() {
    // the length prefix is cut short
    let mut reader = ReferenceReader::new(&[0b0100_0000]);
    assert!(matches!(
        BinaryData::decode(&mut reader, None),
        Err(BinaryDataError::Number {
            source: NumberError::Reader { .. }
        })
    ));

    // writing off a byte boundary
    let mut writer = ReferenceWriter::new();
    writer.write_bits(3, &[0]);
    assert_eq!(
        BinaryData::new(&[1]).encode(&mut writer, None),
        Err(BinaryDataError::Number {
            source: NumberError::Writer {
                source: WriterError::LoosePartialByte
            }
        })
    );
}

#[test]
fn binary_data_round_trip_test() {
    let long: Vec<u8> = (0..300u32).map(|i| (i % 251) as u8).collect();
    let data = BinaryData::new(&long);
    let mut writer = ReferenceWriter::new();
    let bits = data.encode(&mut writer, None).unwrap();
    assert_eq!(bits, 16 + 300 * 8);
    let mut bytes = writer.finish().unwrap().to_vec();
    bytes.push(0xAA);

    let mut reader = ReferenceReader::new(&bytes);
    let (back, read) = BinaryData::decode(&mut reader, None).unwrap();
    assert_eq!(back, data);
    assert_eq!(read, bits);
    assert_eq!(reader.read_bytes(1).unwrap(), vec![0xAA]);
}

#[test]
fn binary_data_conversions_test() {
    let data = BinaryData::from(vec![1u8, 2, 3]);
    assert!(data == [1u8, 2, 3][..]);
    assert!(data == vec![1u8, 2, 3]);
    assert!(data != vec![1u8, 2]);
    assert_eq!(Vec::<u8>::from(data.clone()), vec![1, 2, 3]);
    assert_eq!(BinaryData::from(&[1u8, 2, 3][..]), data);

    let text = BinaryData::from("moqt");
    assert!(text == *"moqt");
    assert!(text == "moqt".to_owned());
    assert_eq!(String::from(text.clone()), "moqt".to_owned());
    assert_eq!(BinaryData::from("moqt".to_owned()), text);
}

#[test]
fn binary_data_lossy_string_test() {
    let data = BinaryData::new(&[0xff, b'a']);
    assert_eq!(data.string(), "\u{FFFD}a");
    assert_eq!(String::from(data), "\u{FFFD}a");
}
