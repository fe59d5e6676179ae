use bytes::Bytes;
use varint_core::{BinaryData, BinaryDataError, ReaderError, ReferenceReader, ReferenceWriter, Tuple, TupleError, VarInt, Writer};

const BUFFER: &[u8] = &[
    // x(i) = 2 tuples
    0b0000_0010,
    // x(i) = 3
    0b0000_0011,
    // 3 bytes, first BinaryData
    1,
    2,
    3,
    // x(i) = 5
    0b0000_0101,
    // 5 bytes, second BinaryData
    1,
    2,
    3,
    4,
    5,
];

fn expected() -> Tuple {
    Tuple::from(vec![
        BinaryData::new(&BUFFER[2..5]),
        BinaryData::new(&BUFFER[6..]),
    ])
}

#[test]
fn tuple_decode_test() {
    let mut reader = ReferenceReader::new(BUFFER);

    let (tuple, bits) = Tuple::decode(&mut reader, None).unwrap();
    assert_eq!(bits, BUFFER.len() * 8);
    assert_eq!(tuple, expected());
}

#[test]
fn tuple_varint_decode_test() {
    let mut reader = ReferenceReader::new(BUFFER);

    let valid = Tuple::decode(&mut reader, None);
    assert_eq!(valid, Ok((expected(), BUFFER.len() * 8)));
}

#[test]
fn tuple_encode_test() {
    let mut writer = ReferenceWriter::new();

    let tuple = expected();

    let bits = tuple.encode(&mut writer, None).unwrap();
    assert_eq!(bits, BUFFER.len() * 8);
    assert_eq!(writer.finish(), Ok(Bytes::from(BUFFER)));
}

#[test]
fn tuple_varint_encode_test() {
    let mut writer = ReferenceWriter::new();

    let tuple = expected();

    let bits: Result<usize, TupleError> = tuple.encode(&mut writer, None);
    assert_eq!(bits, Ok(BUFFER.len() * 8));
    assert_eq!(tuple.len_bits(), Ok(BUFFER.len() * 8));
    assert_eq!(writer.finish(), Ok(Bytes::from(BUFFER)));
}

#[test]
fn tuple_accessors_test() {
    let tuple = Tuple::from(vec![BinaryData::new(b"moq"), BinaryData::new(b"vod")]);
    assert_eq!(tuple.len(), 2);
    assert_eq!(
        tuple.bytes(),
        vec![Bytes::from_static(b"moq"), Bytes::from_static(b"vod")]
    );
    assert_eq!(tuple.strings(), vec!["moq".to_owned(), "vod".to_owned()]);
    assert_eq!(tuple.as_slice()[1], BinaryData::new(b"vod"));
    assert_eq!(Tuple::new(), Tuple::default());
    assert_eq!(Tuple::new().len(), 0);
}

#[test]
fn tuple_errors_test() {
    // the second byte string is cut short
    let mut reader = ReferenceReader::new(&BUFFER[..BUFFER.len() - 1]);
    assert!(matches!(
        Tuple::decode(&mut reader, None),
        Err(TupleError::BinaryData { .. })
    ));

    let mut reader = ReferenceReader::new(&[]);
    assert!(matches!(
        Tuple::decode(&mut reader, None),
        Err(TupleError::Number { .. })
    ));
}

#[test]
fn tuple_from_str_arrays_test() {
    let owned = Tuple::from(["moq", "vod"]);
    let borrowed = Tuple::from(&["moq", "vod"]);
    let expected = Tuple::from(vec![BinaryData::new(b"moq"), BinaryData::new(b"vod")]);
    assert_eq!(owned, expected);
    assert_eq!(borrowed, expected);
    let empty: [&str; 0] = [];
    assert_eq!(Tuple::from(empty).len(), 0);
    let slice: &[&str] = &["moq", "vod"];
    assert_eq!(Tuple::from(slice), expected);
    assert_eq!(Tuple::from(vec!["moq", "vod"]), expected);
}

#[test]
fn tuple_decode_exact_errors_test() {
    // the second byte string announces three bytes, one is there
    let mut reader = ReferenceReader::new(&[2, 1, 9, 3, 7]);
    assert_eq!(
        Tuple::decode(&mut reader, None),
        Err(TupleError::BinaryData {
            source: BinaryDataError::Reader {
                source: ReaderError::MissingBytes { needs: 3, left: 1 }
            }
        })
    );
}

#[test]
fn tuple_lossy_strings_test() {
    let tuple = Tuple::from(vec![BinaryData::new(b"ok"), BinaryData::new(&[b'x', 0xc3])]);
    assert_eq!(tuple.strings(), vec!["ok".to_owned(), "x\u{FFFD}".to_owned()]);
}
