use bytes::Bytes;
use varint_core::bit_range::UNBOUNDED;
use varint_core::{BitRange, BitRangeError, KeyValuePair, NumberError, ReaderError, KeyValuePairError, ReferenceReader, ReferenceWriter, Value, VarInt, Writer};

const BUF: &[u8] = &[
    0x0, // number
    5,   //
    0x1, // bytes
    4,   // num bytes
    1, 2, 3, 4, //
];

#[test]
fn varint_test() {
    let mut reader = ReferenceReader::new(BUF);

    let valid = KeyValuePair::decode(&mut reader, None);
    assert_eq!(
        valid,
        Ok((
            KeyValuePair {
                key: 0u8.into(),
                value: Value::Number(5u8.into())
            },
            16
        ))
    );
    let kvp1 = valid.expect("is ok").0;

    let valid = KeyValuePair::decode(&mut reader, None);
    assert_eq!(
        valid,
        Ok((
            KeyValuePair {
                key: 1u8.into(),
                value: Value::Bytes(BitRange::<0, UNBOUNDED>::from(&[1u8, 2, 3, 4][..]))
            },
            48
        ))
    );
    let kvp2 = valid.expect("is ok").0;

    let mut writer = ReferenceWriter::new();

    let valid = kvp1.encode(&mut writer, None);
    assert_eq!(valid, Ok(16));

    let valid = kvp2.encode(&mut writer, None);
    assert_eq!(valid, Ok(48));

    assert_eq!(kvp1.len_bits(), Ok(16));
    assert_eq!(kvp2.len_bits(), Ok(48));
    assert_eq!(writer.finish(), Ok(Bytes::from(BUF.to_vec())));
}

#[test]
fn kvp_decode_error_test() {
    // odd key, four bytes announced, two there
    let mut reader = ReferenceReader::new(&[0x3, 4, 1, 2]);
    assert!(matches!(
        KeyValuePair::decode(&mut reader, None),
        Err(KeyValuePairError::Bytes { .. })
    ));

    // even key, value missing
    let mut reader = ReferenceReader::new(&[0x2]);
    assert!(matches!(
        KeyValuePair::decode(&mut reader, None),
        Err(KeyValuePairError::Number { .. })
    ));
}

#[test]
fn key_value_decode_exact_errors_test() {
    // odd key, three bytes announced, one there
    let mut reader = ReferenceReader::new(&[1, 3, b'a']);
    assert_eq!(
        KeyValuePair::decode(&mut reader, None),
        Err(KeyValuePairError::Bytes {
            source: BitRangeError::Reader {
                source: ReaderError::MissingBytes { needs: 3, left: 1 }
            }
        })
    );
    // a key and no value
    let mut reader = ReferenceReader::new(&[2]);
    assert_eq!(
        KeyValuePair::decode(&mut reader, None),
        Err(KeyValuePairError::Number {
            source: NumberError::Reader {
                source: ReaderError::MissingBytes { needs: 1, left: 0 }
            }
        })
    );
}
