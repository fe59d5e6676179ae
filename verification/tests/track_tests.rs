use varint_core::bit_range::UNBOUNDED;
use varint_core::{BinaryData, BitRange, BitRangeError, BinaryDataError, Name, NumberError, ReaderError, TupleError, Namespace, ReferenceReader, ReferenceWriter, Tuple, TrackError, VarInt, Writer};

fn round_trip<T: VarInt + PartialEq + std::fmt::Debug>(value: T, bytes: Vec<u8>, bits: usize)
where
    T::Error: std::fmt::Debug,
{
    let mut writer = ReferenceWriter::new();
    assert_eq!(value.encode(&mut writer, None).unwrap(), bits);
    assert_eq!(value.len_bits().unwrap(), bits);
    assert_eq!(writer.finish().unwrap(), bytes);

    let mut reader = ReferenceReader::new(&bytes);
    let (decoded, read) = T::decode(&mut reader, None).unwrap();
    assert_eq!(decoded, value);
    assert_eq!(read, bits);
}

#[test]
fn name_test() {
    let v1 = Name::new("moqt");
    assert_eq!(v1, Name::from("moqt"));
    let b1 = [
        4, // length 4
        b'm', b'o', b'q', b't', // track name "moqt"
    ]
    .to_vec();
    let l1 = b1.len() * 8;
    round_trip(v1, b1, l1);
    assert!(!Name::length_required());
}

#[test]
fn name_from_bytes_test() {
    let v = Name::new(BitRange::<0, UNBOUNDED>::from(&b"ab"[..]));
    round_trip(v, vec![2, b'a', b'b'], 24);
}

#[test]
fn name_decode_error_test() {
    let mut reader = ReferenceReader::new(&[5, b'a']);
    assert_eq!(
        Name::decode(&mut reader, None),
        Err(TrackError::BitRange {
            source: BitRangeError::Reader {
                source: ReaderError::MissingBytes { needs: 5, left: 1 }
            }
        })
    );

    let mut reader = ReferenceReader::new(&[]);
    assert_eq!(
        Name::decode(&mut reader, None),
        Err(TrackError::Number {
            source: NumberError::Reader {
                source: ReaderError::MissingBytes { needs: 1, left: 0 }
            }
        })
    );
}

#[test]
fn namespace_test() {
    let v1 = Namespace::from(&["moq", "vod", "banana"]);
    let b1 = [
        [
            3, // len 3
            3, // len of first name
        ]
        .to_vec(),
        b"moq".to_vec(),
        [
            3, // len of second name
        ]
        .to_vec(),
        b"vod".to_vec(),
        [
            6, // len of third name
        ]
        .to_vec(),
        b"banana".to_vec(),
    ]
    .concat();
    let l1 = b1.len() * 8;
    round_trip(v1, b1, l1);

    let v2 = Namespace::from(["test.com"]);
    let b2 = [[1, 8].to_vec(), b"test.com".to_vec()].concat();
    let l2 = b2.len() * 8;
    round_trip(v2, b2, l2);
}

#[test]
fn namespace_new_matches_from_test() {
    assert_eq!(
        Namespace::new(["a", "bc"]),
        Namespace::from(Tuple::from(vec![BinaryData::new(b"a"), BinaryData::new(b"bc")]))
    );
    assert_eq!(
        Namespace::new(&["x"]),
        Namespace::new(vec![BinaryData::new(b"x")])
    );
}

#[test]
fn namespace_decode_error_test() {
    let mut reader = ReferenceReader::new(&[2, 1, 9]);
    assert_eq!(
        Namespace::decode(&mut reader, None),
        Err(TrackError::Tuple {
            source: TupleError::BinaryData {
                source: BinaryDataError::Number {
                    source: NumberError::Reader {
                        source: ReaderError::MissingBytes { needs: 1, left: 0 }
                    }
                }
            }
        })
    );
}

#[test]
fn name_string_test() {
    assert_eq!(Name::new("moqt").string(), "moqt");
    assert_eq!(Name::new(&[b'a', 0xff][..]).string(), "a\u{FFFD}");
}
