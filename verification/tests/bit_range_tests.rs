use varint_core::bit_range::UNBOUNDED;
use varint_core::bitstore::{Error, InvalidBitLength};
use varint_core::convert::BitRangeConversion;
use varint_core::{BitRange, BitRangeError, Number, ReaderError, ReferenceReader, ReferenceWriter, VarInt, Writer};

type Open = BitRange<0, UNBOUNDED>;

#[test]
fn bit_range_from_buf_test() {
    const BUF: &[u8] = &[1, 2, 3];

    let valid = Open::from(BUF);
    assert_eq!(valid, BUF);
}

#[test]
fn mod_from_buf_test() {
    const BUF: &[u8] = &[1, 2, 3];

    let valid = Open::from(BUF);
    assert_eq!(valid, BUF);
    assert_eq!(valid.len_bits(), Ok(24));
}

#[test]
fn bit_range_from_str_test() {
    const STR_SLICE: &str = "message";
    let static_str: &'static str = "data";
    let owned_string = "my stuff".to_owned();

    let valid = Open::from(STR_SLICE);
    assert_eq!(valid, STR_SLICE);

    let valid = Open::from(static_str);
    assert_eq!(valid, static_str);

    let valid = Open::from(owned_string.clone());
    assert_eq!(valid, owned_string);
}

#[test]
fn mod_from_str_test() {
    const STR_SLICE: &str = "message";
    let static_str: &'static str = "data";
    let owned_string = "my stuff".to_owned();

    let valid = Open::from(STR_SLICE);
    assert_eq!(valid, STR_SLICE);

    let valid = Open::from(static_str);
    assert_eq!(valid, static_str);

    let valid = Open::from(owned_string.clone());
    assert_eq!(valid, owned_string);
}

#[test]
fn bit_range_set_number_test() {
    let mut base: BitRange<8, 16> = BitRange::default();

    base.set_number(8u8, None).unwrap();
    assert_eq!(base.number::<u16>(), 8);

    let invalid = base.set_number(u32::MAX, None).unwrap_err();
    assert_eq!(
        invalid,
        BitRangeError::InvalidCapacity {
            value: u32::MAX as u128,
            needs: 32,
            cap: 16
        }
    );
}

#[test]
fn bit_range_new_number_test() {
    let valid: BitRange<8, 16> = BitRange::new_number(123u16, None).unwrap();
    assert_eq!(valid.number::<u16>(), 123);

    let invalid = BitRange::<8, 16>::new_number(u32::MAX, None).unwrap_err();
    assert_eq!(
        invalid,
        BitRangeError::InvalidCapacity {
            value: u32::MAX as u128,
            needs: 32,
            cap: 16
        }
    );
}

#[test]
fn bit_range_eq_test() {
    assert_eq!(BitRange::<0, UNBOUNDED>::new_number(16u8, None).unwrap(), 16u32);
    assert_eq!(BitRange::<0, UNBOUNDED>::new_number(100u16, None).unwrap(), 100i32);
    assert_eq!(BitRange::<0, UNBOUNDED>::default(), 0);

    assert_ne!(BitRange::<8, 16>::new_number(100u128, None).unwrap(), -5);
    assert_ne!(BitRange::<8, 16>::default(), 100);
    assert_ne!(BitRange::<8, 16>::new_number(100u128, None).unwrap(), 1);
}

#[test]
fn bit_range_mod_eq_test() {
    assert_eq!(
        BitRange::<0, UNBOUNDED>::new_number(16u8, None).expect("will fit"),
        16u32
    );
    assert_eq!(
        BitRange::<0, UNBOUNDED>::new_number(100u16, None).expect("will fit"),
        100i32
    );
    assert_eq!(BitRange::<0, UNBOUNDED>::default(), 0);

    assert_ne!(
        BitRange::<8, 16>::new_number(100u128, None).expect("will fit"),
        -5
    );
    assert_ne!(BitRange::<8, 16>::default(), 100);
    assert_ne!(
        BitRange::<8, 16>::new_number(100u128, None).expect("will fit"),
        1
    );
}

#[test]
fn bit_range_ord_test() {
    let num: BitRange<8, 16> = BitRange::new_number(123u8, None).unwrap();
    assert!(num > 50u8);
    assert!(num > 50u64);
    assert!(num > 13i8);
    assert!(num < 250u16);
    assert!(num < 250u16);
    assert!(num == 123u64);
    assert!(num == 123u8);
}

#[test]
fn bit_range_mod_ord_test() {
    let num: BitRange<8, 16> = BitRange::new_number(123u8, None).expect("will fit");
    assert!(num > 50u8);
    assert!(num > 50u64);
    assert!(num > 13i8);
    assert!(num < 250u16);
    assert!(num < 250u16);
    assert!(num == 123u64);
    assert!(num == 123u8);
}

#[test]
fn bit_range_try_from_test() {
    let valid: BitRange<8, 16> = BitRange::try_from(5_123i16).unwrap();
    assert_eq!(valid, 5_123u16);

    let invalid = BitRange::<0, 2>::try_from(100).unwrap_err();
    assert_eq!(
        invalid,
        BitRangeConversion::Invalid {
            value: 100,
            source: BitRangeError::InvalidCapacity {
                value: 100,
                needs: 7,
                cap: 2
            }
        }
    );

    let invalid = BitRange::<8, 16>::try_from(-5).unwrap_err();
    assert_eq!(invalid, BitRangeConversion::IsNegative { value: -5 });

    assert_eq!(u16::try_from(valid.clone()).unwrap(), 5_123);
    assert_eq!(
        u8::try_from(valid).unwrap_err(),
        BitRangeConversion::UnFit {
            value: 5_123,
            max: u8::MAX
        }
    );
}

#[test]
fn bit_range_mod_try_from_test() {
    let valid: BitRange<8, 16> = BitRange::try_from(5_123i16).expect("will fit");
    assert_eq!(valid, 5_123u16);

    let invalid = BitRange::<0, 2>::try_from(100);
    assert_eq!(
        invalid,
        Err(BitRangeConversion::Invalid {
            value: 100,
            source: BitRangeError::InvalidCapacity {
                value: 100,
                needs: 7,
                cap: 2
            }
        })
    );

    let invalid = BitRange::<8, 16>::try_from(-5);
    assert_eq!(invalid, Err(BitRangeConversion::IsNegative { value: -5 }));

    assert_eq!(u16::try_from(valid.clone()).expect("will fit"), 5_123);
    assert_eq!(
        u8::try_from(valid),
        Err(BitRangeConversion::UnFit {
            value: 5_123,
            max: u8::MAX
        })
    );
}

#[test]
fn bit_range_new_bytes_test() {
    let valid = BitRange::<8, 16>::new_bytes(&[0b1100_0011, 0b0011_0000], Some(12)).unwrap();
    assert_eq!(*valid.bytes(), [0b1100_0011, 0b0011_0000]);
}

#[test]
fn varint_bytes_new_bytes_test() {
    let valid =
        BitRange::<8, 16>::new_bytes(&[0b1100_0011, 0b0011_0000], Some(12)).expect("will fit");
    assert_eq!(*valid.bytes(), [0b1100_0011, 0b0011_0000]);
    assert_eq!(valid.number::<u16>(), 0b1100_0011_0011);
}

#[test]
fn bit_range_bytes_test() {
    let num = BitRange::<8, 64>::new_number(u32::MAX as u64 + 1, None).unwrap();

    assert_eq!(*num.bytes(), [128, 0, 0, 0, 0]);
    assert_eq!(num, u32::MAX as u64 + 1)
}

#[test]
fn varint_bytes_bytes_test() {
    let num = BitRange::<8, 64>::new_number(u32::MAX as u64 + 1, None).expect("will fit");

    assert_eq!(*num.bytes(), [128, 0, 0, 0, 0]);
    assert_eq!(num, u32::MAX as u64 + 1)
}

#[test]
fn bit_range_set_bytes_test() {
    let mut num = BitRange::<8, 16>::default();
    num.set_bytes([1u8, 0].as_slice(), Some(9)).unwrap();

    assert_eq!(num, 2);
    assert_eq!(*num.bytes(), [1, 0]);
}

#[test]
fn varint_bytes_set_bytes_test() {
    let mut num = BitRange::<8, 16>::default();
    num.set_bytes([1u8, 0].as_slice(), Some(9)).expect("will fit");

    assert_eq!(num, 2);
    assert_eq!(*num.bytes(), [1, 0]);
}

#[test]
fn bit_range_set_bytes_error_test() {
    let mut num = BitRange::<8, 16>::default();
    assert_eq!(
        num.set_bytes(&[1, 2, 3], None),
        Err(BitRangeError::BitStore {
            source: Error::InvalidLength {
                source: InvalidBitLength {
                    got: 24,
                    min: 8,
                    max: 16
                }
            }
        })
    );
}

const BUFFER: &[u8] = &[
    // x(i) = 20
    0b0001_0100,
    // 20 bits = 0b0000 0b0000_0000 0b0000_1000 = 8
    0b0000_0000,
    0b0000_0000,
    0b1000_0000, // final 12 bits = 0b0000 0b0001_0000 = 16
    0b0001_0000,
];

#[test]
fn bit_range_decode_test() {
    let mut reader = ReferenceReader::new(BUFFER);
    let mut length = BUFFER.len() * 8;

    let (len, bits) = Number::decode(&mut reader, None).unwrap();
    assert_eq!(bits, 8);
    length -= bits;

    let (valid, bits) = BitRange::<8, 32>::decode(&mut reader, Some(len.number())).unwrap();
    assert_eq!(len, bits);
    assert_eq!(valid, 8);
    assert_eq!(*valid.bytes(), [0b0000_0000, 0b0000_0000, 0b1000_0000]);
    length -= bits;

    let (valid, bits) = Open::decode(&mut reader, Some(length)).unwrap();
    assert_eq!(bits, 12);
    assert_eq!(valid, 16);
    assert_eq!(*valid.bytes(), [0b0000_0001, 0b0000]);
    length -= bits;

    assert!(length == 0);
}

#[test]
fn bit_range_varint_decode_test() {
    let mut reader = ReferenceReader::new(BUFFER);
    let mut length = BUFFER.len() * 8;

    let (len, bits) = Number::decode(&mut reader, None).expect("will fit");
    assert_eq!(bits, 8);
    length -= bits;

    let (valid, bits) =
        BitRange::<8, 32>::decode(&mut reader, Some(len.number())).expect("will fit");
    assert_eq!(len, bits);
    assert_eq!(valid, 8);
    assert_eq!(*valid.bytes(), [0b0000_0000, 0b0000_0000, 0b1000_0000]);
    length -= bits;

    let (valid, bits) = Open::decode(&mut reader, Some(length)).expect("will fit");
    assert_eq!(bits, 12);
    assert_eq!(valid, 16);
    assert_eq!(*valid.bytes(), [0b0000_0001, 0b0000]);
    length -= bits;

    assert!(length == 0);
}

#[test]
fn bit_range_decode_errors_test() {
    let mut reader = ReferenceReader::new(BUFFER);
    assert_eq!(
        BitRange::<8, 32>::decode(&mut reader, None),
        Err(BitRangeError::MissingLength)
    );
    assert_eq!(
        BitRange::<8, 32>::decode(&mut reader, Some(4)),
        Err(BitRangeError::InvalidLength {
            got: 4,
            min: 8,
            max: 32
        })
    );
    assert_eq!(
        Open::decode(&mut reader, Some(48)),
        Err(BitRangeError::Reader {
            source: ReaderError::MissingBytes { needs: 6, left: 5 }
        })
    );
}

#[test]
fn bit_range_encode_test() {
    let mut writer = ReferenceWriter::new();
    let mut length = BUFFER.len() * 8;

    let len = Number::new(20u8);
    let bits = len.encode(&mut writer, None).unwrap();
    assert_eq!(bits, 8);
    length -= bits;

    let num = BitRange::<8, 32>::new_number(8u8, Some(len.number())).unwrap();
    let bits = num.encode(&mut writer, Some(len.number())).unwrap();
    assert_eq!(bits, 20);
    length -= bits;

    let num = Open::new_number(16u8, Some(length)).unwrap();
    let bits = num.encode(&mut writer, Some(length)).unwrap();
    assert_eq!(bits, 12);
    length -= bits;

    assert!(length == 0);

    assert_eq!(writer.finish().unwrap(), BUFFER);
}

#[test]
fn bit_range_varint_encode_test() {
    let mut writer = ReferenceWriter::new();
    let mut length = BUFFER.len() * 8;

    let len = Number::new(20u8);
    let bits = len.encode(&mut writer, None).expect("will fit");
    assert_eq!(bits, 8);
    length -= bits;

    let num = BitRange::<8, 32>::new_number(8u8, Some(len.number())).expect("will fit");
    let bits = num
        .encode(&mut writer, Some(len.number()))
        .expect("will fit");
    assert_eq!(bits, 20);
    length -= bits;

    let num = Open::new_number(16u8, Some(length)).expect("will fit");
    let bits = num.encode(&mut writer, Some(length)).expect("will fit");
    assert_eq!(bits, 12);
    length -= bits;

    assert!(length == 0);

    assert_eq!(writer.finish().expect("will fit"), BUFFER);
    assert_eq!(num.encode(&mut ReferenceWriter::new(), None), Err(BitRangeError::MissingLength));
}

#[test]
fn bit_range_set_number_error_keeps_range_test() {
    let mut base: BitRange<8, 16> = BitRange::default();
    base.set_number(300u16, None).unwrap();
    assert_eq!(base.len_bits(), Ok(9));
    assert!(base.set_number(u32::MAX, None).is_err());
    assert_eq!(base.number::<u16>(), 300);
    assert_eq!(base.len_bits(), Ok(9));
}
