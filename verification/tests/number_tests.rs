use std::time::Duration;
use bytes::Bytes;
use varint_core::convert::NumberConversion;
use varint_core::number::MAX_U62;
use varint_core::{Number, NumberError, ReaderError, ReferenceReader, ReferenceWriter, VarInt, Writer};

#[test]
fn number_default_test() {
    assert_eq!(Number::default(), 0);
}

#[test]
fn number_set_number_test() {
    let mut base = Number::default();

    let valid = base.set_number(8u8, None);
    assert!(valid.is_ok());
    assert_eq!(base, 8);

    let valid = base.set_number(700u16, None);
    assert!(valid.is_ok());
    assert_eq!(base, 700);

    let valid = base.set_number(2_123_789u32, None);
    assert!(valid.is_ok());
    assert_eq!(base, 2_123_789);

    let valid = base.set_number(MAX_U62, None);
    assert!(valid.is_ok());
    assert_eq!(base, MAX_U62);

    let err = base.set_number(MAX_U62 + 1, None);
    assert_eq!(
        err,
        Err(NumberError::TooLarge {
            num: MAX_U62 as u128 + 1
        })
    );
}

#[test]
fn varint_number_set_number_test() {
    let mut base = Number::default();

    let valid = base.set_number(8u8, None);
    assert!(valid.is_ok());
    assert_eq!(base, 8);

    let valid = base.set_number(700u16, None);
    assert!(valid.is_ok());
    assert_eq!(base, 700);

    let valid = base.set_number(2_123_789u32, None);
    assert!(valid.is_ok());
    assert_eq!(base, 2_123_789);

    let valid = base.set_number(MAX_U62, None);
    assert!(valid.is_ok());
    assert_eq!(base, MAX_U62);

    let err = base.set_number(MAX_U62 + 1, None);
    assert_eq!(
        err,
        Err(NumberError::TooLarge {
            num: MAX_U62 as u128 + 1
        })
    );
    // a refused number leaves the old one
    assert_eq!(base, MAX_U62);
}

#[test]
fn number_new_test() {
    let valid = Number::new(15u8);
    assert_eq!(valid.number::<u8>(), 15u8);
    assert_eq!(valid.number::<u16>(), 15);

    let valid = Number::new(537u16);
    assert_eq!(valid.number::<u16>(), 537);

    let valid = Number::new(2_123_789u32);
    assert_eq!(valid.number::<u32>(), 2_123_789);
}

#[test]
fn mod_new_test() {
    let valid = Number::new(15u8);
    assert_eq!(valid.number::<u8>(), 15u8);
    assert_eq!(valid.number::<u16>(), 15);

    let valid = Number::new(537u16);
    assert_eq!(valid.number::<u16>(), 537);

    let valid = Number::new(2_123_789u32);
    assert_eq!(valid.number::<u32>(), 2_123_789);
}

#[test]
fn try_new_test() {
    let valid = Number::try_new(15u8);
    assert_eq!(valid, Ok(Number::new(15u16)));

    let valid = Number::try_new(9_000_000_000u64);
    assert_eq!(valid.map(|n| n.number::<u64>()), Ok(9_000_000_000u64));

    let valid = Number::try_new(MAX_U62);
    assert_eq!(valid.map(|n| n.number::<u64>()), Ok(MAX_U62));

    let valid = Number::try_new(MAX_U62 + 1);
    assert_eq!(
        valid,
        Err(NumberError::TooLarge {
            num: MAX_U62 as u128 + 1
        })
    );
}

#[test]
fn varint_number_new_number_test() {
    let valid = Number::new_number(15u8, None);
    assert_eq!(valid, Ok(Number::new(15u16)));

    let valid = Number::new_number(9_000_000_000u64, None);
    assert_eq!(valid.map(|n| n.number::<u64>()), Ok(9_000_000_000u64));

    let valid = Number::new_number(MAX_U62, None);
    assert_eq!(valid.map(|n| n.number::<u64>()), Ok(MAX_U62));

    let valid = Number::new_number(MAX_U62 + 1, None);
    assert_eq!(
        valid,
        Err(NumberError::TooLarge {
            num: MAX_U62 as u128 + 1
        })
    );
}

#[test]
fn number_test() {
    let valid = Number::new(15u8);
    assert_eq!(valid.number::<u8>(), 15);

    let valid = Number::new(789u32);
    assert_eq!(valid.number::<u16>(), 789);

    let valid = Number::new(u32::MAX);
    assert_eq!(valid.number::<u64>(), u32::MAX as u64);

    let valid = Number::new(0u8);
    assert_ne!(valid.number::<u8>(), 15);
}

#[test]
fn number_too_small_type_reads_zero_test() {
    let valid = Number::new(789u32);
    assert_eq!(valid.number::<u8>(), 0);
}

#[test]
fn number_eq_test() {
    assert_eq!(Number::new(123u8), 123);
    assert_eq!(Number::new(537u16), 537);
    assert_eq!(Number::new(2_123_789u32), 2_123_789);

    assert_ne!(Number::new(123u8), -5);
    assert_ne!(Number::new(234u8), i128::MIN);
    assert_ne!(Number::new(123u16), i64::MAX);
}

#[test]
fn mod_eq_test() {
    assert_eq!(Number::new(123u8), 123);
    assert_eq!(Number::new(537u16), 537);
    assert_eq!(Number::new(2_123_789u32), 2_123_789);

    assert_ne!(Number::new(123u8), -5);
    assert_ne!(Number::new(234u8), i128::MIN);
    assert_ne!(Number::new(123u16), i64::MAX);
}

#[test]
fn number_ord_test() {
    let num = Number::new(123u8);
    assert!(num > 50u8);
    assert!(num > 50u64);
    assert!(num > 13i8);
    assert!(num < 250u16);
    assert!(num < 250u16);
    assert!(num == 123u64);
    assert!(num == 123u8);
}

#[test]
fn mod_ord_test() {
    let num = Number::new(123u8);
    assert!(num > 50u8);
    assert!(num > 50u64);
    assert!(num > 13i8);
    assert!(num < 250u16);
    assert!(num < 250u16);
    assert!(num == 123u64);
    assert!(num == 123u8);
}

#[test]
fn number_from_test() {
    let num = Number::from(40u8);
    assert_eq!(num, 40);
    assert_eq!(u64::from(num.clone()), 40);
    assert_eq!(u64::from(num), 40);

    let num = Number::from(537u16);
    assert_eq!(num, 537);

    let num = Number::from(2_223_789_999u32);
    assert_eq!(num, 2_223_789_999u64);

    let invalid = i32::try_from(num.clone());
    assert_eq!(
        invalid,
        Err(NumberConversion::UnFit {
            value: num,
            max: i32::MAX
        })
    );
}

#[test]
fn mod_from_test() {
    let num = Number::from(40u8);
    assert_eq!(num, 40);
    assert_eq!(u64::from(num.clone()), 40);
    assert_eq!(u128::from(num), 40);

    let num = Number::from(537u16);
    assert_eq!(num, 537);

    let num = Number::from(2_223_789_999u32);
    assert_eq!(num, 2_223_789_999u64);

    let invalid = i32::try_from(num.clone());
    assert_eq!(
        invalid,
        Err(NumberConversion::UnFit {
            value: num,
            max: i32::MAX
        })
    );
}

#[test]
fn number_try_from_test() {
    let Ok(valid) = Number::try_from(9_000_000_000u64) else {
        unreachable!("is valid u62 number")
    };
    assert_eq!(valid, 9_000_000_000u64);

    let Ok(valid) = Number::try_from(MAX_U62) else {
        unreachable!("is valid u62 number")
    };
    assert_eq!(valid, MAX_U62);

    let invalid = Number::try_from(MAX_U62 + 1);
    assert_eq!(
        invalid,
        Err(NumberConversion::Invalid {
            value: MAX_U62 + 1,
            source: NumberError::TooLarge {
                num: MAX_U62 as u128 + 1
            }
        })
    );

    let invalid = Number::try_from(-1);
    assert_eq!(invalid, Err(NumberConversion::IsNegative { value: -1 }));

    let num = Number::new(537u16);
    let invalid = u8::try_from(num.clone());
    assert_eq!(
        invalid,
        Err(NumberConversion::UnFit {
            value: num,
            max: u8::MAX
        })
    );

    let num = Number::new(2_223_789_999u32);
    let invalid = i32::try_from(num.clone());
    assert_eq!(
        invalid,
        Err(NumberConversion::UnFit {
            value: num,
            max: i32::MAX
        })
    );
}

#[test]
fn mod_try_from_test() {
    let Ok(valid) = Number::try_from(9_000_000_000u64) else {
        unreachable!("is valid u62 number")
    };
    assert_eq!(valid, 9_000_000_000u64);

    let invalid = Number::try_from(-1);
    assert_eq!(invalid, Err(NumberConversion::IsNegative { value: -1 }));

    let num = Number::new(537u16);
    assert_eq!(u16::try_from(num.clone()), Ok(537));
    assert_eq!(
        u8::try_from(num.clone()),
        Err(NumberConversion::UnFit {
            value: num,
            max: u8::MAX
        })
    );
}

const VALID_U6_BUF: &[u8] = &[0b0000_1000];
const VALID_U14_BUF: &[u8] = &[0b0100_1000, 0b0000_0000];
const VALID_U30_BUF: &[u8] = &[0b1000_0000, 0b0000_1000, 0b0000_0000, 0b0000_0000];
const VALID_U62_BUF: &[u8] = &[
    0b1100_0000,
    0b0000_1000,
    0b0000_0000,
    0b0000_0000,
    0b0000_0000,
    0b0000_0000,
    0b0000_0000,
    0b0000_0000,
];
const VALID_NUM_U6: u8 = 8;
const VALID_NUM_U14: u16 = 2_048;
const VALID_NUM_U30: u32 = 524_288;
const VALID_NUM_U62: u64 = 2_251_799_813_685_248;

fn all_buffers() -> Vec<u8> {
    [
        VALID_U6_BUF.to_vec(),
        VALID_U14_BUF.to_vec(),
        VALID_U30_BUF.to_vec(),
        VALID_U62_BUF.to_vec(),
    ]
    .concat()
}

#[test]
fn number_decode_test() {
    let buf = all_buffers();
    let mut reader = ReferenceReader::new(&buf);

    let valid = Number::decode(&mut reader, None);
    assert_eq!(valid, Ok((Number::from(VALID_NUM_U6), 8)));

    let valid = Number::decode(&mut reader, None);
    assert_eq!(valid, Ok((Number::from(VALID_NUM_U14), 16)));

    let valid = Number::decode(&mut reader, None);
    assert_eq!(valid, Ok((Number::from(VALID_NUM_U30), 32)));

    let valid = Number::decode(&mut reader, None);
    assert_eq!(valid, Ok((Number::try_from(VALID_NUM_U62).unwrap(), 64)));
}

#[test]
fn number_varint_decode_test() {
    let buf = all_buffers();
    let mut reader = ReferenceReader::new(&buf);

    let valid = Number::decode(&mut reader, None);
    assert_eq!(valid, Ok((Number::from(VALID_NUM_U6), 8)));

    let valid = Number::decode(&mut reader, None);
    assert_eq!(valid, Ok((Number::from(VALID_NUM_U14), 16)));

    let valid = Number::decode(&mut reader, None);
    assert_eq!(valid, Ok((Number::from(VALID_NUM_U30), 32)));

    let valid = Number::decode(&mut reader, None);
    assert_eq!(
        valid,
        Ok((Number::try_from(VALID_NUM_U62).expect("will fit"), 64))
    );
}

#[test]
fn number_encode_test() {
    let buf = all_buffers();
    let mut writer = ReferenceWriter::new();

    let valid = Number::from(VALID_NUM_U6).encode(&mut writer, None);
    assert_eq!(valid, Ok(8));

    let valid = Number::from(VALID_NUM_U14).encode(&mut writer, None);
    assert_eq!(valid, Ok(16));

    let valid = Number::from(VALID_NUM_U30).encode(&mut writer, None);
    assert_eq!(valid, Ok(32));

    let Ok(num) = Number::try_from(VALID_NUM_U62) else {
        unreachable!("valid u62 number")
    };
    let valid = num.encode(&mut writer, None);
    assert_eq!(valid, Ok(64));

    assert_eq!(writer.finish(), Ok(Bytes::from(buf)));
}

#[test]
fn number_varint_encode_test() {
    let mut writer = ReferenceWriter::new();

    let valid = Number::from(VALID_NUM_U6).encode(&mut writer, None);
    assert_eq!(valid, Ok(8));

    let valid = Number::from(VALID_NUM_U14).encode(&mut writer, None);
    assert_eq!(valid, Ok(16));

    let valid = Number::from(VALID_NUM_U30).encode(&mut writer, None);
    assert_eq!(valid, Ok(32));

    let valid = Number::try_from(VALID_NUM_U62)
        .expect("will fit")
        .encode(&mut writer, None);
    assert_eq!(valid, Ok(64));

    assert_eq!(writer.finish(), Ok(Bytes::from(all_buffers())))
}

#[test]
fn number_round_trip_test() {
    for v in [0u64, 1, 63, 64, 16_383, 16_384, 1_073_741_823, 1_073_741_824, MAX_U62] {
        let mut writer = ReferenceWriter::new();
        let n = Number::try_new(v).unwrap();
        let bits = n.encode(&mut writer, None).unwrap();
        assert_eq!(Ok(bits), n.len_bits());
        let bytes = writer.finish().unwrap();
        let mut reader = ReferenceReader::new(&bytes);
        let (back, read) = Number::decode(&mut reader, None).unwrap();
        assert_eq!(back.number::<u64>(), v);
        assert_eq!(read, bits);
    }
}

#[test]
fn number_smallest_encoding_test() {
    let mut writer = ReferenceWriter::new();
    assert_eq!(Number::new(63u8).encode(&mut writer, None), Ok(8));
    assert_eq!(Number::new(64u8).encode(&mut writer, None), Ok(16));
    assert_eq!(
        writer.finish(),
        Ok(Bytes::from(vec![0b0011_1111, 0b0100_0000, 0b0100_0000]))
    );
}

#[test]
fn number_decode_errors_test() {
    let mut reader = ReferenceReader::new(&[0b0100_0000]);
    assert_eq!(
        Number::decode(&mut reader, None),
        Err(NumberError::Reader {
            source: ReaderError::MissingBytes { needs: 1, left: 0 }
        })
    );

    let mut reader = ReferenceReader::new(&[0b1100_0000, 1, 2]);
    assert_eq!(
        Number::decode(&mut reader, None),
        Err(NumberError::Reader {
            source: ReaderError::MissingBytes { needs: 7, left: 2 }
        })
    );

    let mut writer = ReferenceWriter::new();
    writer.write_bits(1, &[0]);
    assert!(matches!(
        Number::new(1u8).encode(&mut writer, None),
        Err(NumberError::Writer { .. })
    ));
}

#[test]
fn number_from_str_number_test() {
    assert_eq!("0x10".parse::<Number>(), Ok(Number::new(16u8)));
    assert_eq!("42".parse::<Number>(), Ok(Number::new(42u8)));
    assert!(matches!(
        "-1".parse::<Number>(),
        Err(NumberError::String { .. })
    ));
    assert_eq!(
        "0xFFFFFFFFFFFFFFFF".parse::<Number>(),
        Err(NumberError::TooLarge {
            num: u64::MAX as u128
        })
    );
}

#[test]
fn number_duration_test() {
    assert_eq!(Duration::from(Number::new(1500u16)), Duration::from_millis(1500));
    assert_eq!(Number::try_from(Duration::from_secs(2)), Ok(Number::new(2000u16)));
    assert_eq!(
        Number::try_from(Duration::from_secs(u64::MAX)),
        Err(NumberError::TooLarge {
            num: u64::MAX as u128 * 1000
        })
    );
}

#[test]
fn number_from_wide_integers_test() {
    let wide = (1u128 << 64) + 5;
    assert_eq!(
        Number::try_from(wide),
        Err(NumberConversion::Invalid {
            value: wide,
            source: NumberError::TooLarge { num: wide }
        })
    );
    assert_ne!(Number::new(5u8), wide);
    assert!(Number::new(5u8) < wide);
    assert_eq!(Number::new(5u8), 5u128);
}
