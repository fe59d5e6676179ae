use varint_core::convert::ConversionError;
use varint_core::{BitNumber, BitNumberError, ReferenceReader, ReferenceWriter, VarInt, Writer, WriterError};

type Bits<const N: usize> = BitNumber<N, 0, { u128::MAX }>;

#[test]
fn bit_number_set_number_test() {
    let mut num = Bits::<16>::default();
    let valid = num.set_number(15u8);
    assert!(valid.is_ok());
    assert_eq!(num.number::<u16>(), 15);

    let invalid = num.set_number(u32::MAX);
    assert_eq!(
        invalid,
        Err(BitNumberError::InvalidCapacity {
            value: u32::MAX,
            needs: 32,
            cap: 16
        })
    );

    let mut num = BitNumber::<8, 5, { u128::MAX }>::default();
    let valid = num.set_number(100u8);
    assert!(valid.is_ok());
    assert_eq!(num.number::<u16>(), 100);

    let invalid = num.set_number(3u8);
    assert_eq!(
        invalid,
        Err(BitNumberError::OutOfRange {
            value: 3u8,
            min: 5,
            max: u128::MAX
        })
    );

    let mut num = BitNumber::<8, 0, 20>::default();
    let valid = num.set_number(20u8);
    assert!(valid.is_ok());
    assert_eq!(num.number::<u16>(), 20);

    let invalid = num.set_number(21u8);
    assert_eq!(
        invalid,
        Err(BitNumberError::OutOfRange {
            value: 21u8,
            min: 0,
            max: 20
        })
    );
}

#[test]
fn bit_number_new_test() {
    let num = Bits::<16>::new(15u8);
    assert_eq!(num.map(|n| n.number::<u16>()), Ok(15));

    let invalid = Bits::<16>::new(u32::MAX);
    assert_eq!(
        invalid,
        Err(BitNumberError::InvalidCapacity {
            value: u32::MAX,
            needs: 32,
            cap: 16
        })
    );

    let num = BitNumber::<8, 5, { u128::MAX }>::new(100u8);
    assert_eq!(num.map(|n| n.number::<u16>()), Ok(100));

    let invalid = BitNumber::<8, 5, { u128::MAX }>::new(3u8);
    assert_eq!(
        invalid,
        Err(BitNumberError::OutOfRange {
            value: 3u8,
            min: 5,
            max: u128::MAX
        })
    );

    let num = BitNumber::<8, 0, 20>::new(20u8);
    assert_eq!(num.map(|n| n.number::<u16>()), Ok(20));

    let invalid = BitNumber::<8, 0, 20>::new(21u8);
    assert_eq!(
        invalid,
        Err(BitNumberError::OutOfRange {
            value: 21u8,
            min: 0,
            max: 20
        })
    );
}

#[test]
fn bit_number_eq_test() {
    assert_eq!(Bits::<8>::new(100u8).unwrap(), 100u16);
    assert_eq!(BitNumber::<16, 10, { u128::MAX }>::new(10u16).unwrap(), 10i16);
    assert_eq!(BitNumber::<8, 0, 100>::new(100u8).unwrap(), 100u16);

    assert_ne!(Bits::<8>::new(100u8).unwrap(), 101i128);
    assert_ne!(BitNumber::<16, 10, { u128::MAX }>::new(10u16).unwrap(), -5);
    assert_ne!(BitNumber::<32, 0, 1>::new(1u128).unwrap(), 100u16);
}

#[test]
fn bit_number_ord_test() {
    let num: BitNumber<32, 5, 1_000> = BitNumber::new(123u8).unwrap();
    assert!(num > 50u8);
    assert!(num > 50u64);
    assert!(num > 13i8);
    assert!(num < 250u16);
    assert!(num < 250u16);
    assert!(num == 123u64);
    assert!(num == 123u8);
}

#[test]
fn bit_number_try_from_test() {
    let valid: Bits<16> = BitNumber::try_from(5_123u16).unwrap();
    assert_eq!(valid, 5_123u64);

    let valid: BitNumber<16, 5, { u128::MAX }> = BitNumber::try_from(5i8).unwrap();
    assert_eq!(valid, 5u8);

    let invalid = BitNumber::<8, 0, 10>::try_from(11);
    assert_eq!(
        invalid,
        Err(ConversionError::Invalid {
            value: 11,
            source: BitNumberError::OutOfRange {
                value: 11,
                min: 0,
                max: 10
            }
        })
    );

    let invalid = Bits::<8>::try_from(-1);
    assert_eq!(invalid, Err(ConversionError::IsNegative { value: -1 }));

    let invalid = Bits::<1>::try_from(2u128);
    assert_eq!(
        invalid,
        Err(ConversionError::Invalid {
            value: 2,
            source: BitNumberError::InvalidCapacity {
                value: 2,
                needs: 2,
                cap: 1
            }
        })
    );

    let num: Bits<16> = BitNumber::try_from(5_123u16).unwrap();
    assert_eq!(u16::try_from(num.clone()).unwrap(), 5_123);
    assert_eq!(
        u8::try_from(num).unwrap_err(),
        ConversionError::UnFit {
            value: 5_123,
            max: u8::MAX
        }
    );
}

const BUFFER: &[u8] = &[
    0b0000_0000,
    0b0100_0000,
    0b0001_1111,
    0b0011_1000,
    0b0000_0000,
    0b0111_1011,
];

#[test]
fn bit_number_decode_test() {
    let mut reader = ReferenceReader::new(BUFFER);

    let (num, bits) = Bits::<20>::decode(&mut reader, None).unwrap();
    assert_eq!(bits, 20);
    assert_eq!(num, 1025);

    let (num, bits) = Bits::<4>::decode(&mut reader, None).unwrap();
    assert_eq!(bits, 4);
    assert_eq!(num, 15);

    let (num, bits) = Bits::<5>::decode(&mut reader, None).unwrap();
    assert_eq!(bits, 5);
    assert_eq!(num, 7);

    let (num, bits): (Bits<19>, _) = BitNumber::decode(&mut reader, None).unwrap();
    assert_eq!(bits, 19);
    assert_eq!(num, 123);
}

#[test]
fn bit_number_encode_test() {
    let mut writer = ReferenceWriter::new();

    let num = Bits::<20>::new(1025u16).unwrap();
    let valid = num.encode(&mut writer, None);
    assert_eq!(valid, Ok(20));

    let num = Bits::<4>::new(15u8).unwrap();
    let valid = num.encode(&mut writer, None);
    assert_eq!(valid, Ok(4));

    let num: Bits<5> = BitNumber::new(7u32).unwrap();
    let valid = num.encode(&mut writer, None);
    assert_eq!(valid, Ok(5));

    let num: Bits<19> = BitNumber::new(123u64).unwrap();
    let valid = num.encode(&mut writer, None);
    assert_eq!(valid, Ok(19));

    let valid = writer.finish().unwrap();
    assert_eq!(valid, BUFFER);

    let mut writer = ReferenceWriter::new();
    let valid = Bits::<5>::new(13u8).unwrap().encode(&mut writer, None);
    assert_eq!(valid, Ok(5));

    let invalid = writer.finish();
    assert_eq!(invalid, Err(WriterError::LoosePartialByte));
}

#[test]
fn bit_number_cast_test() {
    let e = BitNumberError::InvalidCapacity {
        value: 300u16,
        needs: 9,
        cap: 8,
    };
    assert_eq!(
        e.cast(),
        BitNumberError::InvalidCapacity {
            value: 300u128,
            needs: 9,
            cap: 8
        }
    );
}

#[test]
fn bit_number_len_bits_test() {
    let num = Bits::<12>::new(7u8).unwrap();
    assert_eq!(num.len_bits(), Ok(12));
    assert!(!Bits::<12>::length_required());
}
