use varint_core::parse::number_from_str;
use varint_core::StringError;

#[test]
fn number_from_str_test() {
    let valid_dec = number_from_str::<u16>("15");
    assert_eq!(valid_dec, Ok(15));

    let valid_bin = number_from_str::<u8>("0b11001");
    assert_eq!(valid_bin, Ok(25));

    let valid_oct = number_from_str::<i64>("0o072");
    assert_eq!(valid_oct, Ok(58));

    let valid_hex = number_from_str::<u128>("0xAF");
    assert_eq!(valid_hex, Ok(175));

    let invalid = number_from_str::<i8>("-0x1");
    assert_eq!(invalid, Err(StringError::IsNegative));

    let invalid = number_from_str::<u8>("not a number");
    assert_eq!(
        invalid,
        Err(StringError::NumberError {
            input: "not a number".to_owned(),
            source: "not a number".parse::<u8>().unwrap_err()
        })
    );
}

#[test]
fn number_from_str_edges_test() {
    assert_eq!(number_from_str::<u8>("+7"), Ok(7));
    assert_eq!(number_from_str::<u8>("0x"), Err(StringError::NumberError {
        input: "0x".to_owned(),
        source: "".parse::<u8>().unwrap_err()
    }));
    assert!(matches!(
        number_from_str::<u8>("256"),
        Err(StringError::NumberError { .. })
    ));
    assert_eq!(number_from_str::<i16>("0x-1"), Ok(-1));
    assert_eq!(number_from_str::<u64>("0b"), Err(StringError::NumberError {
        input: "0b".to_owned(),
        source: "".parse::<u64>().unwrap_err()
    }));
}

#[test]
fn number_from_str_every_type_test() {
    assert_eq!(number_from_str::<u8>("0xff"), Ok(u8::MAX));
    assert_eq!(number_from_str::<u16>("0o177777"), Ok(u16::MAX));
    assert_eq!(number_from_str::<u32>("4294967295"), Ok(u32::MAX));
    assert_eq!(number_from_str::<u64>("0xFFFFFFFFFFFFFFFF"), Ok(u64::MAX));
    assert_eq!(
        number_from_str::<u128>("340282366920938463463374607431768211455"),
        Ok(u128::MAX)
    );
    assert_eq!(number_from_str::<usize>("0b101"), Ok(5));
    assert_eq!(number_from_str::<i8>("127"), Ok(i8::MAX));
    assert_eq!(number_from_str::<i16>("0x7fff"), Ok(i16::MAX));
    assert_eq!(number_from_str::<i32>("0x-80000000"), Ok(i32::MIN));
    assert_eq!(number_from_str::<i64>("+9"), Ok(9));
    assert_eq!(
        number_from_str::<i128>("0o-1"),
        Ok(-1)
    );
    assert_eq!(number_from_str::<isize>("0b111"), Ok(7));
    assert!(matches!(
        number_from_str::<i8>("128"),
        Err(StringError::NumberError { .. })
    ));
    assert!(matches!(
        number_from_str::<u32>("0x1_0"),
        Err(StringError::NumberError { .. })
    ));
}

#[test]
fn number_from_str_passes_on_parse_error_test() {
    assert_eq!(
        number_from_str::<u8>("0x1G"),
        Err(StringError::NumberError {
            input: "0x1G".to_owned(),
            source: u8::from_str_radix("1G", 16).unwrap_err()
        })
    );
    assert_eq!(
        number_from_str::<i8>("128"),
        Err(StringError::NumberError {
            input: "128".to_owned(),
            source: i8::from_str_radix("128", 10).unwrap_err()
        })
    );
}
