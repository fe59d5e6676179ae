use bytes::Bytes;
use varint_core::partial::valid_n;
use varint_core::{
    PartialByte, PartialByteError, Reader, ReaderError, ReferenceReader, ReferenceWriter, Writer,
    WriterError,
};

const BUFFER: &[u8] = &[0b1111_0011, 0b0000_0010, 0b0100_1010];

#[test]
fn is_on_byte_boundary_test() {
    let partial = PartialByte::default();
    assert!(partial.is_on_byte_boundary());

    let partial = PartialByte { byte: 5, index: 2 };
    assert!(!partial.is_on_byte_boundary());
}

#[test]
fn set_read_test() {
    let mut partial = PartialByte::default();
    let byte = partial.set_read(0b1011_1110, 5);
    assert_eq!(byte, Ok(0b1011_1000));
    assert_eq!(
        partial,
        PartialByte {
            byte: 0b0000_0110,
            index: 5
        }
    );

    let invalid = partial.set_read(1, 1);
    assert_eq!(invalid, Err(PartialByteError::OverrideForbidden));

    let mut partial = PartialByte::default();
    let invalid = partial.set_read(1, 0);
    assert_eq!(invalid, Err(PartialByteError::InvalidN { n: 0 }));

    let mut partial = PartialByte::default();
    let invalid = partial.set_read(1, 9);
    assert_eq!(invalid, Err(PartialByteError::InvalidN { n: 9 }));
}

#[test]
fn read_test() {
    let mut partial = PartialByte {
        byte: 0b0000_0110,
        index: 5,
    };
    let byte = partial.read(2);
    assert_eq!(byte, Ok(0b1100_0000));
    assert_eq!(
        partial,
        PartialByte {
            byte: 0b0000_0000,
            index: 7
        }
    );

    let mut partial = PartialByte {
        byte: 0b0000_0110,
        index: 5,
    };
    let byte = partial.read(3);
    assert_eq!(byte, Ok(0b1100_0000));
    assert_eq!(partial, PartialByte::default());

    let invalid = partial.read(0);
    assert_eq!(invalid, Err(PartialByteError::InvalidN { n: 0 }));

    let invalid = partial.read(9);
    assert_eq!(invalid, Err(PartialByteError::InvalidN { n: 9 }));
}

#[test]
fn write_test() {
    let mut partial = PartialByte::default();
    let none = partial.write(0b1011_1110, 5);
    assert_eq!(none, None);
    assert_eq!(
        partial,
        PartialByte {
            byte: 0b1011_1000,
            index: 5
        }
    );

    let none = partial.write(0b1011_1110, 2);
    assert_eq!(none, None);
    assert_eq!(
        partial,
        PartialByte {
            byte: 0b1011_1100,
            index: 7
        }
    );

    let some = partial.write(0b1011_1110, 4);
    assert_eq!(some, Some(0b1011_1101));
    assert_eq!(
        partial,
        PartialByte {
            byte: 0b0110_0000,
            index: 3
        }
    );

    let some = partial.write(0b1011_1110, 5);
    assert_eq!(some, Some(0b0111_0111));
    assert_eq!(partial, PartialByte::default());

    let none = partial.write(1, 0);
    assert!(none.is_none());
}

#[test]
fn write_whole_byte_at_boundary_test() {
    let mut partial = PartialByte::default();
    assert_eq!(partial.write(0xAB, 8), Some(0xAB));
    assert_eq!(partial, PartialByte::default());
    assert!(partial.is_on_byte_boundary());
}

#[test]
fn remaining_test() {
    let mut partial = PartialByte::default();
    assert_eq!(partial.remaining(), 0);

    let _ = partial.set_read(5, 3);
    assert_eq!(partial.remaining(), 5);
}

#[test]
fn valid_n_test() {
    for i in 1..=7 {
        let valid = valid_n(i);
        assert_eq!(valid, Ok(()))
    }

    let invalid = valid_n(0);
    assert_eq!(invalid, Err(PartialByteError::InvalidN { n: 0 }));

    let invalid = valid_n(9);
    assert_eq!(invalid, Err(PartialByteError::InvalidN { n: 9 }));
}

#[test]
fn read_bytes_test() {
    let mut reader = ReferenceReader::new(BUFFER);

    let valid = reader.read_bytes(0).unwrap();
    assert!(valid.is_empty());

    let valid = reader.read_bytes(1).unwrap();
    assert_eq!(valid, BUFFER[..1]);

    let valid = reader.read_bytes(2).unwrap();
    assert_eq!(valid, BUFFER[1..3]);

    let mut reader = ReferenceReader::new(BUFFER);

    let invalid = reader.read_bytes(9999);
    assert!(invalid.is_err());

    reader.read_bits(4).unwrap();
    let invalid = reader.read_bytes(1);
    assert!(invalid.is_err());
}

#[test]
fn read_bits_test() {
    let mut reader = ReferenceReader::new(BUFFER);

    let valid = reader.read_bits(0).unwrap();
    assert!(valid.is_empty());

    let valid = reader.read_bits(16).unwrap();
    assert_eq!(valid, BUFFER[..2]);

    let valid = reader.read_bits(4).unwrap();
    assert_eq!(valid[0], BUFFER[2] >> 4);

    let valid = reader.read_bits(4).unwrap();
    assert_eq!(valid[0], BUFFER[2] & 0b1111);

    let mut reader = ReferenceReader::new(BUFFER);

    let valid = reader.read_bits(3).unwrap();
    assert_eq!(valid[0], BUFFER[0] >> 5);

    let valid = reader.read_bits(2).unwrap();
    assert_eq!(valid[0], (BUFFER[0] & 0b1_1111) >> 3);

    let valid = reader.read_bits(5).unwrap();
    assert_eq!(valid[0], 0b1100);

    let valid = reader.read_bits(9).unwrap();
    assert_eq!(valid[0], 0b10010);

    let valid = reader.read_bits(5).unwrap();
    assert_eq!(valid[0], BUFFER[2] & 0b1_1111);

    let mut reader = ReferenceReader::new(BUFFER);

    let valid = reader.read_bits(13).unwrap();
    assert_eq!(valid, vec![0b1_1110, 0b0110_0000]);

    let invalid = reader.read_bits(99999);
    assert!(invalid.is_err());
}

#[test]
fn read_bits_after_partial_test() {
    let mut reader = ReferenceReader::new(BUFFER);
    assert_eq!(reader.read_bits(3).unwrap(), vec![0b111]);
    assert_eq!(
        reader.read_bits(13).unwrap(),
        vec![0b0001_0011, 0b0000_0010]
    );
    // 9 bits whose number fits the byte past the partial one
    let mut reader = ReferenceReader::new(BUFFER);
    reader.read_bits(10).unwrap();
    assert_eq!(reader.read_bits(9).unwrap(), vec![0b1_0010]);

    let mut reader = ReferenceReader::new(BUFFER);
    reader.read_bits(13).unwrap();
    assert_eq!(
        reader.read_bits(99999),
        Err(ReaderError::MissingBytes {
            needs: 12500,
            left: 1
        })
    );
}

#[test]
fn finish_test() {}

/// The writer's completed bytes and partial byte.
fn writer_state(writer: &ReferenceWriter) -> (Vec<u8>, PartialByte) {
    (writer.inner().to_vec(), writer.partial())
}

#[test]
fn write_bits_test() {
    let mut writer = ReferenceWriter::new();

    // writing nothing should have no effect
    writer.write_bits(0, BUFFER);
    assert_eq!(writer_state(&writer), (vec![], PartialByte::default()));

    // write 1111_0011 0000_0010 |
    writer.write_bits(16, BUFFER);
    assert_eq!(
        writer_state(&writer),
        (BUFFER[..2].to_vec(), PartialByte { byte: 0, index: 0 })
    );

    // write 0100 | 0000
    writer.write_bits(4, &[0b0100_0000]);
    assert_eq!(
        writer_state(&writer),
        (
            BUFFER[..2].to_vec(),
            PartialByte {
                byte: 0b0100_0000,
                index: 4
            }
        )
    );

    // write 1010 | 0000
    writer.write_bits(4, &[(BUFFER[2] & 0b0000_1111) << 4]);
    assert_eq!(writer_state(&writer), (BUFFER.to_vec(), PartialByte::default()));

    let valid = writer.finish();
    assert_eq!(valid, Ok(Bytes::from(BUFFER)));

    // start with a fresh writer
    let mut writer = ReferenceWriter::new();

    // write 111 | 0_0000
    writer.write_bits(3, &[0b1110_0000]);
    assert_eq!(
        writer_state(&writer),
        (
            vec![],
            PartialByte {
                byte: 0b1110_0000,
                index: 3
            }
        )
    );

    // previous 111..
    // write 10 | 00_0000
    writer.write_bits(2, &[0b1000_0000]);
    assert_eq!(
        writer_state(&writer),
        (
            vec![],
            PartialByte {
                byte: 0b1111_0000,
                index: 5
            }
        )
    );

    // previous 1111_0..
    // write 0110_0 | 000
    // -> 1111_0011 0
    writer.write_bits(5, &[0b0110_0000]);
    assert_eq!(
        writer_state(&writer),
        (
            BUFFER[..1].to_vec(),
            PartialByte {
                byte: 0b0000_0000,
                index: 2
            }
        )
    );

    // previous 0
    // write 0000_1001 0 | 000_0000
    // -> 0000_0100 10
    writer.write_bits(9, &[0b0000_1001, 0]);
    assert_eq!(
        writer_state(&writer),
        (
            BUFFER[..2].to_vec(),
            PartialByte {
                byte: 0b0100_0000,
                index: 3
            }
        )
    );

    // write 0101_0 | 000
    writer.write_bits(5, &[0b0101_0000]);
    // expect 1111_0011 0000_0010 0100_1010
    assert_eq!(writer_state(&writer), (BUFFER.to_vec(), PartialByte::default()));
    assert_eq!(writer.finish(), Ok(Bytes::from(BUFFER)));
}

#[test]
fn write_bytes_test() {
    let mut writer = ReferenceWriter::new();

    let valid = writer.write_bytes(&BUFFER[..1]);
    assert!(valid.is_ok());
    assert_eq!(writer.inner(), &BUFFER[..1]);

    let valid = writer.write_bytes(&BUFFER[1..2]);
    assert!(valid.is_ok());
    assert_eq!(writer.inner(), &BUFFER[..2]);

    let valid = writer.write_bytes(&BUFFER[2..]);
    assert!(valid.is_ok());
    assert_eq!(writer.inner(), BUFFER);
    assert_eq!(writer.finish(), Ok(Bytes::from(BUFFER)));

    // invalid write bytes after partial byte
    let mut writer = ReferenceWriter::new();

    writer.write_bits(4, BUFFER);
    let invalid = writer.write_bytes(&[1, 2, 3]);
    assert_eq!(invalid, Err(WriterError::LoosePartialByte));
}

#[test]
fn finish_unaligned_test() {
    let mut writer = ReferenceWriter::with_capacity(4);
    writer.write_bits(3, &[0b1010_0000]);
    assert_eq!(writer.finish(), Err(WriterError::LoosePartialByte));
}

#[test]
fn written_bits_read_back_test() {
    let mut writer = ReferenceWriter::new();
    writer.write_bits(3, &[0b1010_0000]);
    writer.write_bits(7, &[0b0110_0110]);
    writer.write_bits(6, &[0b1111_0000]);
    let bytes = writer.finish().unwrap();

    let mut reader = ReferenceReader::new(&bytes);
    assert_eq!(reader.read_bits(3).unwrap()[0], 0b101);
    assert_eq!(reader.read_bits(7).unwrap()[0], 0b011_0011);
    assert_eq!(reader.read_bits(6).unwrap()[0], 0b11_1100);
    assert!(reader.read_bits(1).is_err());
}

#[test]
fn write_chaining_test() {
    let mut writer = ReferenceWriter::new();
    writer
        .write_bits(3, &[0b1010_0000])
        .write_bits(5, &[0b1100_0000]);
    writer
        .write_bytes(&[1])
        .unwrap()
        .write_bytes(&[2])
        .unwrap();
    assert_eq!(writer.finish(), Ok(Bytes::from(vec![0b1011_1000, 1, 2])));
}

#[test]
fn read_split_matches_whole_read_test() {
    let mut split = PartialByte { byte: 0b0110_1101, index: 1 };
    let mut whole = PartialByte { byte: 0b0110_1101, index: 1 };
    let first = split.read(2).unwrap();
    let second = split.read(3).unwrap();
    let both = whole.read(5).unwrap();
    assert_eq!(both, first | (second >> 2));
    assert_eq!(both, 0b1101_1000);
    assert_eq!(split, whole);
}
