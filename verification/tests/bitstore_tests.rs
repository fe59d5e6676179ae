use varint_core::bitstore::{num_bits, BitStore, Error, InvalidBitLength};

#[test]
fn mod_default_test() {
    let store = BitStore::<8, 16>::default();
    assert_eq!(store.bits().len(), 1);
    assert_eq!(*store.bits(), [0]);

    let store = BitStore::<12, 64>::default();
    assert_eq!(store.bits().len(), 2);
    assert_eq!(*store.bits(), [0, 0]);
}

#[test]
fn set_bits_test() {
    let mut store = BitStore::<0, 16>::default();

    store.set_bits(&[0b1100_0000], 5).unwrap();
    assert_eq!(store.number::<u8>(), 0b0001_1000);
    assert_eq!(*store.bits(), [0b1100_0000]);
}

#[test]
fn mod_set_number_test() {
    let mut store = BitStore::<0, 160>::default();

    store.set_number(4u8, Some(5)).unwrap();
    assert_eq!(store.number::<u8>(), 4);
    assert_eq!(*store.bits(), [0b0010_0000]);

    store.set_number(4u8, Some(8)).unwrap();
    assert_eq!(store.number::<u8>(), 4);
    assert_eq!(*store.bits(), [4]);

    store.set_number(42u16, Some(11)).unwrap();
    assert_eq!(store.number::<u32>(), 42);
    assert_eq!(*store.bits(), [0b0000_0101, 0b0100_0000]);

    store.set_number(512u16, Some(15)).unwrap();
    assert_eq!(store.number::<u32>(), 512);
    assert_eq!(*store.bits(), [0b0000_0100, 0b0000_0000]);
}

#[test]
fn num_bits_test() {
    assert_eq!(num_bits(5u8), 3);
    assert_eq!(num_bits(24u8), 5);
    assert_eq!(num_bits(86234285u32), 27);
    assert_eq!(num_bits(862342859999999999u64), 60);
    assert_eq!(num_bits(0u8), 1);
}

#[test]
fn bitstore_errors_test() {
    let mut store = BitStore::<4, 8>::default();
    assert_eq!(
        store.set_bits(&[1, 2], 16),
        Err(Error::InvalidLength {
            source: InvalidBitLength {
                got: 16,
                min: 4,
                max: 8
            }
        })
    );
    assert_eq!(
        store.set_number(300u16, Some(8)),
        Err(Error::InvalidFit {
            num: 300,
            needs: 9,
            expected: 8
        })
    );
    assert_eq!(store.len_bits(), 0);
    store.set_number(5u8, Some(4)).unwrap();
    assert_eq!(store.len_bits(), 4);
    assert_eq!(store.number::<u8>(), 5);

    let mut wide = BitStore::<0, 200>::default();
    assert_eq!(wide.set_number(1u8, Some(129)), Err(Error::TooLarge));
}
