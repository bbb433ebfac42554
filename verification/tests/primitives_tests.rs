use foundry_tempo::primitives::{Address, Word};

#[test]
fn address_from_bytes_splits_big_endian() {
    let mut bytes = [0u8; 20];
    for (i, b) in bytes.iter_mut().enumerate() {
        *b = i as u8 + 1;
    }
    let a = Address::from_be_bytes(bytes);
    assert_eq!(a.hi, 0x01020304);
    assert_eq!(a.mid, 0x05060708090a0b0c);
    assert_eq!(a.lo, 0x0d0e0f1011121314);
    assert_eq!(a.to_be_bytes(), bytes);
}

#[test]
fn address_to_bytes_round_trip() {
    let a = Address { hi: 0x5615deb7, mid: 0x98bb3e4dfa0139df, lo: 0xa1b3d433cc23b72f };
    let b = a.to_be_bytes();
    assert_eq!(b[0], 0x56);
    assert_eq!(b[19], 0x2f);
    assert_eq!(Address::from_be_bytes(b), a);
}

#[test]
fn zero_values() {
    assert_eq!(Address::zero().to_be_bytes(), [0u8; 20]);
    assert_eq!(Address::zero(), Address { hi: 0, mid: 0, lo: 0 });
    assert_eq!(Word::zero(), Word::from_u64(0));
    assert_eq!(Word::from_u64(5), Word { w0: 5, w1: 0, w2: 0, w3: 0 });
}
