use art_ai_marketplace::{decode, encode, Key, Listing, ListingStatus, RECORD_LEN};

fn sample() -> Listing {
    Listing {
        seller: Key([0x11; 32]),
        asset: Key([0x22; 32]),
        price: 0x0102_0304_0506_0708,
        created_at: 1,
        expires_at: -2,
        status: ListingStatus::Cancelled,
    }
}

#[test]
fn record_has_the_fixed_layout() {
    let mut expected = Vec::new();
    expected.extend_from_slice(&[0x11; 32]);
    expected.extend_from_slice(&[0x22; 32]);
    expected.extend_from_slice(&[8, 7, 6, 5, 4, 3, 2, 1]);
    expected.extend_from_slice(&[1, 0, 0, 0, 0, 0, 0, 0]);
    expected.extend_from_slice(&[0xfe, 0xff, 0xff, 0xff, 0xff, 0xff, 0xff, 0xff]);
    expected.push(1);
    assert_eq!(RECORD_LEN, 89);
    assert_eq!(expected.len(), 89);
    assert_eq!(encode(&sample()), expected);
}

#[test]
fn record_numbers_are_little_endian() {
    let l = Listing { price: 100, created_at: 1_700_000_000, expires_at: 1_700_003_600, ..sample() };
    let bytes = encode(&l);
    assert_eq!(&bytes[64..72], &100u64.to_le_bytes());
    assert_eq!(&bytes[72..80], &1_700_000_000i64.to_le_bytes());
    assert_eq!(&bytes[80..88], &1_700_003_600i64.to_le_bytes());
}

#[test]
fn record_status_byte_follows_the_status() {
    for (status, code) in [
        (ListingStatus::Active, 0u8),
        (ListingStatus::Cancelled, 1),
        (ListingStatus::Sold, 2),
    ] {
        let bytes = encode(&Listing { status, ..sample() });
        assert_eq!(bytes[88], code);
        assert_eq!(decode(&bytes).unwrap().status, status);
    }
}

#[test]
fn record_reads_back_what_was_written() {
    let extremes = [
        sample(),
        Listing { price: u64::MAX, created_at: i64::MIN, expires_at: i64::MAX, ..sample() },
        Listing { price: 1, created_at: -1, expires_at: 0, status: ListingStatus::Sold, ..sample() },
        Listing { created_at: i64::MAX, expires_at: i64::MIN, status: ListingStatus::Active, ..sample() },
    ];
    for l in extremes {
        assert_eq!(decode(&encode(&l)), Some(l));
    }
}

#[test]
fn record_written_again_is_the_same() {
    let mut bytes: Vec<u8> = (0..88).collect();
    bytes.push(2);
    let l = decode(&bytes).unwrap();
    assert_eq!(l.seller.0[0], 0);
    assert_eq!(l.seller.0[31], 31);
    assert_eq!(l.asset.0[0], 32);
    assert_eq!(l.price, u64::from_le_bytes([64, 65, 66, 67, 68, 69, 70, 71]));
    assert_eq!(l.created_at, i64::from_le_bytes([72, 73, 74, 75, 76, 77, 78, 79]));
    assert_eq!(l.expires_at, i64::from_le_bytes([80, 81, 82, 83, 84, 85, 86, 87]));
    assert_eq!(l.status, ListingStatus::Sold);
    assert_eq!(encode(&l), bytes);
}

#[test]
fn record_of_another_length_is_refused() {
    let bytes = encode(&sample());
    assert_eq!(decode(&bytes[..88]), None);
    assert_eq!(decode(&[]), None);
    let mut longer = bytes.clone();
    longer.push(0);
    assert_eq!(decode(&longer), None);
}

#[test]
fn record_with_an_unknown_status_is_refused() {
    let mut bytes = encode(&sample());
    bytes[88] = 3;
    assert_eq!(decode(&bytes), None);
    bytes[88] = 255;
    assert_eq!(decode(&bytes), None);
    bytes[88] = 2;
    assert_eq!(decode(&bytes).unwrap().status, ListingStatus::Sold);
}
