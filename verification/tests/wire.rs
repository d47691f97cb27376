use ws_replier::wire::{
    classify, decode_score, encode_pair, encode_response, u64_from_le, u64_to_le, Challenge,
    Inbound,
};

#[test]
fn challenge_round_trip() {
    let challenge = Challenge { seed: 0x1122334455667788, difficulty: 3 };
    let bytes = challenge.encode();
    assert_eq!(bytes.len(), 9);
    assert_eq!(bytes, [0x88, 0x77, 0x66, 0x55, 0x44, 0x33, 0x22, 0x11, 0x03]);
    assert_eq!(Challenge::decode(&bytes), Some(challenge));
}

#[test]
fn challenge_round_trip_at_the_edges() {
    for challenge in [
        Challenge { seed: 0, difficulty: 0 },
        Challenge { seed: u64::MAX, difficulty: 255 },
        Challenge { seed: 1, difficulty: 2 },
        Challenge { seed: 1 << 63, difficulty: 24 },
    ] {
        assert_eq!(Challenge::decode(&challenge.encode()), Some(challenge));
    }
}

#[test]
fn challenge_decodes_seed_little_endian_and_difficulty_last() {
    let decoded = Challenge::decode(&[1, 0, 0, 0, 0, 0, 0, 0, 2]);
    assert_eq!(decoded, Some(Challenge { seed: 1, difficulty: 2 }));
    let decoded = Challenge::decode(&[0, 1, 0, 0, 0, 0, 0, 0, 200]);
    assert_eq!(decoded, Some(Challenge { seed: 256, difficulty: 200 }));
    let decoded = Challenge::decode(&[0, 0, 0, 0, 0, 0, 0, 0x80, 0]);
    assert_eq!(decoded, Some(Challenge { seed: 1 << 63, difficulty: 0 }));
}

#[test]
fn challenge_of_any_other_length_is_none() {
    assert_eq!(Challenge::decode(&[]), None);
    assert_eq!(Challenge::decode(&[0; 8]), None);
    assert_eq!(Challenge::decode(&[0; 10]), None);
    assert_eq!(Challenge::decode(&[0; 4]), None);
    assert_eq!(Challenge::decode(&[0; 16]), None);
}

#[test]
fn response_for_seed_42_nonce_99() {
    let bytes = encode_response(42, 99);
    assert_eq!(bytes.len(), 16);
    let mut seed = [0u8; 8];
    seed.copy_from_slice(&bytes[..8]);
    let mut nonce = [0u8; 8];
    nonce.copy_from_slice(&bytes[8..]);
    assert_eq!(u64::from_le_bytes(seed), 42);
    assert_eq!(u64::from_le_bytes(nonce), 99);
    assert_eq!(bytes, [42, 0, 0, 0, 0, 0, 0, 0, 99, 0, 0, 0, 0, 0, 0, 0]);
}

#[test]
fn response_fields_are_read_back() {
    let bytes = encode_response(0x0102030405060708, 0xf1f2f3f4f5f6f7f8);
    assert_eq!(
        bytes,
        [
            0x08, 0x07, 0x06, 0x05, 0x04, 0x03, 0x02, 0x01, 0xf8, 0xf7, 0xf6, 0xf5, 0xf4, 0xf3,
            0xf2, 0xf1
        ]
    );
    assert_eq!(u64_from_le(&bytes, 0), 0x0102030405060708);
    assert_eq!(u64_from_le(&bytes, 8), 0xf1f2f3f4f5f6f7f8);
}

#[test]
fn pair_is_first_then_second() {
    assert_eq!(encode_pair(1, 2), [1, 0, 0, 0, 0, 0, 0, 0, 2, 0, 0, 0, 0, 0, 0, 0]);
    assert_ne!(encode_pair(1, 2), encode_pair(2, 1));
    assert_eq!(encode_pair(7, 9), encode_response(7, 9));
}

#[test]
fn little_endian_agrees_with_std() {
    for x in [
        0u64,
        1,
        255,
        256,
        0xdead_beef,
        0x0102030405060708,
        1 << 32,
        1 << 56,
        u64::MAX - 1,
        u64::MAX,
    ] {
        assert_eq!(u64_to_le(x), x.to_le_bytes());
        assert_eq!(u64_from_le(&x.to_le_bytes(), 0), x);
        assert_eq!(u64_from_le(&u64_to_le(x), 0), x);
    }
}

#[test]
fn little_endian_read_at_an_offset() {
    let data = [9u8, 9, 0x10, 0x20, 0x30, 0x40, 0x50, 0x60, 0x70, 0x80, 9];
    assert_eq!(u64_from_le(&data, 2), 0x8070605040302010);
}

#[test]
fn score_is_big_endian() {
    assert_eq!(decode_score(&[0, 0, 0, 7]), Some(7));
    assert_eq!(decode_score(&[0, 0, 1, 2]), Some(258));
    assert_eq!(decode_score(&[0x12, 0x34, 0x56, 0x78]), Some(0x12345678));
    assert_eq!(decode_score(&[0xff, 0xff, 0xff, 0xff]), Some(u32::MAX));
    assert_eq!(decode_score(&[1, 0, 0, 0]), Some(1 << 24));
}

#[test]
fn score_of_any_other_length_is_none() {
    assert_eq!(decode_score(&[]), None);
    assert_eq!(decode_score(&[0; 3]), None);
    assert_eq!(decode_score(&[0; 5]), None);
    assert_eq!(decode_score(&[0; 9]), None);
}

#[test]
fn classify_goes_by_length() {
    assert_eq!(
        classify(&[1, 0, 0, 0, 0, 0, 0, 0, 2]),
        Inbound::Challenge(Challenge { seed: 1, difficulty: 2 })
    );
    assert_eq!(classify(&[0, 0, 0, 9]), Inbound::Score(9));
    assert_eq!(classify(&[]), Inbound::Unrecognized);
    assert_eq!(classify(&[0; 1]), Inbound::Unrecognized);
    assert_eq!(classify(&[0; 8]), Inbound::Unrecognized);
    assert_eq!(classify(&[0; 10]), Inbound::Unrecognized);
    assert_eq!(classify(&[0; 16]), Inbound::Unrecognized);
}
