use redis_store::entity::{
    decode_genre, decode_profile, decode_wallet, encode_genre, encode_profile, encode_wallet,
    CreditWallet, Genre, UserProfile, LEVEL_PREMIUM,
};
use redis_store::error::StoreError;

fn rock() -> Genre {
    Genre { id: "ROCK".to_string(), name: "Classic Rock".to_string(), listeners: 8000000 }
}

#[test]
fn wallet_encoding_is_exact() {
    let w = CreditWallet { coin_balance: 100, credit_balance: 50 };
    assert_eq!(encode_wallet(&w), vec![0x08, 100, 0x10, 50]);
}

#[test]
fn multi_byte_varint_is_exact() {
    let w = CreditWallet { coin_balance: 300, credit_balance: 0 };
    assert_eq!(encode_wallet(&w), vec![0x08, 0xAC, 0x02]);
}

#[test]
fn zero_wallet_encodes_to_nothing() {
    let w = CreditWallet { coin_balance: 0, credit_balance: 0 };
    assert_eq!(encode_wallet(&w), Vec::<u8>::new());
    assert_eq!(decode_wallet(&[]), Ok(w));
}

#[test]
fn genre_encoding_is_exact() {
    let mut expected = vec![0x0A, 4];
    expected.extend_from_slice(b"ROCK");
    expected.push(0x12);
    expected.push(12);
    expected.extend_from_slice(b"Classic Rock");
    expected.extend_from_slice(&[0x18, 0x80, 0xA4, 0xE8, 0x03]);
    assert_eq!(encode_genre(&rock()), expected);
}

#[test]
fn genre_round_trip() {
    let g = rock();
    let back = decode_genre(&encode_genre(&g)).ok().unwrap();
    assert_eq!(back.id, g.id);
    assert_eq!(back.name, g.name);
    assert_eq!(back.listeners, g.listeners);
}

#[test]
fn genre_round_trip_non_ascii_and_empty() {
    let g = Genre { id: "JAZZ".to_string(), name: "Jazz é 音楽".to_string(), listeners: 0 };
    let back = decode_genre(&encode_genre(&g)).ok().unwrap();
    assert_eq!(back.name, g.name);
    assert_eq!(back.listeners, 0);
    let empty = Genre { id: String::new(), name: String::new(), listeners: 0 };
    assert_eq!(encode_genre(&empty), Vec::<u8>::new());
    let back = decode_genre(&[]).ok().unwrap();
    assert_eq!(back.id, "");
}

#[test]
fn profile_round_trip() {
    let p = UserProfile {
        id: "user:1234".to_string(),
        username: "StarterUser".to_string(),
        email: "starter@example.com".to_string(),
        subscription_level: LEVEL_PREMIUM,
        history_key: "user:1234:history".to_string(),
    };
    let back = decode_profile(&encode_profile(&p)).ok().unwrap();
    assert_eq!(back.id, p.id);
    assert_eq!(back.username, p.username);
    assert_eq!(back.email, p.email);
    assert_eq!(back.subscription_level, p.subscription_level);
    assert_eq!(back.history_key, p.history_key);
}

#[test]
fn wallet_round_trip() {
    let w = CreditWallet { coin_balance: i32::MAX, credit_balance: 7 };
    assert_eq!(decode_wallet(&encode_wallet(&w)), Ok(w));
}

#[test]
fn truncated_bytes_are_a_decode_error() {
    let bytes = encode_genre(&rock());
    assert_eq!(decode_genre(&bytes[..bytes.len() - 1]).err(), Some(StoreError::Decode));
    assert_eq!(decode_wallet(&[0x08, 0x80]), Err(StoreError::Decode));
}

#[test]
fn wrong_entity_type_is_a_decode_error() {
    let wallet = encode_wallet(&CreditWallet { coin_balance: 100, credit_balance: 50 });
    assert_eq!(decode_genre(&wallet).err(), Some(StoreError::Decode));
    assert_eq!(decode_wallet(&encode_genre(&rock())), Err(StoreError::Decode));
}

#[test]
fn invalid_utf8_is_a_decode_error() {
    assert_eq!(decode_genre(&[0x0A, 1, 0xFF]).err(), Some(StoreError::Decode));
}

#[test]
fn count_above_i32_is_a_decode_error() {
    // 2^31 as a varint
    assert_eq!(decode_wallet(&[0x08, 0x80, 0x80, 0x80, 0x80, 0x08]), Err(StoreError::Decode));
}

#[test]
fn overlong_varint_is_a_decode_error() {
    // 1 written with ten continuation bytes in front: eleven bytes in all
    let mut bytes = vec![0x08];
    bytes.extend_from_slice(&[0x80; 10]);
    bytes.push(0x00);
    assert_eq!(decode_wallet(&bytes), Err(StoreError::Decode));
    let mut long = vec![0x08];
    long.extend(std::iter::repeat(0x80).take(1_000_000));
    assert_eq!(decode_wallet(&long), Err(StoreError::Decode));
    // nine continuation bytes and a final zero: ten bytes, accepted
    let mut ten = vec![0x08, 0x81];
    ten.extend_from_slice(&[0x80; 8]);
    ten.push(0x00);
    assert_eq!(decode_wallet(&ten), Ok(CreditWallet { coin_balance: 1, credit_balance: 0 }));
}
