use redis_store::entity::{encode_genre, encode_wallet, CreditWallet, Genre, LEVEL_FREE};
use redis_store::error::StoreError;
use redis_store::repo::{
    collect_genres, create_genre_writes, genre_from_store, new_profile, profile_from_store,
    profile_write, starting_wallet, wallet_from_store, wallet_write,
};

fn genre(id: &str, name: &str, listeners: i32) -> Genre {
    Genre { id: id.to_string(), name: name.to_string(), listeners }
}

#[test]
fn missing_wallet_is_not_found() {
    assert_eq!(wallet_from_store(&None), Err(StoreError::NotFound));
    assert_eq!(profile_from_store(&None).err(), Some(StoreError::NotFound));
    assert_eq!(genre_from_store(&None).err(), Some(StoreError::NotFound));
}

#[test]
fn corrupt_wallet_is_decode_error() {
    assert_eq!(wallet_from_store(&Some(vec![0xFF])), Err(StoreError::Decode));
}

#[test]
fn stored_wallet_reads_back() {
    let w = CreditWallet { coin_balance: 100, credit_balance: 50 };
    let put = wallet_write("1234", &w);
    assert_eq!(put.key, "user:1234:wallet");
    assert_eq!(wallet_from_store(&Some(put.value)), Ok(w));
}

#[test]
fn created_genre_is_listed_once() {
    let g = genre("POP", "Global Pop Hits", 15000000);
    let writes = create_genre_writes(&g);
    assert_eq!(writes.record.key, "genre:POP:metadata");
    assert_eq!(writes.index_key, "genres:all_ids");
    assert_eq!(writes.member, "POP");
    let records = vec![
        Some(encode_genre(&genre("ROCK", "Classic Rock", 8000000))),
        Some(writes.record.value),
        None,
    ];
    let all = collect_genres(&records);
    let pops: Vec<&Genre> = all.iter().filter(|x| x.id == "POP").collect();
    assert_eq!(pops.len(), 1);
    assert_eq!(pops[0].name, "Global Pop Hits");
    assert_eq!(pops[0].listeners, 15000000);
    assert_eq!(all.len(), 2);
}

#[test]
fn corrupt_genres_are_skipped() {
    let records = vec![
        Some(vec![0x0A, 9, 1]),
        Some(encode_genre(&genre("JAZZ", "Smooth Jazz", 500000))),
        Some(encode_wallet(&CreditWallet { coin_balance: 1, credit_balance: 2 })),
    ];
    let all = collect_genres(&records);
    assert_eq!(all.len(), 1);
    assert_eq!(all[0].id, "JAZZ");
    assert!(collect_genres(&Vec::new()).is_empty());
}

#[test]
fn new_profile_derives_history_key() {
    let p = new_profile(
        "user:1234".to_string(),
        "StarterUser".to_string(),
        "starter@example.com".to_string(),
        LEVEL_FREE,
    );
    assert_eq!(p.history_key, "user:1234:history");
    let put = profile_write(&p);
    assert_eq!(put.key, "user:user:1234:profile");
    let back = profile_from_store(&Some(put.value)).ok().unwrap();
    assert_eq!(back.email, "starter@example.com");
    assert_eq!(back.history_key, "user:1234:history");
}

#[test]
fn new_wallet_starts_with_hundred_coins() {
    assert_eq!(starting_wallet(), CreditWallet { coin_balance: 100, credit_balance: 0 });
}
