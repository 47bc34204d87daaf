//! The repository's decisions, apart from the store round trips: which keys
//! and bytes a write sends, and what a read makes of what came back.
use vstd::prelude::*;
use crate::entity::{
    decode_genre, decode_profile, decode_wallet, encode_genre, encode_profile, encode_wallet,
    genre_bytes, parse_genre, parse_profile, parse_wallet, profile_bytes, wallet_bytes,
    CreditWallet, Genre, GenreModel, UserProfile, ProfileModel,
};
use crate::error::StoreError;
use crate::keys::{
    genre_index_key, genre_index_key_of, genre_key, genre_key_of, history_ref, history_ref_of,
    profile_key_of, user_profile_key, user_wallet_key, wallet_key_of,
};
use crate::transfer::stored_bytes;

verus! {

/// Coins a new wallet starts with.
pub const STARTING_COINS: i32 = 100;

/// One key and the bytes to set there.
pub struct Put {
    pub key: String,
    pub value: Vec<u8>,
}

/// The writes that create a genre: its record, and its id in the index set.
pub struct GenreWrite {
    pub record: Put,
    pub index_key: String,
    pub member: String,
}

/// The writes that create a genre: the encoded record at `genre:{id}:metadata`,
/// and the id added to `genres:all_ids`.
pub fn create_genre_writes(g: &Genre) -> (r: GenreWrite)
    requires
        g.listeners >= 0,
    ensures
        r.record.key@ == genre_key_of(g.id@),
        r.record.value@ == genre_bytes(g@),
        r.index_key@ == genre_index_key_of(),
        r.member@ == g.id@,
{
    GenreWrite {
        record: Put { key: genre_key(g.id.as_str()), value: encode_genre(g) },
        index_key: genre_index_key(),
        member: g.id.clone(),
    }
}

/// The write that stores a profile at `user:{id}:profile`; creating and
/// updating both overwrite.
pub fn profile_write(p: &UserProfile) -> (r: Put)
    requires
        p.subscription_level >= 0,
    ensures
        r.key@ == profile_key_of(p.id@),
        r.value@ == profile_bytes(p@),
{
    Put { key: user_profile_key(p.id.as_str()), value: encode_profile(p) }
}

/// The write that stores a wallet at `user:{id}:wallet`.
pub fn wallet_write(user_id: &str, w: &CreditWallet) -> (r: Put)
    requires
        w.coin_balance >= 0,
        w.credit_balance >= 0,
    ensures
        r.key@ == wallet_key_of(user_id@),
        r.value@ == wallet_bytes(*w),
{
    Put { key: user_wallet_key(user_id), value: encode_wallet(w) }
}

/// A profile whose history pointer is derived from its id.
pub fn new_profile(id: String, username: String, email: String, subscription_level: i32) -> (r:
    UserProfile)
    ensures
        r@ == (ProfileModel {
            id: id@,
            username: username@,
            email: email@,
            subscription_level: subscription_level as int,
            history_key: history_ref_of(id@),
        }),
{
    let history_key = history_ref(id.as_str());
    UserProfile { id, username, email, subscription_level, history_key }
}

/// The wallet a new user starts with: 100 coins, no credits.
pub fn starting_wallet() -> (r: CreditWallet)
    ensures
        r == (CreditWallet { coin_balance: 100, credit_balance: 0 }),
{
    CreditWallet { coin_balance: STARTING_COINS, credit_balance: 0 }
}

/// What a single-entity read makes of the stored value: no value is
/// `NotFound`, bytes off the schema are `Decode`.
pub open spec fn read_result<T>(stored: Option<Seq<u8>>, parsed: spec_fn(Seq<u8>) -> Option<T>) -> Result<T, StoreError> {
    match stored {
        None => Err(StoreError::NotFound),
        Some(b) => match parsed(b) {
            Some(x) => Ok(x),
            None => Err(StoreError::Decode),
        },
    }
}

/// The wallet read from the store.
pub fn wallet_from_store(stored: &Option<Vec<u8>>) -> (r: Result<CreditWallet, StoreError>)
    ensures
        r == read_result(stored_bytes(*stored), |b: Seq<u8>| parse_wallet(b)),
{
    match stored {
        None => Err(StoreError::NotFound),
        Some(b) => decode_wallet(b.as_slice()),
    }
}

/// The genre read from the store.
pub fn genre_from_store(stored: &Option<Vec<u8>>) -> (r: Result<Genre, StoreError>)
    ensures
        match r {
            Ok(g) => read_result(stored_bytes(*stored), |b: Seq<u8>| parse_genre(b)) == Ok::<
                GenreModel,
                StoreError,
            >(g@),
            Err(e) => read_result(stored_bytes(*stored), |b: Seq<u8>| parse_genre(b)) == Err::<
                GenreModel,
                StoreError,
            >(e),
        },
{
    match stored {
        None => Err(StoreError::NotFound),
        Some(b) => decode_genre(b.as_slice()),
    }
}

/// The profile read from the store.
pub fn profile_from_store(stored: &Option<Vec<u8>>) -> (r: Result<UserProfile, StoreError>)
    ensures
        match r {
            Ok(p) => read_result(stored_bytes(*stored), |b: Seq<u8>| parse_profile(b)) == Ok::<
                ProfileModel,
                StoreError,
            >(p@),
            Err(e) => read_result(stored_bytes(*stored), |b: Seq<u8>| parse_profile(b)) == Err::<
                ProfileModel,
                StoreError,
            >(e),
        },
{
    match stored {
        None => Err(StoreError::NotFound),
        Some(b) => decode_profile(b.as_slice()),
    }
}

/// The genres among the records read for the index members, in order; a
/// missing or undecodable record is left out.
pub open spec fn genres_of(records: Seq<Option<Seq<u8>>>) -> Seq<GenreModel>
    decreases records.len(),
{
    if records.len() == 0 {
        seq![]
    } else {
        let rest = genres_of(records.drop_last());
        match records.last() {
            Some(b) => match parse_genre(b) {
                Some(g) => rest.push(g),
                None => rest,
            },
            None => rest,
        }
    }
}

pub open spec fn records_view(records: Seq<Option<Vec<u8>>>) -> Seq<Option<Seq<u8>>> {
    records.map_values(|o: Option<Vec<u8>>| stored_bytes(o))
}

/// Reading every genre: the records stored for the index members, decoded,
/// with those that fail to decode skipped.
pub fn collect_genres(records: &Vec<Option<Vec<u8>>>) -> (r: Vec<Genre>)
    ensures
        r@.map_values(|g: Genre| g@) == genres_of(records_view(records@)),
{
    let mut out: Vec<Genre> = Vec::new();
    let mut i: usize = 0;
    while i < records.len()
        invariant
            i <= records.len(),
            out@.map_values(|g: Genre| g@) == genres_of(records_view(records@.subrange(0, i as int))),
        decreases records.len() - i,
    {
        let ghost prev = records_view(records@.subrange(0, i as int));
        let ghost next = records_view(records@.subrange(0, i + 1));
        assert(next.drop_last() =~= prev);
        assert(next.last() == stored_bytes(records@[i as int]));
        match genre_from_store(&records[i]) {
            Ok(g) => {
                out.push(g);
            },
            Err(_) => {},
        }
        i = i + 1;
        assert(out@.map_values(|g: Genre| g@) =~= genres_of(next));
    }
    assert(records@.subrange(0, records.len() as int) =~= records@);
    out
}

/// The genres of `gs` whose id is `id`, in order.
pub open spec fn with_id(gs: Seq<GenreModel>, id: Seq<char>) -> Seq<GenreModel>
    decreases gs.len(),
{
    if gs.len() == 0 {
        seq![]
    } else {
        let rest = with_id(gs.drop_last(), id);
        if gs.last().id == id {
            rest.push(gs.last())
        } else {
            rest
        }
    }
}

/// No record of `records` decodes to a genre with id `id`.
pub open spec fn no_genre_with_id(records: Seq<Option<Seq<u8>>>, id: Seq<char>) -> bool {
    forall|j: int|
        0 <= j < records.len() ==> match #[trigger] records[j] {
            Some(b) => parse_genre(b) is None || parse_genre(b)->Some_0.id != id,
            None => true,
        }
}

proof fn lemma_genres_step(records: Seq<Option<Seq<u8>>>, id: Seq<char>)
    requires
        records.len() > 0,
    ensures
        with_id(genres_of(records), id) == match records.last() {
            Some(b) => match parse_genre(b) {
                Some(h) => if h.id == id {
                    with_id(genres_of(records.drop_last()), id).push(h)
                } else {
                    with_id(genres_of(records.drop_last()), id)
                },
                None => with_id(genres_of(records.drop_last()), id),
            },
            None => with_id(genres_of(records.drop_last()), id),
        },
{
    let rest = genres_of(records.drop_last());
    match records.last() {
        Some(b) => match parse_genre(b) {
            Some(h) => {
                assert(rest.push(h).drop_last() =~= rest);
            },
            None => {},
        },
        None => {},
    }
}

proof fn lemma_no_genre_with_id(records: Seq<Option<Seq<u8>>>, id: Seq<char>)
    requires
        no_genre_with_id(records, id),
    ensures
        with_id(genres_of(records), id) == Seq::<GenreModel>::empty(),
    decreases records.len(),
{
    if records.len() > 0 {
        let rest = records.drop_last();
        assert(no_genre_with_id(rest, id)) by {
            assert forall|j: int| 0 <= j < rest.len() implies match #[trigger] rest[j] {
                Some(b) => parse_genre(b) is None || parse_genre(b)->Some_0.id != id,
                None => true,
            } by {
                assert(rest[j] == records[j]);
            }
        }
        lemma_no_genre_with_id(rest, id);
        lemma_genres_step(records, id);
        assert(records.last() == records[records.len() - 1]);
    }
}

/// Index consistency: once a genre's record is stored for one index member,
/// and no other member's record decodes to a genre with the same id, reading
/// every genre yields that genre exactly once, with the fields it was
/// written with.
pub proof fn lemma_index_consistency(records: Seq<Option<Seq<u8>>>, i: int, g: GenreModel)
    requires
        g.wf(),
        0 <= i < records.len(),
        records[i] == Some(genre_bytes(g)),
        no_genre_with_id(records.remove(i), g.id),
    ensures
        with_id(genres_of(records), g.id) == seq![g],
    decreases records.len(),
{
    crate::entity::lemma_genre_round_trip(g);
    let rest = records.drop_last();
    let n = records.len() - 1;
    assert(records.last() == records[n]);
    lemma_genres_step(records, g.id);
    if i == n {
        assert(records.remove(i) =~= rest);
        lemma_no_genre_with_id(rest, g.id);
        assert(Seq::<GenreModel>::empty().push(g) =~= seq![g]);
    } else {
        assert(rest[i] == records[i]);
        assert(rest.remove(i) =~= records.remove(i).drop_last());
        assert(no_genre_with_id(rest.remove(i), g.id)) by {
            let a = rest.remove(i);
            let b = records.remove(i);
            assert forall|j: int| 0 <= j < a.len() implies match #[trigger] a[j] {
                Some(x) => parse_genre(x) is None || parse_genre(x)->Some_0.id != g.id,
                None => true,
            } by {
                assert(a[j] == b[j]);
            }
        }
        lemma_index_consistency(rest, i, g);
        assert(records.remove(i)[n - 1] == records[n]);
    }
}

} // verus!
