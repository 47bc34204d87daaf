//! The stored entities, their models, and their wire encoding.
use vstd::prelude::*;
use vstd::utf8::{decode_utf8, encode_utf8, valid_utf8};
use crate::error::StoreError;
use crate::wire::{
    bytes_field, get_bytes_field, get_int_field, int_field, lemma_fields_start_above,
    lemma_read_bytes_field, lemma_read_int_field, lemma_starts_above_concat, put_bytes_field,
    put_int_field, read_bytes_field, read_int_field,
};

verus! {

/// A music genre.
pub struct Genre {
    pub id: String,
    pub name: String,
    pub listeners: i32,
}

/// A user's profile; `history_key` is derived from `id`.
pub struct UserProfile {
    pub id: String,
    pub username: String,
    pub email: String,
    pub subscription_level: i32,
    pub history_key: String,
}

/// A user's balances.
#[derive(Debug, Clone, Copy, PartialEq, Eq, Structural)]
pub struct CreditWallet {
    pub coin_balance: i32,
    pub credit_balance: i32,
}

/// Subscription levels, as stored in `UserProfile::subscription_level`.
pub const LEVEL_FREE: i32 = 0;
pub const LEVEL_PREMIUM: i32 = 1;

pub struct GenreModel {
    pub id: Seq<char>,
    pub name: Seq<char>,
    pub listeners: int,
}

pub struct ProfileModel {
    pub id: Seq<char>,
    pub username: Seq<char>,
    pub email: Seq<char>,
    pub subscription_level: int,
    pub history_key: Seq<char>,
}

impl View for Genre {
    type V = GenreModel;

    open spec fn view(&self) -> GenreModel {
        GenreModel { id: self.id@, name: self.name@, listeners: self.listeners as int }
    }
}

impl View for UserProfile {
    type V = ProfileModel;

    open spec fn view(&self) -> ProfileModel {
        ProfileModel {
            id: self.id@,
            username: self.username@,
            email: self.email@,
            subscription_level: self.subscription_level as int,
            history_key: self.history_key@,
        }
    }
}

/// A string whose UTF-8 length a 64-bit varint can carry.
pub open spec fn text_fits(s: Seq<char>) -> bool {
    encode_utf8(s).len() <= u64::MAX
}

/// A stored count: non-negative and within `i32`.
pub open spec fn count_ok(v: int) -> bool {
    0 <= v <= i32::MAX
}

impl GenreModel {
    pub open spec fn wf(self) -> bool {
        text_fits(self.id) && text_fits(self.name) && count_ok(self.listeners)
    }
}

impl ProfileModel {
    pub open spec fn wf(self) -> bool {
        text_fits(self.id) && text_fits(self.username) && text_fits(self.email) && text_fits(
            self.history_key,
        ) && count_ok(self.subscription_level)
    }
}

impl CreditWallet {
    pub open spec fn wf(self) -> bool {
        count_ok(self.coin_balance as int) && count_ok(self.credit_balance as int)
    }
}

pub open spec fn genre_bytes(g: GenreModel) -> Seq<u8> {
    bytes_field(1, encode_utf8(g.id)) + bytes_field(2, encode_utf8(g.name)) + int_field(
        3,
        g.listeners as nat,
    )
}

pub open spec fn profile_bytes(p: ProfileModel) -> Seq<u8> {
    bytes_field(1, encode_utf8(p.id)) + bytes_field(2, encode_utf8(p.username)) + bytes_field(
        3,
        encode_utf8(p.email),
    ) + int_field(4, p.subscription_level as nat) + bytes_field(5, encode_utf8(p.history_key))
}

pub open spec fn wallet_bytes(w: CreditWallet) -> Seq<u8> {
    int_field(1, w.coin_balance as nat) + int_field(2, w.credit_balance as nat)
}

/// Text from a decoded length-delimited field.
pub open spec fn text_of(b: Seq<u8>) -> Option<Seq<char>> {
    if valid_utf8(b) {
        Some(decode_utf8(b))
    } else {
        None
    }
}

/// A count from a decoded varint field.
pub open spec fn count_of(v: nat) -> Option<int> {
    if v <= i32::MAX {
        Some(v as int)
    } else {
        None
    }
}

pub open spec fn parse_genre(s: Seq<u8>) -> Option<GenreModel> {
    match read_bytes_field(s, 0, 1) {
        None => None,
        Some((id, p1)) => match read_bytes_field(s, p1, 2) {
            None => None,
            Some((name, p2)) => match read_int_field(s, p2, 3) {
                None => None,
                Some((l, p3)) => if p3 == s.len() && text_of(id) is Some && text_of(name) is Some
                    && count_of(l) is Some {
                    Some(
                        GenreModel {
                            id: text_of(id)->Some_0,
                            name: text_of(name)->Some_0,
                            listeners: count_of(l)->Some_0,
                        },
                    )
                } else {
                    None
                },
            },
        },
    }
}

pub open spec fn parse_wallet(s: Seq<u8>) -> Option<CreditWallet> {
    match read_int_field(s, 0, 1) {
        None => None,
        Some((c, p1)) => match read_int_field(s, p1, 2) {
            None => None,
            Some((k, p2)) => if p2 == s.len() && count_of(c) is Some && count_of(k) is Some {
                Some(CreditWallet { coin_balance: c as i32, credit_balance: k as i32 })
            } else {
                None
            },
        },
    }
}

/// Relies on String::from_utf8: it succeeds exactly on well-formed UTF-8,
/// and the string holds the characters that the bytes encode.
#[verifier::external_body]
fn string_from_utf8(b: Vec<u8>) -> (r: Option<String>)
    ensures
        match r {
            Some(s) => valid_utf8(b@) && s@ == decode_utf8(b@),
            None => !valid_utf8(b@),
        },
{
    String::from_utf8(b).ok()
}

fn text_from(b: Vec<u8>) -> (r: Result<String, StoreError>)
    ensures
        match r {
            Ok(s) => text_of(b@) == Some(s@),
            Err(e) => text_of(b@) is None && e == StoreError::Decode,
        },
{
    match string_from_utf8(b) {
        Some(s) => Ok(s),
        None => Err(StoreError::Decode),
    }
}

fn count_from(v: u64) -> (r: Result<i32, StoreError>)
    ensures
        match r {
            Ok(c) => count_of(v as nat) == Some(c as int),
            Err(e) => count_of(v as nat) is None && e == StoreError::Decode,
        },
{
    if v <= i32::MAX as u64 {
        Ok(v as i32)
    } else {
        Err(StoreError::Decode)
    }
}

/// Encodes a genre.
pub fn encode_genre(g: &Genre) -> (r: Vec<u8>)
    requires
        g.listeners >= 0,
    ensures
        r@ == genre_bytes(g@),
{
    let mut buf: Vec<u8> = Vec::new();
    put_bytes_field(&mut buf, 1, g.id.as_str().as_bytes());
    put_bytes_field(&mut buf, 2, g.name.as_str().as_bytes());
    put_int_field(&mut buf, 3, g.listeners as u64);
    assert(buf@ =~= genre_bytes(g@));
    buf
}

/// Decodes a genre; any departure from the wire schema is `Decode`.
pub fn decode_genre(s: &[u8]) -> (r: Result<Genre, StoreError>)
    ensures
        match r {
            Ok(g) => parse_genre(s@) == Some(g@),
            Err(e) => parse_genre(s@) is None && e == StoreError::Decode,
        },
{
    let (id, p1) = match get_bytes_field(s, 0, 1) {
        Some(x) => x,
        None => return Err(StoreError::Decode),
    };
    let (name, p2) = match get_bytes_field(s, p1, 2) {
        Some(x) => x,
        None => return Err(StoreError::Decode),
    };
    let (l, p3) = match get_int_field(s, p2, 3) {
        Some(x) => x,
        None => return Err(StoreError::Decode),
    };
    if p3 != s.len() {
        return Err(StoreError::Decode);
    }
    let id = text_from(id)?;
    let name = text_from(name)?;
    let listeners = count_from(l)?;
    Ok(Genre { id, name, listeners })
}

/// Encodes a wallet.
pub fn encode_wallet(w: &CreditWallet) -> (r: Vec<u8>)
    requires
        w.coin_balance >= 0,
        w.credit_balance >= 0,
    ensures
        r@ == wallet_bytes(*w),
{
    let mut buf: Vec<u8> = Vec::new();
    put_int_field(&mut buf, 1, w.coin_balance as u64);
    put_int_field(&mut buf, 2, w.credit_balance as u64);
    assert(buf@ =~= wallet_bytes(*w));
    buf
}

/// Decodes a wallet; any departure from the wire schema is `Decode`.
pub fn decode_wallet(s: &[u8]) -> (r: Result<CreditWallet, StoreError>)
    ensures
        match r {
            Ok(w) => parse_wallet(s@) == Some(w),
            Err(e) => parse_wallet(s@) is None && e == StoreError::Decode,
        },
{
    let (c, p1) = match get_int_field(s, 0, 1) {
        Some(x) => x,
        None => return Err(StoreError::Decode),
    };
    let (k, p2) = match get_int_field(s, p1, 2) {
        Some(x) => x,
        None => return Err(StoreError::Decode),
    };
    if p2 != s.len() {
        return Err(StoreError::Decode);
    }
    let coin_balance = count_from(c)?;
    let credit_balance = count_from(k)?;
    Ok(CreditWallet { coin_balance, credit_balance })
}

/// Decoding what encoding a well-formed genre wrote gives that genre back.
pub proof fn lemma_genre_round_trip(g: GenreModel)
    requires
        g.wf(),
    ensures
        parse_genre(genre_bytes(g)) == Some(g),
{
    let e = seq![];
    let f1 = bytes_field(1, encode_utf8(g.id));
    let f2 = bytes_field(2, encode_utf8(g.name));
    let f3 = int_field(3, g.listeners as nat);
    let s = genre_bytes(g);
    lemma_fields_start_above(2, 1, encode_utf8(g.name), 0);
    lemma_fields_start_above(3, 1, seq![], g.listeners as nat);
    lemma_fields_start_above(3, 2, seq![], g.listeners as nat);
    lemma_starts_above_concat(f2, f3, 1);
    lemma_read_bytes_field(e, 1, encode_utf8(g.id), f2 + f3);
    assert(e + f1 + (f2 + f3) =~= s);
    lemma_read_bytes_field(f1, 2, encode_utf8(g.name), f3);
    assert(f1 + f2 + f3 =~= s);
    lemma_read_int_field(f1 + f2, 3, g.listeners as nat, e);
    assert(f1 + f2 + f3 + e =~= s);
    vstd::utf8::encode_utf8_valid_utf8(g.id);
    vstd::utf8::encode_utf8_decode_utf8(g.id);
    vstd::utf8::encode_utf8_valid_utf8(g.name);
    vstd::utf8::encode_utf8_decode_utf8(g.name);
}

/// Decoding what encoding a well-formed wallet wrote gives that wallet back.
pub proof fn lemma_wallet_round_trip(w: CreditWallet)
    requires
        w.wf(),
    ensures
        parse_wallet(wallet_bytes(w)) == Some(w),
{
    let e = seq![];
    let f1 = int_field(1, w.coin_balance as nat);
    let f2 = int_field(2, w.credit_balance as nat);
    let s = wallet_bytes(w);
    lemma_fields_start_above(2, 1, seq![], w.credit_balance as nat);
    lemma_read_int_field(e, 1, w.coin_balance as nat, f2);
    assert(e + f1 + f2 =~= s);
    lemma_read_int_field(f1, 2, w.credit_balance as nat, e);
    assert(f1 + f2 + e =~= s);
}

pub open spec fn parse_profile(s: Seq<u8>) -> Option<ProfileModel> {
    match read_bytes_field(s, 0, 1) {
        None => None,
        Some((id, p1)) => match read_bytes_field(s, p1, 2) {
            None => None,
            Some((user, p2)) => match read_bytes_field(s, p2, 3) {
                None => None,
                Some((email, p3)) => match read_int_field(s, p3, 4) {
                    None => None,
                    Some((level, p4)) => match read_bytes_field(s, p4, 5) {
                        None => None,
                        Some((hist, p5)) => if p5 == s.len() && text_of(id) is Some && text_of(
                            user,
                        ) is Some && text_of(email) is Some && text_of(hist) is Some && count_of(
                            level,
                        ) is Some {
                            Some(
                                ProfileModel {
                                    id: text_of(id)->Some_0,
                                    username: text_of(user)->Some_0,
                                    email: text_of(email)->Some_0,
                                    subscription_level: count_of(level)->Some_0,
                                    history_key: text_of(hist)->Some_0,
                                },
                            )
                        } else {
                            None
                        },
                    },
                },
            },
        },
    }
}

/// Encodes a user profile.
pub fn encode_profile(p: &UserProfile) -> (r: Vec<u8>)
    requires
        p.subscription_level >= 0,
    ensures
        r@ == profile_bytes(p@),
{
    let mut buf: Vec<u8> = Vec::new();
    put_bytes_field(&mut buf, 1, p.id.as_str().as_bytes());
    put_bytes_field(&mut buf, 2, p.username.as_str().as_bytes());
    put_bytes_field(&mut buf, 3, p.email.as_str().as_bytes());
    put_int_field(&mut buf, 4, p.subscription_level as u64);
    put_bytes_field(&mut buf, 5, p.history_key.as_str().as_bytes());
    assert(buf@ =~= profile_bytes(p@));
    buf
}

/// Decodes a user profile; any departure from the wire schema is `Decode`.
pub fn decode_profile(s: &[u8]) -> (r: Result<UserProfile, StoreError>)
    ensures
        match r {
            Ok(p) => parse_profile(s@) == Some(p@),
            Err(e) => parse_profile(s@) is None && e == StoreError::Decode,
        },
{
    let (id, p1) = match get_bytes_field(s, 0, 1) {
        Some(x) => x,
        None => return Err(StoreError::Decode),
    };
    let (user, p2) = match get_bytes_field(s, p1, 2) {
        Some(x) => x,
        None => return Err(StoreError::Decode),
    };
    let (email, p3) = match get_bytes_field(s, p2, 3) {
        Some(x) => x,
        None => return Err(StoreError::Decode),
    };
    let (level, p4) = match get_int_field(s, p3, 4) {
        Some(x) => x,
        None => return Err(StoreError::Decode),
    };
    let (hist, p5) = match get_bytes_field(s, p4, 5) {
        Some(x) => x,
        None => return Err(StoreError::Decode),
    };
    if p5 != s.len() {
        return Err(StoreError::Decode);
    }
    let id = text_from(id)?;
    let username = text_from(user)?;
    let email = text_from(email)?;
    let subscription_level = count_from(level)?;
    let history_key = text_from(hist)?;
    Ok(UserProfile { id, username, email, subscription_level, history_key })
}

/// Decoding what encoding a well-formed profile wrote gives that profile back.
pub proof fn lemma_profile_round_trip(p: ProfileModel)
    requires
        p.wf(),
    ensures
        parse_profile(profile_bytes(p)) == Some(p),
{
    let e = seq![];
    let (b1, b2, b3, b5) = (
        encode_utf8(p.id),
        encode_utf8(p.username),
        encode_utf8(p.email),
        encode_utf8(p.history_key),
    );
    let v4 = p.subscription_level as nat;
    let f1 = bytes_field(1, b1);
    let f2 = bytes_field(2, b2);
    let f3 = bytes_field(3, b3);
    let f4 = int_field(4, v4);
    let f5 = bytes_field(5, b5);
    let s = profile_bytes(p);
    assert(s =~= f1 + f2 + f3 + f4 + f5);
    lemma_fields_start_above(5, 4, b5, 0);
    lemma_fields_start_above(4, 3, seq![], v4);
    lemma_fields_start_above(5, 3, b5, 0);
    lemma_fields_start_above(3, 2, b3, v4);
    lemma_fields_start_above(4, 2, seq![], v4);
    lemma_fields_start_above(5, 2, b5, 0);
    lemma_fields_start_above(2, 1, b2, 0);
    lemma_fields_start_above(3, 1, b3, 0);
    lemma_fields_start_above(4, 1, seq![], v4);
    lemma_fields_start_above(5, 1, b5, 0);
    lemma_starts_above_concat(f4, f5, 3);
    lemma_starts_above_concat(f3, f4 + f5, 2);
    lemma_starts_above_concat(f4, f5, 2);
    lemma_starts_above_concat(f4, f5, 1);
    lemma_starts_above_concat(f3, f4 + f5, 1);
    lemma_starts_above_concat(f2, f3 + (f4 + f5), 1);
    lemma_read_bytes_field(e, 1, b1, f2 + (f3 + (f4 + f5)));
    assert(e + f1 + (f2 + (f3 + (f4 + f5))) =~= s);
    lemma_read_bytes_field(f1, 2, b2, f3 + (f4 + f5));
    assert(f1 + f2 + (f3 + (f4 + f5)) =~= s);
    lemma_read_bytes_field(f1 + f2, 3, b3, f4 + f5);
    assert(f1 + f2 + f3 + (f4 + f5) =~= s);
    lemma_read_int_field(f1 + f2 + f3, 4, v4, f5);
    assert(f1 + f2 + f3 + f4 + f5 =~= s);
    lemma_read_bytes_field(f1 + f2 + f3 + f4, 5, b5, e);
    assert(f1 + f2 + f3 + f4 + f5 + e =~= s);
    vstd::utf8::encode_utf8_valid_utf8(p.id);
    vstd::utf8::encode_utf8_decode_utf8(p.id);
    vstd::utf8::encode_utf8_valid_utf8(p.username);
    vstd::utf8::encode_utf8_decode_utf8(p.username);
    vstd::utf8::encode_utf8_valid_utf8(p.email);
    vstd::utf8::encode_utf8_decode_utf8(p.email);
    vstd::utf8::encode_utf8_valid_utf8(p.history_key);
    vstd::utf8::encode_utf8_decode_utf8(p.history_key);
}

} // verus!
