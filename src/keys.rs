//! Storage addresses: every entity's keys derive from its kind and id alone.
use vstd::prelude::*;
use vstd::string::StringExecFns;

verus! {

pub open spec fn genre_key_of(id: Seq<char>) -> Seq<char> {
    "genre:"@ + id + ":metadata"@
}

pub open spec fn genre_index_key_of() -> Seq<char> {
    "genres:all_ids"@
}

pub open spec fn profile_key_of(id: Seq<char>) -> Seq<char> {
    "user:"@ + id + ":profile"@
}

pub open spec fn history_key_of(id: Seq<char>) -> Seq<char> {
    "user:"@ + id + ":history"@
}

pub open spec fn wallet_key_of(id: Seq<char>) -> Seq<char> {
    "user:"@ + id + ":wallet"@
}

/// The pointer from a profile to its listening history: `{id}:history`.
pub open spec fn history_ref_of(id: Seq<char>) -> Seq<char> {
    id + ":history"@
}

fn surround(pre: &str, id: &str, post: &str) -> (r: String)
    ensures
        r@ == pre@ + id@ + post@,
{
    let mut k = pre.to_owned();
    k.append(id);
    k.append(post);
    k
}

/// `genre:{id}:metadata`
pub fn genre_key(id: &str) -> (r: String)
    ensures
        r@ == genre_key_of(id@),
{
    surround("genre:", id, ":metadata")
}

/// `genres:all_ids`, the set of every genre id.
pub fn genre_index_key() -> (r: String)
    ensures
        r@ == genre_index_key_of(),
{
    "genres:all_ids".to_owned()
}

/// `user:{id}:profile`
pub fn user_profile_key(id: &str) -> (r: String)
    ensures
        r@ == profile_key_of(id@),
{
    surround("user:", id, ":profile")
}

/// `user:{id}:history`
pub fn user_history_key(id: &str) -> (r: String)
    ensures
        r@ == history_key_of(id@),
{
    surround("user:", id, ":history")
}

/// `user:{id}:wallet`
pub fn user_wallet_key(id: &str) -> (r: String)
    ensures
        r@ == wallet_key_of(id@),
{
    surround("user:", id, ":wallet")
}

/// `{id}:history`, the history pointer a profile carries.
pub fn history_ref(id: &str) -> (r: String)
    ensures
        r@ == history_ref_of(id@),
{
    let mut k = id.to_owned();
    k.append(":history");
    k
}

/// The kinds of record a key can address.
pub enum KeyKind {
    Genre,
    Profile,
    History,
    Wallet,
}

pub open spec fn key_of(kind: KeyKind, id: Seq<char>) -> Seq<char> {
    match kind {
        KeyKind::Genre => genre_key_of(id),
        KeyKind::Profile => profile_key_of(id),
        KeyKind::History => history_key_of(id),
        KeyKind::Wallet => wallet_key_of(id),
    }
}

/// Ids are drawn from an alphabet without the separator `:`.
pub open spec fn plain_id(id: Seq<char>) -> bool {
    forall|i: int| 0 <= i < id.len() ==> id[i] != ':'
}

proof fn lemma_split_at_colon(a: Seq<char>, sa: Seq<char>, b: Seq<char>, sb: Seq<char>)
    requires
        plain_id(a),
        plain_id(b),
        sa.len() > 0 && sa[0] == ':',
        sb.len() > 0 && sb[0] == ':',
        a + sa == b + sb,
    ensures
        a == b,
        sa == sb,
{
    if a.len() < b.len() {
        assert((a + sa)[a.len() as int] == sa[0]);
        assert((b + sb)[a.len() as int] == b[a.len() as int]);
    } else if b.len() < a.len() {
        assert((a + sa)[b.len() as int] == a[b.len() as int]);
        assert((b + sb)[b.len() as int] == sb[0]);
    } else {
        assert(a =~= (a + sa).subrange(0, a.len() as int));
        assert(b =~= (b + sb).subrange(0, b.len() as int));
        assert(sa =~= (a + sa).subrange(a.len() as int, (a + sa).len() as int));
        assert(sb =~= (b + sb).subrange(b.len() as int, (b + sb).len() as int));
    }
}

/// Keys never collide: for ids without `:`, two keys are equal only when
/// kind and id are, and no entity key equals the genre index key.
pub proof fn lemma_keys_distinct(k1: KeyKind, id1: Seq<char>, k2: KeyKind, id2: Seq<char>)
    requires
        plain_id(id1),
        plain_id(id2),
    ensures
        key_of(k1, id1) == key_of(k2, id2) ==> k1 == k2 && id1 == id2,
        key_of(k1, id1) != genre_index_key_of(),
{
    reveal_strlit("genre:");
    reveal_strlit("user:");
    reveal_strlit(":metadata");
    reveal_strlit(":profile");
    reveal_strlit(":history");
    reveal_strlit(":wallet");
    reveal_strlit("genres:all_ids");
    let x = key_of(k1, id1);
    let y = key_of(k2, id2);
    assert(genre_index_key_of()[5] == 's');
    assert(x[5] == ':' || x[0] == 'u');
    if x == y {
        let (p1, s1) = match k1 {
            KeyKind::Genre => ("genre:"@, ":metadata"@),
            KeyKind::Profile => ("user:"@, ":profile"@),
            KeyKind::History => ("user:"@, ":history"@),
            KeyKind::Wallet => ("user:"@, ":wallet"@),
        };
        let (p2, s2) = match k2 {
            KeyKind::Genre => ("genre:"@, ":metadata"@),
            KeyKind::Profile => ("user:"@, ":profile"@),
            KeyKind::History => ("user:"@, ":history"@),
            KeyKind::Wallet => ("user:"@, ":wallet"@),
        };
        assert(x =~= p1 + (id1 + s1));
        assert(y =~= p2 + (id2 + s2));
        assert(x[0] == p1[0] && y[0] == p2[0]);
        assert(p1 == p2);
        assert(id1 + s1 =~= x.subrange(p1.len() as int, x.len() as int));
        assert(id2 + s2 =~= y.subrange(p2.len() as int, y.len() as int));
        lemma_split_at_colon(id1, s1, id2, s2);
        assert(s1[1] == s2[1]);
        assert(s1.len() == s2.len());
    }
}

} // verus!
