//! Protocol-buffer style wire primitives: base-128 varints, and optional
//! fields that are written in field order and left out when they hold the
//! default value.
use vstd::prelude::*;

verus! {

/// Base-128 varint of `v`: seven bits per byte, low group first, high bit
/// set on every byte but the last.
pub open spec fn varint(v: nat) -> Seq<u8>
    decreases v,
{
    if v < 128 {
        seq![v as u8]
    } else {
        seq![(v % 128 + 128) as u8] + varint(v / 128)
    }
}

/// Longest varint accepted: ten groups of seven bits cover 64 bits.
pub const VARINT_MAX_LEN: u8 = 10;

/// The varint that starts at `pos`, with the position after it; the value
/// must fit in 64 bits and take at most `VARINT_MAX_LEN` bytes.
pub open spec fn read_varint(s: Seq<u8>, pos: int) -> Option<(nat, int)> {
    read_varint_within(s, pos, VARINT_MAX_LEN as nat)
}

/// `read_varint`, with at most `left` bytes.
pub open spec fn read_varint_within(s: Seq<u8>, pos: int, left: nat) -> Option<(nat, int)>
    decreases left,
{
    if left == 0 || pos < 0 || pos >= s.len() {
        None
    } else if s[pos] < 128 {
        Some((s[pos] as nat, pos + 1))
    } else {
        match read_varint_within(s, pos + 1, (left - 1) as nat) {
            Some((rest, end)) => {
                let v = (s[pos] - 128) + 128 * rest;
                if v <= u64::MAX {
                    Some((v as nat, end))
                } else {
                    None
                }
            },
            None => None,
        }
    }
}

/// 128 to the power `n`.
pub open spec fn groups_cap(n: nat) -> nat
    decreases n,
{
    if n == 0 {
        1
    } else {
        128 * groups_cap((n - 1) as nat)
    }
}

/// Tag byte of field `num` with wire type `wire` (0: varint, 2: length-delimited).
pub open spec fn tag(num: nat, wire: nat) -> u8 {
    (num * 8 + wire) as u8
}

/// A length-delimited field; an empty value is left out.
pub open spec fn bytes_field(num: nat, b: Seq<u8>) -> Seq<u8> {
    if b.len() == 0 {
        seq![]
    } else {
        seq![tag(num, 2)] + varint(b.len()) + b
    }
}

/// A varint field; zero is left out.
pub open spec fn int_field(num: nat, v: nat) -> Seq<u8> {
    if v == 0 {
        seq![]
    } else {
        seq![tag(num, 0)] + varint(v)
    }
}

/// Reads field `num` as length-delimited if its tag comes next; when it does
/// not, the field is absent and empty.
pub open spec fn read_bytes_field(s: Seq<u8>, pos: int, num: nat) -> Option<(Seq<u8>, int)> {
    if 0 <= pos < s.len() && s[pos] == tag(num, 2) {
        match read_varint(s, pos + 1) {
            Some((n, p)) => if p + n <= s.len() {
                Some((s.subrange(p, p + n), p + n))
            } else {
                None
            },
            None => None,
        }
    } else {
        Some((seq![], pos))
    }
}

/// Reads field `num` as a varint if its tag comes next; when it does not,
/// the field is absent and zero.
pub open spec fn read_int_field(s: Seq<u8>, pos: int, num: nat) -> Option<(nat, int)> {
    if 0 <= pos < s.len() && s[pos] == tag(num, 0) {
        read_varint(s, pos + 1)
    } else {
        Some((0, pos))
    }
}

/// `s` is empty or starts with the tag of a field numbered above `num`.
pub open spec fn starts_above(s: Seq<u8>, num: nat) -> bool {
    s.len() == 0 || s[0] / 8 > num
}

pub proof fn lemma_starts_above_concat(a: Seq<u8>, b: Seq<u8>, num: nat)
    requires
        starts_above(a, num),
        starts_above(b, num),
    ensures
        starts_above(a + b, num),
{
    if a.len() > 0 {
        assert((a + b)[0] == a[0]);
    }
}

pub proof fn lemma_fields_start_above(k: nat, num: nat, b: Seq<u8>, v: nat)
    requires
        num < k < 16,
    ensures
        starts_above(bytes_field(k, b), num),
        starts_above(int_field(k, v), num),
{
    assert(tag(k, 2) / 8 == k);
    assert(tag(k, 0) / 8 == k);
}

proof fn lemma_read_varint_within(pre: Seq<u8>, v: nat, post: Seq<u8>, left: nat)
    requires
        v <= u64::MAX,
        v < groups_cap(left),
        left > 0,
    ensures
        read_varint_within(pre + varint(v) + post, pre.len() as int, left) == Some(
            (v, (pre.len() + varint(v).len()) as int),
        ),
    decreases v,
{
    let s = pre + varint(v) + post;
    if v < 128 {
        assert(s[pre.len() as int] == v as u8);
    } else {
        let b = (v % 128 + 128) as u8;
        let pre2 = pre.push(b);
        let c = groups_cap((left - 1) as nat);
        assert(v / 128 < c) by (nonlinear_arith)
            requires
                v < 128 * c,
        ;
        assert(groups_cap(0) == 1);
        lemma_read_varint_within(pre2, v / 128, post, (left - 1) as nat);
        assert(pre2 + varint(v / 128) + post =~= s);
        assert(s[pre.len() as int] == b);
        assert(v == 128 * (v / 128) + v % 128) by {
            vstd::arithmetic::div_mod::lemma_fundamental_div_mod(v as int, 128);
        }
    }
}

pub proof fn lemma_read_varint(pre: Seq<u8>, v: nat, post: Seq<u8>)
    requires
        v <= u64::MAX,
    ensures
        read_varint(pre + varint(v) + post, pre.len() as int) == Some(
            (v, (pre.len() + varint(v).len()) as int),
        ),
{
    assert(groups_cap(10) > u64::MAX) by {
        reveal_with_fuel(groups_cap, 11);
    }
    lemma_read_varint_within(pre, v, post, 10);
}

pub proof fn lemma_read_bytes_field(pre: Seq<u8>, num: nat, b: Seq<u8>, post: Seq<u8>)
    requires
        1 <= num < 16,
        b.len() <= u64::MAX,
        starts_above(post, num),
    ensures
        read_bytes_field(pre + bytes_field(num, b) + post, pre.len() as int, num) == Some(
            (b, (pre.len() + bytes_field(num, b).len()) as int),
        ),
{
    let s = pre + bytes_field(num, b) + post;
    if b.len() == 0 {
        assert(s =~= pre + post);
        if post.len() > 0 {
            assert(s[pre.len() as int] == post[0]);
            assert(tag(num, 2) / 8 == num);
        }
    } else {
        let pre2 = pre.push(tag(num, 2));
        lemma_read_varint(pre2, b.len(), b + post);
        assert(pre2 + varint(b.len()) + (b + post) =~= s);
        assert(s[pre.len() as int] == tag(num, 2));
        let p = pre2.len() + varint(b.len()).len();
        assert(s.subrange(p as int, (p + b.len()) as int) =~= b);
    }
}

pub proof fn lemma_read_int_field(pre: Seq<u8>, num: nat, v: nat, post: Seq<u8>)
    requires
        1 <= num < 16,
        v <= u64::MAX,
        starts_above(post, num),
    ensures
        read_int_field(pre + int_field(num, v) + post, pre.len() as int, num) == Some(
            (v, (pre.len() + int_field(num, v).len()) as int),
        ),
{
    let s = pre + int_field(num, v) + post;
    if v == 0 {
        assert(s =~= pre + post);
        if post.len() > 0 {
            assert(s[pre.len() as int] == post[0]);
            assert(tag(num, 0) / 8 == num);
        }
    } else {
        let pre2 = pre.push(tag(num, 0));
        lemma_read_varint(pre2, v, post);
        assert(pre2 + varint(v) + post =~= s);
        assert(s[pre.len() as int] == tag(num, 0));
    }
}

/// Relies on prost::encoding::encode_varint: it appends the base-128 varint
/// of `v`, low group first.
#[verifier::external_body]
fn put_varint(v: u64, buf: &mut Vec<u8>)
    ensures
        final(buf)@ == old(buf)@ + varint(v as nat),
{
    prost::encoding::encode_varint(v, buf)
}

/// Appends a length-delimited field; an empty value writes nothing.
pub fn put_bytes_field(buf: &mut Vec<u8>, num: u8, b: &[u8])
    requires
        1 <= num < 16,
    ensures
        final(buf)@ == old(buf)@ + bytes_field(num as nat, b@),
{
    if b.len() == 0 {
        assert(old(buf)@ + bytes_field(num as nat, b@) =~= old(buf)@);
        return;
    }
    buf.push(num * 8 + 2);
    put_varint(b.len() as u64, buf);
    let ghost start = buf@;
    let mut i: usize = 0;
    while i < b.len()
        invariant
            i <= b.len(),
            buf@ == start + b@.subrange(0, i as int),
        decreases b.len() - i,
    {
        buf.push(b[i]);
        i = i + 1;
        assert(buf@ =~= start + b@.subrange(0, i as int));
    }
    assert(b@.subrange(0, b.len() as int) =~= b@);
    assert(buf@ =~= old(buf)@ + bytes_field(num as nat, b@));
}

/// Appends a varint field; zero writes nothing.
pub fn put_int_field(buf: &mut Vec<u8>, num: u8, v: u64)
    requires
        1 <= num < 16,
    ensures
        final(buf)@ == old(buf)@ + int_field(num as nat, v as nat),
{
    if v == 0 {
        assert(old(buf)@ + int_field(num as nat, v as nat) =~= old(buf)@);
        return;
    }
    buf.push(num * 8);
    put_varint(v, buf);
    assert(buf@ =~= old(buf)@ + int_field(num as nat, v as nat));
}

/// Executable form of `read_varint_within`.
fn get_varint_within(s: &[u8], pos: usize, left: u8) -> (r: Option<(u64, usize)>)
    ensures
        match r {
            Some((v, e)) => read_varint_within(s@, pos as int, left as nat) == Some(
                (v as nat, e as int),
            ) && pos < e <= s.len(),
            None => read_varint_within(s@, pos as int, left as nat) is None,
        },
    decreases left,
{
    if left == 0 || pos >= s.len() {
        return None;
    }
    let b = s[pos];
    if b < 128 {
        return Some((b as u64, pos + 1));
    }
    match get_varint_within(s, pos + 1, left - 1) {
        Some((rest, end)) => {
            let low = (b - 128) as u64;
            if rest > (u64::MAX - low) / 128 {
                assert(low + 128 * rest > u64::MAX) by (nonlinear_arith)
                    requires
                        rest > (u64::MAX - low) / 128,
                        low < 128,
                ;
                None
            } else {
                assert(low + 128 * rest <= u64::MAX) by (nonlinear_arith)
                    requires
                        rest <= (u64::MAX - low) / 128,
                        low < 128,
                ;
                Some((low + 128 * rest, end))
            }
        },
        None => None,
    }
}

/// Executable form of `read_varint`.
pub fn get_varint(s: &[u8], pos: usize) -> (r: Option<(u64, usize)>)
    ensures
        match r {
            Some((v, e)) => read_varint(s@, pos as int) == Some((v as nat, e as int)) && pos < e
                <= s.len(),
            None => read_varint(s@, pos as int) is None,
        },
{
    get_varint_within(s, pos, VARINT_MAX_LEN)
}

/// Executable form of `read_bytes_field`.
pub fn get_bytes_field(s: &[u8], pos: usize, num: u8) -> (r: Option<(Vec<u8>, usize)>)
    requires
        1 <= num < 16,
        pos <= s.len(),
    ensures
        match r {
            Some((b, e)) => read_bytes_field(s@, pos as int, num as nat) == Some((b@, e as int))
                && pos <= e <= s.len(),
            None => read_bytes_field(s@, pos as int, num as nat) is None,
        },
{
    if pos >= s.len() || s[pos] != num * 8 + 2 {
        return Some((Vec::new(), pos));
    }
    match get_varint(s, pos + 1) {
        Some((n, p)) => {
            if n > (s.len() - p) as u64 {
                return None;
            }
            let end = p + n as usize;
            let mut out: Vec<u8> = Vec::new();
            let mut i: usize = p;
            while i < end
                invariant
                    p <= i <= end <= s.len(),
                    out@ == s@.subrange(p as int, i as int),
                decreases end - i,
            {
                out.push(s[i]);
                i = i + 1;
                assert(out@ =~= s@.subrange(p as int, i as int));
            }
            Some((out, end))
        },
        None => None,
    }
}

/// Executable form of `read_int_field`.
pub fn get_int_field(s: &[u8], pos: usize, num: u8) -> (r: Option<(u64, usize)>)
    requires
        1 <= num < 16,
        pos <= s.len(),
    ensures
        match r {
            Some((v, e)) => read_int_field(s@, pos as int, num as nat) == Some((v as nat, e as int))
                && pos <= e <= s.len(),
            None => read_int_field(s@, pos as int, num as nat) is None,
        },
{
    if pos >= s.len() || s[pos] != num * 8 {
        return Some((0, pos));
    }
    get_varint(s, pos + 1)
}

} // verus!
