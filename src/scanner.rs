use vstd::prelude::*;

verus! {

/// `token` occurs in `buf` as a contiguous run starting at offset `p`.
pub open spec fn matches_at(buf: Seq<u8>, token: Seq<u8>, p: int) -> bool {
    0 <= p && p + token.len() <= buf.len() && buf.subrange(p, p + token.len()) == token
}

/// The first offset at or after `i` where `token` occurs in `buf`.
pub open spec fn find_from(buf: Seq<u8>, token: Seq<u8>, i: int) -> Option<int>
    decreases buf.len() + 1 - i,
{
    if i < 0 || i + token.len() > buf.len() {
        None
    } else if matches_at(buf, token, i) {
        Some(i)
    } else {
        find_from(buf, token, i + 1)
    }
}

/// The offset of the first occurrence of `token` in `buf`.
pub open spec fn first_match(buf: Seq<u8>, token: Seq<u8>) -> Option<int> {
    find_from(buf, token, 0)
}

/// What `find_from` returns is the first occurrence at or after `i`.
pub proof fn lemma_find_from_first(buf: Seq<u8>, token: Seq<u8>, i: int)
    requires
        0 <= i,
    ensures
        match find_from(buf, token, i) {
            Some(p) => i <= p && matches_at(buf, token, p) && forall|q: int|
                i <= q < p ==> !matches_at(buf, token, q),
            None => forall|q: int| i <= q ==> !matches_at(buf, token, q),
        },
    decreases buf.len() + 1 - i,
{
    if i + token.len() > buf.len() {
    } else if matches_at(buf, token, i) {
    } else {
        lemma_find_from_first(buf, token, i + 1);
    }
}

/// The first occurrence, stated directly: `first_match` is `Some(p)` exactly
/// when `token` occurs at `p` and at no smaller offset, and `None` exactly when
/// it occurs nowhere.
pub proof fn lemma_first_match(buf: Seq<u8>, token: Seq<u8>)
    ensures
        match first_match(buf, token) {
            Some(p) => matches_at(buf, token, p) && forall|q: int|
                0 <= q < p ==> !matches_at(buf, token, q),
            None => forall|q: int| !matches_at(buf, token, q),
        },
{
    lemma_find_from_first(buf, token, 0);
}

/// Conversely, an occurrence at `p` with none before it is the first match.
pub proof fn lemma_first_match_at(buf: Seq<u8>, token: Seq<u8>, p: int)
    requires
        matches_at(buf, token, p),
        forall|q: int| 0 <= q < p ==> !matches_at(buf, token, q),
    ensures
        first_match(buf, token) == Some(p),
{
    lemma_first_match(buf, token);
}

/// A token that occurs nowhere in `buf` has no first match.
pub proof fn lemma_first_match_none(buf: Seq<u8>, token: Seq<u8>)
    requires
        forall|q: int| !matches_at(buf, token, q),
    ensures
        first_match(buf, token) is None,
{
    lemma_first_match(buf, token);
}

/// Appending bytes after a buffer keeps its first match.
pub proof fn lemma_first_match_extend(buf: Seq<u8>, token: Seq<u8>, more: Seq<u8>)
    requires
        first_match(buf, token) is Some,
    ensures
        first_match(buf + more, token) == first_match(buf, token),
{
    lemma_first_match(buf, token);
    let p = first_match(buf, token)->0;
    let whole = buf + more;
    assert(whole.subrange(p, p + token.len()) =~= buf.subrange(p, p + token.len()));
    assert forall|q: int| 0 <= q < p implies !matches_at(whole, token, q) by {
        assert(whole.subrange(q, q + token.len()) =~= buf.subrange(q, q + token.len()));
        assert(!matches_at(buf, token, q));
    }
    lemma_first_match_at(whole, token, p);
}

/// Whether `token` occurs in `buf` at offset `p`; the caller keeps `p` in range.
pub(crate) fn matches_at_exec(buf: &[u8], token: &[u8], p: usize) -> (r: bool)
    requires
        p + token@.len() <= buf@.len(),
    ensures
        r == matches_at(buf@, token@, p as int),
{
    let n: usize = buf.len();
    let mut k: usize = 0;
    while k < token.len()
        invariant
            n == buf@.len(),
            k <= token@.len(),
            p + token@.len() <= buf@.len(),
            forall|j: int| 0 <= j < k ==> buf@[p + j] == token@[j],
        decreases token@.len() - k,
    {
        if buf[p + k] != token[k] {
            assert(buf@.subrange(p as int, p + token@.len())[k as int] != token@[k as int]);
            return false;
        }
        k = k + 1;
    }
    assert(buf@.subrange(p as int, p + token@.len()) =~= token@);
    true
}

/// The offset of the first occurrence of `token` in `buf`, if any.
pub fn find(buf: &[u8], token: &[u8]) -> (r: Option<usize>)
    requires
        token@.len() > 0,
    ensures
        match r {
            Some(p) => first_match(buf@, token@) == Some(p as int),
            None => first_match(buf@, token@) is None,
        },
        match r {
            Some(p) => matches_at(buf@, token@, p as int) && forall|q: int|
                0 <= q < p ==> !matches_at(buf@, token@, q),
            None => forall|q: int| !matches_at(buf@, token@, q),
        },
{
    proof {
        lemma_first_match(buf@, token@);
    }
    if token.len() > buf.len() {
        return None;
    }
    let n: usize = buf.len();
    let last: usize = n - token.len();
    let mut p: usize = 0;
    while p <= last
        invariant
            n == buf@.len(),
            last + token@.len() == buf@.len(),
            token@.len() > 0,
            p <= last + 1,
            find_from(buf@, token@, 0) == find_from(buf@, token@, p as int),
        decreases last + 1 - p,
    {
        if matches_at_exec(buf, token, p) {
            proof {
                lemma_first_match(buf@, token@);
            }
            return Some(p);
        }
        p = p + 1;
    }
    None
}

/// A token placed after bytes in which it does not begin is found right there,
/// whatever follows it.
pub proof fn lemma_find_placed(before: Seq<u8>, token: Seq<u8>, after: Seq<u8>)
    requires
        forall|q: int| 0 <= q < before.len() ==> !matches_at(before + token, token, q),
    ensures
        first_match(before + token + after, token) == Some(before.len() as int),
{
    let head = before + token;
    assert(head.subrange(before.len() as int, head.len() as int) =~= token);
    lemma_first_match_at(head, token, before.len() as int);
    lemma_first_match_extend(head, token, after);
}

/// Nothing is found in an empty buffer.
pub proof fn lemma_find_in_empty(token: Seq<u8>)
    requires
        token.len() > 0,
    ensures
        first_match(Seq::<u8>::empty(), token) is None,
{
    lemma_first_match_none(Seq::<u8>::empty(), token);
}

} // verus!
