use vstd::prelude::*;
use crate::scanner::{find, first_match, lemma_find_placed, lemma_first_match, matches_at};

verus! {

/// The blank line (CRLF CRLF) that ends a part's headers.
pub open spec fn header_end() -> Seq<u8> {
    seq![13u8, 10u8, 13u8, 10u8]
}

/// The bytes of `s` from `start` up to `end`, as a new vector.
pub fn copy_range(s: &[u8], start: usize, end: usize) -> (r: Vec<u8>)
    requires
        start <= end <= s@.len(),
    ensures
        r@ == s@.subrange(start as int, end as int),
{
    let mut r: Vec<u8> = Vec::new();
    let mut i: usize = start;
    while i < end
        invariant
            start <= i <= end <= s@.len(),
            r@ == s@.subrange(start as int, i as int),
        decreases end - i,
    {
        r.push(s[i]);
        i = i + 1;
        assert(r@ =~= s@.subrange(start as int, i as int));
    }
    r
}

/// The payload of a part: the bytes after the first blank line, provided there
/// is such a line and at least one byte follows it.
pub open spec fn payload_of(part: Seq<u8>) -> Option<Seq<u8>> {
    match first_match(part, header_end()) {
        Some(q) => {
            let payload = part.subrange(q + 4, part.len() as int);
            if payload.len() == 0 {
                None
            } else {
                Some(payload)
            }
        },
        None => None,
    }
}

/// Extracts the payload of one part, dropping its headers; `None` where the part
/// has no blank line or nothing after it.
pub fn decode(part: &[u8]) -> (r: Option<Vec<u8>>)
    ensures
        match r {
            Some(v) => payload_of(part@) == Some(v@),
            None => payload_of(part@) is None,
        },
{
    let n: usize = part.len();
    let sep: Vec<u8> = vec![13u8, 10u8, 13u8, 10u8];
    assert(sep@ =~= header_end());
    match find(part, sep.as_slice()) {
        Some(q) => {
            let start: usize = q + 4;
            if start >= n {
                None
            } else {
                Some(copy_range(part, start, n))
            }
        },
        None => None,
    }
}

/// Headers without a carriage return, then the blank line, then a payload: the
/// part decodes to exactly that payload, or to nothing where it is empty.
pub proof fn lemma_decode_part(headers: Seq<u8>, payload: Seq<u8>)
    requires
        forall|i: int| 0 <= i < headers.len() ==> headers[i] != 13u8,
    ensures
        payload_of(headers + header_end() + payload) == if payload.len() == 0 {
            None
        } else {
            Some(payload)
        },
{
    let sep = header_end();
    let head = headers + sep;
    assert forall|q: int| 0 <= q < headers.len() implies !matches_at(head, sep, q) by {
        if matches_at(head, sep, q) {
            assert(head.subrange(q, q + 4)[0] == head[q]);
        }
    }
    lemma_find_placed(headers, sep, payload);
    let part = headers + sep + payload;
    assert(part.subrange(headers.len() + 4int, part.len() as int) =~= payload);
}

/// A part with no blank line decodes to nothing.
pub proof fn lemma_decode_without_separator(part: Seq<u8>)
    requires
        forall|q: int| !matches_at(part, header_end(), q),
    ensures
        payload_of(part) is None,
{
    lemma_first_match(part, header_end());
}

} // verus!
