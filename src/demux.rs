use vstd::prelude::*;
use crate::part::{copy_range, decode, header_end, payload_of};
use crate::scanner::{
    find, first_match, lemma_first_match, lemma_first_match_at, lemma_first_match_extend,
    lemma_first_match_none, matches_at,
};

verus! {

/// The token that ends the next part: the boundary itself before the first
/// frame, and CRLF followed by the boundary after it.
pub open spec fn token_for(boundary: Seq<u8>, is_first_frame: bool) -> Seq<u8> {
    if is_first_frame {
        boundary
    } else {
        seq![13u8, 10u8] + boundary
    }
}

/// Draining `buf` against `token`: the payload of the first part that has one,
/// with what is left after that part's closing token; parts without a payload
/// are dropped on the way. Where no closing token is left, no payload, and the
/// buffer as it stands.
pub open spec fn drain_spec(buf: Seq<u8>, token: Seq<u8>) -> (Option<Seq<u8>>, Seq<u8>)
    decreases buf.len(),
{
    if token.len() == 0 {
        (None, buf)
    } else {
        match first_match(buf, token) {
            Some(p) => {
                if 0 <= p && p + token.len() <= buf.len() {
                    let rest = buf.subrange(p + token.len(), buf.len() as int);
                    match payload_of(buf.subrange(0, p)) {
                        Some(payload) => (Some(payload), rest),
                        None => drain_spec(rest, token),
                    }
                } else {
                    (None, buf)
                }
            },
            None => (None, buf),
        }
    }
}

/// What one drain of the buffer gives.
pub enum Outcome {
    /// The payload of the next complete part.
    FrameReady(Vec<u8>),
    /// No complete part is left in the buffer.
    NeedMoreData,
}

/// The token for the next part, as bytes.
pub fn token_bytes(boundary: &[u8], is_first_frame: bool) -> (r: Vec<u8>)
    ensures
        r@ == token_for(boundary@, is_first_frame),
{
    let mut r: Vec<u8> = Vec::new();
    if !is_first_frame {
        r.push(13u8);
        r.push(10u8);
    }
    let ghost start = r@;
    let mut i: usize = 0;
    while i < boundary.len()
        invariant
            i <= boundary@.len(),
            r@ == start + boundary@.subrange(0, i as int),
        decreases boundary@.len() - i,
    {
        r.push(boundary[i]);
        i = i + 1;
        assert(r@ =~= start + boundary@.subrange(0, i as int));
    }
    assert(boundary@.subrange(0, boundary@.len() as int) =~= boundary@);
    assert(is_first_frame ==> start =~= Seq::<u8>::empty());
    assert(!is_first_frame ==> start =~= seq![13u8, 10u8]);
    r
}

/// Takes the next frame out of `buffer`: the part before the next boundary is
/// removed with that boundary, and its payload returned; parts without a payload
/// are removed and skipped. Where no boundary is left, the buffer stays as it is.
pub fn drain(buffer: &mut Vec<u8>, boundary: &[u8], is_first_frame: bool) -> (r: Outcome)
    requires
        boundary@.len() > 0,
    ensures
        final(buffer)@ == drain_spec(old(buffer)@, token_for(boundary@, is_first_frame)).1,
        match r {
            Outcome::FrameReady(v) => drain_spec(
                old(buffer)@,
                token_for(boundary@, is_first_frame),
            ).0 == Some(v@),
            Outcome::NeedMoreData => drain_spec(
                old(buffer)@,
                token_for(boundary@, is_first_frame),
            ).0 is None,
        },
{
    let token: Vec<u8> = token_bytes(boundary, is_first_frame);
    let ghost tok = token@;
    let ghost goal = drain_spec(buffer@, tok);
    loop
        invariant
            tok == token@,
            tok == token_for(boundary@, is_first_frame),
            tok.len() > 0,
            goal == drain_spec(old(buffer)@, tok),
            drain_spec(buffer@, tok) == goal,
        decreases buffer@.len(),
    {
        proof {
            lemma_first_match(buffer@, tok);
        }
        match find(buffer.as_slice(), token.as_slice()) {
            None => {
                return Outcome::NeedMoreData;
            },
            Some(p) => {
                let n: usize = buffer.len();
                let end: usize = p + token.len();
                let payload: Option<Vec<u8>> = decode(
                    vstd::slice::slice_subrange(buffer.as_slice(), 0, p),
                );
                let rest: Vec<u8> = copy_range(buffer.as_slice(), end, n);
                *buffer = rest;
                match payload {
                    Some(v) => {
                        return Outcome::FrameReady(v);
                    },
                    None => {},
                }
            },
        }
    }
}

/// The payload of `headers`, blank line, `payload`, where the blank line is the
/// first one.
proof fn lemma_payload_after_headers(headers: Seq<u8>, payload: Seq<u8>)
    requires
        first_match(headers + header_end(), header_end()) == Some(headers.len() as int),
        payload.len() > 0,
    ensures
        payload_of(headers + header_end() + payload) == Some(payload),
{
    lemma_first_match_extend(headers + header_end(), header_end(), payload);
    let part = headers + header_end() + payload;
    assert(part.subrange(headers.len() + 4int, part.len() as int) =~= payload);
}

/// Nothing is left to drain from an empty buffer.
proof fn lemma_drain_empty(token: Seq<u8>)
    requires
        token.len() > 0,
    ensures
        drain_spec(Seq::<u8>::empty(), token) == (None::<Seq<u8>>, Seq::<u8>::empty()),
{
    lemma_first_match_none(Seq::<u8>::empty(), token);
}

/// A well-formed stream of two parts, fed from its very first byte: the
/// opening boundary, then each part as headers, blank line and payload,
/// followed by CRLF and the boundary. The boundary begins nowhere else, and each
/// part's headers hold no blank line of their own. Draining it from the first
/// frame on gives the first payload (with the CRLF before the next boundary, as
/// the bare boundary closes the first part), then the second payload, then asks
/// for more bytes; the buffer is empty after the second frame and stays so.
pub proof fn lemma_two_part_buffer(
    boundary: Seq<u8>,
    headers1: Seq<u8>,
    payload1: Seq<u8>,
    headers2: Seq<u8>,
    payload2: Seq<u8>,
)
    requires
        boundary.len() > 0,
        payload1.len() > 0,
        payload2.len() > 0,
        first_match(headers1 + header_end(), header_end()) == Some(headers1.len() as int),
        first_match(headers2 + header_end(), header_end()) == Some(headers2.len() as int),
        first_match(headers1 + header_end() + payload1 + seq![13u8, 10u8] + boundary, boundary)
            == Some(headers1.len() + 4 + payload1.len() + 2int),
        first_match(
            headers2 + header_end() + payload2 + seq![13u8, 10u8] + boundary,
            seq![13u8, 10u8] + boundary,
        ) == Some(headers2.len() + 4 + payload2.len() as int),
    ensures
        ({
            let crlf = seq![13u8, 10u8];
            let part1 = headers1 + header_end() + payload1 + crlf + boundary;
            let part2 = headers2 + header_end() + payload2 + crlf + boundary;
            let d1 = drain_spec(boundary + part1 + part2, token_for(boundary, true));
            let d2 = drain_spec(d1.1, token_for(boundary, false));
            let d3 = drain_spec(d2.1, token_for(boundary, false));
            &&& d1.0 == Some(payload1 + crlf)
            &&& d2.0 == Some(payload2)
            &&& d2.1 == Seq::<u8>::empty()
            &&& d3.0 is None
            &&& d3.1 == Seq::<u8>::empty()
        }),
{
    let crlf = seq![13u8, 10u8];
    let x1 = headers1 + header_end() + payload1;
    let x2 = headers2 + header_end() + payload2;
    let part1 = headers1 + header_end() + payload1 + crlf + boundary;
    let part2 = headers2 + header_end() + payload2 + crlf + boundary;
    let buf = boundary + part1 + part2;
    let tok2 = crlf + boundary;
    let blen = boundary.len() as int;

    // The opening boundary closes an empty part, which is dropped.
    assert(buf.subrange(0, blen) =~= boundary);
    lemma_first_match_at(buf, boundary, 0);
    let rest0 = buf.subrange(blen, buf.len() as int);
    assert(rest0 =~= part1 + part2);
    assert(buf.subrange(0, 0) =~= Seq::<u8>::empty());
    lemma_first_match_none(Seq::<u8>::empty(), header_end());
    assert(payload_of(Seq::<u8>::empty()) is None);
    assert(drain_spec(buf, boundary) == drain_spec(rest0, boundary));

    // The bare boundary closes the first part, CRLF included in its payload.
    let p1 = x1.len() + 2int;
    lemma_first_match_extend(part1, boundary, part2);
    assert(rest0.subrange(0, p1) =~= headers1 + header_end() + (payload1 + crlf));
    lemma_payload_after_headers(headers1, payload1 + crlf);
    let rest1 = rest0.subrange(p1 + blen, rest0.len() as int);
    assert(rest1 =~= part2);
    assert(drain_spec(rest0, boundary) == (Some(payload1 + crlf), rest1));

    // CRLF and the boundary close the second part.
    let p2 = x2.len() as int;
    assert(part2 =~= x2 + tok2);
    assert(part2.subrange(0, p2) =~= x2);
    lemma_payload_after_headers(headers2, payload2);
    assert(part2.subrange(p2 + tok2.len(), part2.len() as int) =~= Seq::<u8>::empty());
    assert(drain_spec(part2, tok2) == (Some(payload2), Seq::<u8>::empty()));

    lemma_drain_empty(tok2);
}

} // verus!
