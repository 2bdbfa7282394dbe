use vstd::prelude::*;
use crate::part::copy_range;
use crate::scanner::matches_at_exec;

verus! {

/// Why a connection attempt gave no usable stream.
pub enum ConnectError {
    /// The response's status was not a success.
    BadStatus(u16),
    /// The response declared no content type.
    NoContentType,
    /// The content type has no `boundary=` attribute.
    NoBoundary,
    /// The `boundary=` attribute is empty once trimmed.
    EmptyBoundary,
    /// The request itself failed; the text describes how.
    Transport(String),
}

/// An HTTP status in the success class.
pub open spec fn is_success(status: u16) -> bool {
    200 <= status < 300
}

/// Whitespace as header text knows it: space, tab, and line and page breaks.
pub open spec fn is_ws(b: u8) -> bool {
    b == 32 || (9 <= b && b <= 13)
}

/// The first offset at or after `i` that is not whitespace, or the length.
pub open spec fn skip_ws(s: Seq<u8>, i: int) -> int
    decreases s.len() + 1 - i,
{
    if 0 <= i < s.len() && is_ws(s[i]) {
        skip_ws(s, i + 1)
    } else {
        i
    }
}

/// The end of `s.subrange(0, j)` once trailing whitespace is dropped.
pub open spec fn back_ws(s: Seq<u8>, j: int) -> int
    decreases j,
{
    if 0 < j <= s.len() && is_ws(s[j - 1]) {
        back_ws(s, j - 1)
    } else {
        j
    }
}

/// `s` without leading and trailing whitespace.
pub open spec fn trim(s: Seq<u8>) -> Seq<u8> {
    let t = s.subrange(skip_ws(s, 0), s.len() as int);
    t.subrange(0, back_ws(t, t.len() as int))
}

/// The first offset at or after `i` that holds `c`, or the length.
pub open spec fn next_byte(s: Seq<u8>, c: u8, i: int) -> int
    decreases s.len() + 1 - i,
{
    if i < 0 || i >= s.len() {
        s.len() as int
    } else if s[i] == c {
        i
    } else {
        next_byte(s, c, i + 1)
    }
}

/// The text `boundary=`.
pub open spec fn boundary_key() -> Seq<u8> {
    seq![98u8, 111u8, 117u8, 110u8, 100u8, 97u8, 114u8, 121u8, 61u8]
}

/// `s` begins with `prefix`.
pub open spec fn starts_with(s: Seq<u8>, prefix: Seq<u8>) -> bool {
    prefix.len() <= s.len() && s.subrange(0, prefix.len() as int) == prefix
}

/// Whether a `;`-separated segment is the boundary attribute: once its leading
/// whitespace is dropped, it starts with `boundary=`.
pub open spec fn is_boundary_segment(seg: Seq<u8>) -> bool {
    starts_with(seg.subrange(skip_ws(seg, 0), seg.len() as int), boundary_key())
}

/// The first `;`-separated segment of `ct`, from offset `start` on, that is the
/// boundary attribute.
pub open spec fn boundary_segment(ct: Seq<u8>, start: int) -> Option<Seq<u8>>
    decreases ct.len() + 1 - start,
{
    if start < 0 || start > ct.len() {
        None
    } else {
        let e = next_byte(ct, 59u8, start);
        if e < start || e > ct.len() {
            None
        } else if is_boundary_segment(ct.subrange(start, e)) {
            Some(ct.subrange(start, e))
        } else if e >= ct.len() {
            None
        } else {
            boundary_segment(ct, e + 1)
        }
    }
}

/// The attribute's value: the text between its first `=` and the next `=` (or
/// the segment's end), trimmed.
pub open spec fn attribute_value(seg: Seq<u8>) -> Seq<u8> {
    let i = next_byte(seg, 61u8, 0);
    if i >= seg.len() {
        Seq::empty()
    } else {
        trim(seg.subrange(i + 1, next_byte(seg, 61u8, i + 1)))
    }
}

/// The outcome of a response's negotiation: the full boundary token (`--`
/// followed by the declared value), or why there is none.
pub open spec fn negotiate_spec(status: u16, content_type: Option<Seq<u8>>) -> Result<
    Seq<u8>,
    ConnectError,
> {
    if !is_success(status) {
        Err(ConnectError::BadStatus(status))
    } else {
        match content_type {
            None => Err(ConnectError::NoContentType),
            Some(ct) => match boundary_segment(ct, 0) {
                None => Err(ConnectError::NoBoundary),
                Some(seg) => {
                    let v = attribute_value(seg);
                    if v.len() == 0 {
                        Err(ConnectError::EmptyBoundary)
                    } else {
                        Ok(seq![45u8, 45u8] + v)
                    }
                },
            },
        }
    }
}

fn skip_ws_exec(s: &[u8], i: usize) -> (r: usize)
    requires
        i <= s@.len(),
    ensures
        r == skip_ws(s@, i as int),
        i <= r <= s@.len(),
{
    let n: usize = s.len();
    let mut k: usize = i;
    while k < n && (s[k] == 32u8 || (9u8 <= s[k] && s[k] <= 13u8))
        invariant
            n == s@.len(),
            i <= k <= n,
            skip_ws(s@, i as int) == skip_ws(s@, k as int),
        decreases n - k,
    {
        k = k + 1;
    }
    k
}

fn back_ws_exec(s: &[u8], j: usize) -> (r: usize)
    requires
        j <= s@.len(),
    ensures
        r == back_ws(s@, j as int),
        r <= j,
{
    let mut k: usize = j;
    while k > 0 && (s[k - 1] == 32u8 || (9u8 <= s[k - 1] && s[k - 1] <= 13u8))
        invariant
            k <= j <= s@.len(),
            back_ws(s@, j as int) == back_ws(s@, k as int),
        decreases k,
    {
        k = k - 1;
    }
    k
}

fn next_byte_exec(s: &[u8], c: u8, i: usize) -> (r: usize)
    requires
        i <= s@.len(),
    ensures
        r == next_byte(s@, c, i as int),
        i <= r <= s@.len(),
{
    let n: usize = s.len();
    let mut k: usize = i;
    while k < n && s[k] != c
        invariant
            n == s@.len(),
            i <= k <= n,
            next_byte(s@, c, i as int) == next_byte(s@, c, k as int),
        decreases n - k,
    {
        k = k + 1;
    }
    k
}

/// `s` without leading and trailing whitespace.
pub fn trim_bytes(s: &[u8]) -> (r: Vec<u8>)
    ensures
        r@ == trim(s@),
{
    let a: usize = skip_ws_exec(s, 0);
    let t: Vec<u8> = copy_range(s, a, s.len());
    let b: usize = back_ws_exec(t.as_slice(), t.len());
    copy_range(t.as_slice(), 0, b)
}

/// Whether a segment is the boundary attribute.
fn is_boundary_segment_exec(seg: &[u8]) -> (r: bool)
    ensures
        r == is_boundary_segment(seg@),
{
    let n: usize = seg.len();
    let a: usize = skip_ws_exec(seg, 0);
    let key: Vec<u8> = vec![98u8, 111u8, 117u8, 110u8, 100u8, 97u8, 114u8, 121u8, 61u8];
    assert(key@ =~= boundary_key());
    if n - a < key.len() {
        return false;
    }
    assert(seg@.subrange(a as int, n as int).subrange(0, 9) =~= seg@.subrange(
        a as int,
        a + 9,
    ));
    matches_at_exec(seg, key.as_slice(), a)
}

/// The first `;`-separated segment of a content type that is the boundary
/// attribute, if there is one.
pub fn find_boundary_segment(ct: &[u8]) -> (r: Option<Vec<u8>>)
    ensures
        match r {
            Some(v) => boundary_segment(ct@, 0) == Some(v@),
            None => boundary_segment(ct@, 0) is None,
        },
{
    let n: usize = ct.len();
    let mut start: usize = 0;
    loop
        invariant
            n == ct@.len(),
            start <= n,
            boundary_segment(ct@, 0) == boundary_segment(ct@, start as int),
        decreases n - start,
    {
        let e: usize = next_byte_exec(ct, 59u8, start);
        let seg: Vec<u8> = copy_range(ct, start, e);
        if is_boundary_segment_exec(seg.as_slice()) {
            return Some(seg);
        }
        if e >= n {
            return None;
        }
        start = e + 1;
    }
}

/// The value of a boundary attribute: what stands between its first `=` and
/// the next one, trimmed.
pub fn boundary_value(seg: &[u8]) -> (r: Vec<u8>)
    ensures
        r@ == attribute_value(seg@),
{
    let i: usize = next_byte_exec(seg, 61u8, 0);
    if i >= seg.len() {
        return Vec::new();
    }
    let j: usize = next_byte_exec(seg, 61u8, i + 1);
    let raw: Vec<u8> = copy_range(seg, i + 1, j);
    trim_bytes(raw.as_slice())
}

/// The bytes an optional header value holds.
pub open spec fn opt_view(o: Option<&[u8]>) -> Option<Seq<u8>> {
    match o {
        Some(s) => Some(s@),
        None => None,
    }
}

/// Checks a response's status and content type, and derives the boundary token
/// that delimits its parts.
pub fn negotiate(status: u16, content_type: Option<&[u8]>) -> (r: Result<Vec<u8>, ConnectError>)
    ensures
        match r {
            Ok(v) => negotiate_spec(status, opt_view(content_type)) == Ok::<Seq<u8>, ConnectError>(v@),
            Err(e) => negotiate_spec(status, opt_view(content_type)) == Err::<Seq<u8>, ConnectError>(e),
        },
{
    if status < 200 || status >= 300 {
        return Err(ConnectError::BadStatus(status));
    }
    match content_type {
        None => Err(ConnectError::NoContentType),
        Some(ct) => match find_boundary_segment(ct) {
            None => Err(ConnectError::NoBoundary),
            Some(seg) => {
                let v: Vec<u8> = boundary_value(seg.as_slice());
                if v.len() == 0 {
                    Err(ConnectError::EmptyBoundary)
                } else {
                    let mut token: Vec<u8> = vec![45u8, 45u8];
                    let ghost start = token@;
                    let mut k: usize = 0;
                    while k < v.len()
                        invariant
                            k <= v@.len(),
                            start == seq![45u8, 45u8],
                            token@ == start + v@.subrange(0, k as int),
                        decreases v@.len() - k,
                    {
                        token.push(v[k]);
                        k = k + 1;
                        assert(token@ =~= start + v@.subrange(0, k as int));
                    }
                    assert(v@.subrange(0, v@.len() as int) =~= v@);
                    Ok(token)
                }
            },
        },
    }
}

/// A response whose status is not a success is refused with that status,
/// whatever its content type.
pub proof fn lemma_bad_status_refused(status: u16, content_type: Option<Seq<u8>>)
    requires
        !is_success(status),
    ensures
        negotiate_spec(status, content_type) == Err::<Seq<u8>, ConnectError>(
            ConnectError::BadStatus(status),
        ),
{
}

} // verus!
