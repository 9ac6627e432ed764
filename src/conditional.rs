use vstd::prelude::*;
use vstd::slice::slice_subrange;
use crate::error::{Error, ErrorKind};
use crate::etag::{etag_spec, hex_digit, hex_lower, Timestamp};
use crate::text::{is_visible, visible, visible_byte};

verus! {

/// The ASCII bytes that `str::trim` removes.
pub open spec fn is_ws(b: u8) -> bool {
    b == 32 || b == 9 || b == 10 || b == 11 || b == 12 || b == 13
}

pub open spec fn trim_start(s: Seq<u8>) -> Seq<u8>
    decreases s.len(),
{
    if s.len() > 0 && is_ws(s[0]) { trim_start(s.drop_first()) } else { s }
}

pub open spec fn trim_end(s: Seq<u8>) -> Seq<u8>
    decreases s.len(),
{
    if s.len() > 0 && is_ws(s.last()) { trim_end(s.drop_last()) } else { s }
}

/// `s` without the whitespace at either end.
pub open spec fn trim(s: Seq<u8>) -> Seq<u8> {
    trim_end(trim_start(s))
}

/// `h[i..j]` is one of the comma-separated pieces of `h`.
pub open spec fn is_token(h: Seq<u8>, i: int, j: int) -> bool {
    &&& 0 <= i <= j <= h.len()
    &&& i == 0 || h[i - 1] == 44
    &&& j == h.len() || h[j] == 44
    &&& forall|k: int| i <= k < j ==> h[k] != 44
}

/// Some comma-separated piece of an `If-None-Match` value, trimmed, is exactly `etag`.
pub open spec fn inm_matches(h: Seq<u8>, etag: Seq<u8>) -> bool {
    exists|i: int, j: int| #[trigger] is_token(h, i, j) && trim(h.subrange(i, j)) == etag
}

/// The whole seconds of the instant that an RFC 2822 date denotes, if it is one.
pub uninterp spec fn rfc2822_secs(s: Seq<u8>) -> Option<i64>;

/// Relies on `chrono::DateTime::parse_from_rfc2822` and `DateTime::timestamp`:
/// the date's seconds since the Unix epoch, or `None` where it does not parse.
#[verifier::external_body]
fn parse_http_date(b: &[u8]) -> (r: Option<i64>)
    requires
        visible(b@),
    ensures
        r == rfc2822_secs(b@),
{
    match std::str::from_utf8(b) {
        Ok(s) => match chrono::DateTime::parse_from_rfc2822(s) {
            Ok(d) => Some(d.timestamp()),
            Err(_) => None,
        },
        Err(_) => None,
    }
}

/// The bounds of `h[i..j]` with its surrounding whitespace taken off.
fn trim_bounds(h: &[u8], i: usize, j: usize) -> (r: (usize, usize))
    requires
        i <= j <= h@.len(),
    ensures
        i <= r.0 <= r.1 <= j,
        trim(h@.subrange(i as int, j as int)) == h@.subrange(r.0 as int, r.1 as int),
{
    let mut a = i;
    while a < j && (h[a] == 32 || h[a] == 9 || h[a] == 10 || h[a] == 11 || h[a] == 12 || h[a] == 13)
        invariant
            i <= a <= j <= h@.len(),
            trim_start(h@.subrange(i as int, j as int)) == trim_start(h@.subrange(a as int, j as int)),
        decreases j - a,
    {
        assert(h@.subrange(a as int, j as int).drop_first() =~= h@.subrange(a + 1, j as int));
        a += 1;
    }
    let mut b = j;
    while b > a && (h[b - 1] == 32 || h[b - 1] == 9 || h[b - 1] == 10 || h[b - 1] == 11
        || h[b - 1] == 12 || h[b - 1] == 13)
        invariant
            i <= a <= b <= j <= h@.len(),
            trim_start(h@.subrange(i as int, j as int)) == h@.subrange(a as int, j as int),
            trim_end(h@.subrange(a as int, j as int)) == trim_end(h@.subrange(a as int, b as int)),
        decreases b - a,
    {
        assert(h@.subrange(a as int, b as int).drop_last() =~= h@.subrange(a as int, b - 1));
        b -= 1;
    }
    (a, b)
}

fn bytes_eq(x: &[u8], y: &[u8]) -> (r: bool)
    ensures
        r == (x@ == y@),
{
    if x.len() != y.len() {
        return false;
    }
    let mut k: usize = 0;
    while k < x.len()
        invariant
            x@.len() == y@.len(),
            0 <= k <= x@.len(),
            forall|m: int| 0 <= m < k ==> x@[m] == y@[m],
        decreases x@.len() - k,
    {
        if x[k] != y[k] {
            return false;
        }
        k += 1;
    }
    assert(x@ =~= y@);
    true
}

proof fn lemma_token_unique(h: Seq<u8>, i: int, start: int, j: int)
    requires
        is_token(h, i, j),
        0 <= start <= j,
        start == 0 || h[start - 1] == 44,
        forall|k: int| start <= k < j ==> h[k] != 44,
    ensures
        i == start,
{
    if i < start {
        assert(h[start - 1] != 44);
    } else if i > start {
        assert(h[i - 1] != 44);
    }
}

/// Whether some comma-separated entity tag of an `If-None-Match` value,
/// trimmed, equals `etag`. A value that is not text is a `BadRequest`.
pub fn etag_match(hdr: &[u8], etag: &[u8]) -> (r: Result<bool, Error>)
    ensures
        visible(hdr@) ==> (r matches Ok(m) && m == inm_matches(hdr@, etag@)),
        !visible(hdr@) ==> (r matches Err(e) && e.spec_kind() == ErrorKind::BadRequest),
{
    if !is_visible(hdr) {
        return Err(Error::bad_req());
    }
    let ghost h = hdr@;
    let mut start: usize = 0;
    let mut p: usize = 0;
    while p < hdr.len()
        invariant
            h == hdr@,
            visible(h),
            0 <= start <= p <= h.len(),
            start == 0 || h[start - 1] == 44,
            forall|k: int| start <= k < p ==> h[k] != 44,
            forall|i: int, j: int|
                #[trigger] is_token(h, i, j) && j < p ==> trim(h.subrange(i, j)) != etag@,
        decreases h.len() - p,
    {
        if hdr[p] == 44 {
            let (a, b) = trim_bounds(hdr, start, p);
            if bytes_eq(slice_subrange(hdr, a, b), etag) {
                assert(is_token(h, start as int, p as int));
                return Ok(true);
            }
            assert forall|i: int, j: int|
                #[trigger] is_token(h, i, j) && j < p + 1 implies trim(h.subrange(i, j)) != etag@ by {
                if j == p {
                    lemma_token_unique(h, i, start as int, j);
                }
            }
            start = p + 1;
        } else {
            assert forall|i: int, j: int|
                #[trigger] is_token(h, i, j) && j < p + 1 implies trim(h.subrange(i, j)) != etag@ by {
                if j == p {
                    assert(h[j] == 44);
                }
            }
        }
        p += 1;
    }
    let (a, b) = trim_bounds(hdr, start, p);
    if bytes_eq(slice_subrange(hdr, a, b), etag) {
        assert(is_token(h, start as int, p as int));
        return Ok(true);
    }
    assert forall|i: int, j: int| #[trigger] is_token(h, i, j) implies trim(h.subrange(i, j)) != etag@ by {
        if j == p {
            lemma_token_unique(h, i, start as int, j);
        }
    }
    Ok(false)
}

/// Whether a parsed `If-Modified-Since` date names the same whole second as
/// the modification time; a date that did not parse is a `BadRequest`.
pub fn same_second(date_secs: Option<i64>, modified: Timestamp) -> (r: Result<bool, Error>)
    ensures
        match date_secs {
            Some(s) => r matches Ok(m) && m == (s == modified.secs),
            None => r matches Err(e) && e.spec_kind() == ErrorKind::BadRequest,
        },
{
    match date_secs {
        Some(s) => Ok(s == modified.secs),
        None => Err(Error::bad_req()),
    }
}

/// The optional header value as bytes.
pub open spec fn opt_bytes(o: Option<&[u8]>) -> Option<Seq<u8>> {
    match o {
        Some(h) => Some(h@),
        None => None,
    }
}

/// Whether the request is answered "not modified": `Some(true)` or
/// `Some(false)`, or `None` for a malformed header. `If-None-Match` decides
/// where it is present; otherwise `If-Modified-Since` decides, by equality of
/// whole seconds with the modification time.
pub open spec fn conditional_spec(
    inm: Option<Seq<u8>>,
    ims: Option<Seq<u8>>,
    etag: Seq<u8>,
    modified_secs: i64,
) -> Option<bool> {
    match inm {
        Some(h) => if visible(h) { Some(inm_matches(h, etag)) } else { None },
        None => match ims {
            Some(h) => if !visible(h) {
                None
            } else {
                match rfc2822_secs(h) {
                    Some(s) => Some(s == modified_secs),
                    None => None,
                }
            },
            None => Some(false),
        },
    }
}

/// Evaluates the conditional headers against the resource's entity tag and
/// modification time; a malformed header is a `BadRequest`.
pub fn not_modified(
    if_none_match: Option<&[u8]>,
    if_modified_since: Option<&[u8]>,
    etag: &[u8],
    modified: Timestamp,
) -> (r: Result<bool, Error>)
    ensures
        match conditional_spec(opt_bytes(if_none_match), opt_bytes(if_modified_since), etag@, modified.secs) {
            Some(m) => r matches Ok(v) && v == m,
            None => r matches Err(e) && e.spec_kind() == ErrorKind::BadRequest,
        },
{
    match if_none_match {
        Some(h) => etag_match(h, etag),
        None => match if_modified_since {
            Some(h) => {
                if !is_visible(h) {
                    return Err(Error::bad_req());
                }
                same_second(parse_http_date(h), modified)
            },
            None => Ok(false),
        },
    }
}

/// An `If-None-Match` value that is exactly a resource's current entity tag
/// always matches it, whatever `If-Modified-Since` holds.
pub proof fn lemma_current_etag_matches(path: Seq<u8>, t: Timestamp, ims: Option<Seq<u8>>)
    ensures
        conditional_spec(Some(etag_spec(path, t)), ims, etag_spec(path, t), t.secs) == Some(true),
{
    let e = etag_spec(path, t);
    let x = hex_lower(crate::etag::sha256_of(crate::etag::etag_input(path, t)));
    assert forall|k: int| 0 <= k < x.len() implies
        #[trigger] x[k] != 44 && visible_byte(x[k]) && !is_ws(x[k]) by {
        let d = crate::etag::sha256_of(crate::etag::etag_input(path, t));
        let v: u8 = if k % 2 == 0 { d[k / 2] / 16 } else { d[k / 2] % 16 };
        assert(v < 16);
        assert(x[k] == hex_digit(v));
    }
    assert forall|k: int| 0 <= k < e.len() implies #[trigger] e[k] != 44 && visible_byte(e[k]) by {
        if 0 < k < e.len() - 1 {
            assert(e[k] == x[k - 1]);
        }
    }
    assert(trim_start(e) == e);
    assert(trim_end(e) == e);
    assert(e.subrange(0, e.len() as int) =~= e);
    assert(is_token(e, 0, e.len() as int));
}

} // verus!
