use vstd::prelude::*;
use vstd::slice::slice_subrange;
use crate::error::{Error, ErrorKind};
use crate::text::{
    after, before, decimal, find_byte, is_digit, is_visible,
    lemma_decimal, lemma_decimal_u64_text, lemma_first_index, parse_u64, u64_text, visible,
};

verus! {

/// A single requested byte interval: from `start`, up to and including `end`,
/// or to the end of the resource where `end` is `None`.
#[derive(Debug, Clone, Copy, PartialEq, Eq, Structural)]
pub struct ByteRange {
    pub start: u64,
    pub end: Option<u64>,
}

/// The unit name `bytes`.
pub open spec fn bytes_unit() -> Seq<u8> {
    seq![98u8, 121u8, 116u8, 101u8, 115u8]
}

/// What a `Range` header value denotes: `bytes=<start>-[<end>]`, with `start`
/// and `end` decimal `u64` texts and an empty or missing `end` meaning open-ended.
/// `None` for a value that is not text, another unit, or any other shape.
pub open spec fn range_spec(h: Seq<u8>) -> Option<(u64, Option<u64>)> {
    if !visible(h) || before(h, 61) != bytes_unit() {
        None
    } else {
        match after(h, 61) {
            None => None,
            Some(rest) => match u64_text(before(rest, 45)) {
                None => None,
                Some(start) => match after(rest, 45) {
                    None => Some((start, None)),
                    Some(e) => if e.len() == 0 {
                        Some((start, None))
                    } else {
                        match u64_text(e) {
                            None => None,
                            Some(end) => Some((start, Some(end))),
                        }
                    },
                },
            },
        }
    }
}

fn is_bytes_unit(u: &[u8]) -> (r: bool)
    ensures
        r == (u@ == bytes_unit()),
{
    if u.len() == 5 && u[0] == 98 && u[1] == 121 && u[2] == 116 && u[3] == 101 && u[4] == 115 {
        assert(u@ =~= bytes_unit());
        true
    } else {
        proof {
            if u@ == bytes_unit() {
                assert(u@[0] == 98 && u@[1] == 121 && u@[2] == 116 && u@[3] == 101 && u@[4] == 115);
            }
        }
        false
    }
}

/// Parses the value of a `Range` header; any malformed value is a `BadRequest`.
pub fn parse_range(hdr: &[u8]) -> (r: Result<ByteRange, Error>)
    ensures
        match range_spec(hdr@) {
            Some((start, end)) => r matches Ok(b) && b.start == start && b.end == end,
            None => r matches Err(e) && e.spec_kind() == ErrorKind::BadRequest,
        },
{
    if !is_visible(hdr) {
        return Err(Error::bad_req());
    }
    let eq = find_byte(hdr, 61);
    let units = slice_subrange(hdr, 0, eq);
    if !is_bytes_unit(units) {
        return Err(Error::bad_req());
    }
    if eq == hdr.len() {
        return Err(Error::bad_req());
    }
    let rest = slice_subrange(hdr, eq + 1, hdr.len());
    let dash = find_byte(rest, 45);
    let start = match parse_u64(slice_subrange(rest, 0, dash)) {
        Some(v) => v,
        None => return Err(Error::bad_req()),
    };
    if dash == rest.len() {
        return Ok(ByteRange { start, end: None });
    }
    let e = slice_subrange(rest, dash + 1, rest.len());
    if e.len() == 0 {
        return Ok(ByteRange { start, end: None });
    }
    match parse_u64(e) {
        Some(end) => Ok(ByteRange { start, end: Some(end) }),
        None => Err(Error::bad_req()),
    }
}

/// A header whose unit, the text before its first `=`, is not `bytes` never parses.
pub proof fn lemma_other_unit_rejected(h: Seq<u8>)
    requires
        before(h, 61) != bytes_unit(),
    ensures
        range_spec(h) is None,
{
}

/// The header `bytes=<a>-<b>`, with `a` and `b` written in decimal.
pub open spec fn closed_range_header(a: u64, b: u64) -> Seq<u8> {
    bytes_unit() + seq![61u8] + decimal(a as nat) + seq![45u8] + decimal(b as nat)
}

/// `bytes=<a>-<b>` with `a <= b` parses to the range from `a` to `b`.
pub proof fn lemma_closed_range_parses(a: u64, b: u64)
    requires
        a <= b,
    ensures
        range_spec(closed_range_header(a, b)) == Some((a, Some(b))),
{
    let da = decimal(a as nat);
    let db = decimal(b as nat);
    lemma_decimal(a as nat);
    lemma_decimal(b as nat);
    lemma_decimal_u64_text(a);
    lemma_decimal_u64_text(b);
    let h = closed_range_header(a, b);
    let u = bytes_unit();
    assert forall|i: int| 0 <= i < h.len() implies crate::text::visible_byte(#[trigger] h[i]) by {
        if 6 <= i < 6 + da.len() {
            assert(h[i] == da[i - 6]);
            assert(is_digit(da[i - 6]));
        } else if 7 + da.len() <= i {
            assert(h[i] == db[i - 7 - da.len()]);
            assert(is_digit(db[i - 7 - da.len()]));
        }
    }
    lemma_first_index(h, 61, 5);
    assert(before(h, 61) =~= u);
    let rest = da + seq![45u8] + db;
    assert(h.subrange(6, h.len() as int) =~= rest);
    assert forall|j: int| 0 <= j < da.len() implies rest[j] != 45 by {
        assert(rest[j] == da[j]);
        assert(is_digit(da[j]));
    }
    lemma_first_index(rest, 45, da.len() as int);
    assert(before(rest, 45) =~= da);
    assert(rest.subrange(da.len() as int + 1, rest.len() as int) =~= db);
}

/// A requested range can be served: an open-ended one must start inside the
/// resource, a closed one must not end before it starts, and its length must
/// be a `u64`.
pub open spec fn satisfiable(r: ByteRange, size: u64) -> bool {
    match r.end {
        None => r.start < size,
        Some(e) => e >= r.start && e - r.start < u64::MAX,
    }
}

/// The number of bytes that a satisfiable range selects.
pub open spec fn part_len(r: ByteRange, size: u64) -> int {
    match r.end {
        None => size - r.start,
        Some(e) => e - r.start + 1,
    }
}

/// The last byte position that the response's `Content-Range` names.
pub open spec fn resolved_end(r: ByteRange, size: u64) -> int {
    match r.end {
        None => size - 1,
        Some(e) => e as int,
    }
}

impl ByteRange {
    pub fn is_satisfiable(&self, size: u64) -> (r: bool)
        ensures
            r == satisfiable(*self, size),
    {
        match self.end {
            None => self.start < size,
            Some(e) => e >= self.start && e - self.start < u64::MAX,
        }
    }

    pub fn part_size(&self, size: u64) -> (r: u64)
        requires
            satisfiable(*self, size),
        ensures
            r == part_len(*self, size),
    {
        match self.end {
            None => size - self.start,
            Some(e) => e - self.start + 1,
        }
    }

    pub fn last_position(&self, size: u64) -> (r: u64)
        requires
            satisfiable(*self, size),
        ensures
            r == resolved_end(*self, size),
    {
        match self.end {
            None => size - 1,
            Some(e) => e,
        }
    }
}

} // verus!
