use vstd::prelude::*;
use crate::conditional::{conditional_spec, not_modified, opt_bytes};
use crate::error::{Error, ErrorKind};
use crate::etag::{etag_for, etag_spec, Timestamp};
use crate::text::{decimal, push_decimal};
use crate::range::{parse_range, part_len, range_spec, resolved_end, satisfiable, ByteRange};

verus! {

/// The content type of a response whose caller names none.
pub const DEFAULT_MIME_TYPE: &'static str = "application/octet-stream";

/// The `strftime` pattern of a `Last-Modified` value, e.g. `Sat, 05 Oct 2024 14:23:01 GMT`.
pub const TIME_STR: &'static str = "%a, %d %b %Y %T %Z";

/// The size and modification time of an opened regular file.
#[derive(Debug, Clone, Copy, PartialEq, Eq, Structural)]
pub struct Resource {
    pub size: u64,
    pub modified: Timestamp,
}

/// Why a file could not be opened.
pub enum OpenFailure {
    NotFound,
    PermissionDenied,
    Other(String),
}

/// What opening a path and reading its metadata gave.
pub enum Opened {
    Failed(OpenFailure),
    MetadataFailed(String),
    Metadata { size: u64, is_dir: bool, modified: Result<Timestamp, String> },
}

/// The kind of error that an open outcome is, if it is one.
pub open spec fn resolve_spec(o: Opened) -> Result<Resource, ErrorKind> {
    match o {
        Opened::Failed(OpenFailure::NotFound) => Err(ErrorKind::NotFound),
        Opened::Failed(OpenFailure::PermissionDenied) => Err(ErrorKind::Forbidden),
        Opened::Failed(OpenFailure::Other(_)) => Err(ErrorKind::Internal),
        Opened::MetadataFailed(_) => Err(ErrorKind::Internal),
        Opened::Metadata { size, is_dir, modified } => if is_dir {
            Err(ErrorKind::Forbidden)
        } else {
            match modified {
                Ok(t) => Ok(Resource { size, modified: t }),
                Err(_) => Err(ErrorKind::Internal),
            }
        },
    }
}

/// Classifies what opening the file gave: a missing path is `NotFound`, a
/// denied one or a directory is `Forbidden`, any other failure is `Internal`
/// and keeps its cause.
pub fn resolve(o: Opened) -> (r: Result<Resource, Error>)
    ensures
        match resolve_spec(o) {
            Ok(res) => r == Ok::<Resource, Error>(res),
            Err(k) => r matches Err(e) && e.spec_kind() == k,
        },
        match o {
            Opened::Failed(OpenFailure::Other(cause)) => r matches Err(e) && e.spec_source() == Some(cause),
            Opened::MetadataFailed(cause) => r matches Err(e) && e.spec_source() == Some(cause),
            Opened::Metadata { is_dir: false, modified: Err(cause), .. } => r matches Err(e)
                && e.spec_source() == Some(cause),
            _ => true,
        },
{
    match o {
        Opened::Failed(OpenFailure::NotFound) => Err(Error::not_found()),
        Opened::Failed(OpenFailure::PermissionDenied) => Err(Error::forbidden()),
        Opened::Failed(OpenFailure::Other(cause)) => Err(Error::internal(cause)),
        Opened::MetadataFailed(cause) => Err(Error::internal(cause)),
        Opened::Metadata { size, is_dir, modified } => {
            if is_dir {
                return Err(Error::forbidden());
            }
            match modified {
                Ok(t) => Ok(Resource { size, modified: t }),
                Err(cause) => Err(Error::internal(cause)),
            }
        },
    }
}

/// A directory is refused as `Forbidden`, whatever else its metadata says.
pub proof fn lemma_directory_forbidden(size: u64, modified: Result<Timestamp, String>)
    ensures
        resolve_spec(Opened::Metadata { size, is_dir: true, modified }) == Err::<Resource, ErrorKind>(
            ErrorKind::Forbidden,
        ),
{
}

/// The bytes of an optional buffer.
pub open spec fn opt_vec(o: Option<Vec<u8>>) -> Option<Seq<u8>> {
    match o {
        Some(v) => Some(v@),
        None => None,
    }
}

/// The text of an instant, formatted in GMT with a `strftime` pattern.
pub uninterp spec fn gmt_format_of(secs: i64, nanos: u32, fmt: Seq<char>) -> Option<Seq<u8>>;

/// Relies on `chrono::DateTime::from_timestamp` (`None` out of its range),
/// `with_timezone(&chrono_tz::GMT)` and `format(fmt)`: the instant's text,
/// which depends on the arguments alone. Only the pattern `TIME_STR` is taken,
/// whose specifiers are all valid, so formatting cannot fail.
#[verifier::external_body]
fn gmt_format(secs: i64, nanos: u32, fmt: &str) -> (r: Option<Vec<u8>>)
    requires
        fmt@ == TIME_STR@,
    ensures
        opt_vec(r) == gmt_format_of(secs, nanos, fmt@),
{
    match chrono::DateTime::from_timestamp(secs, nanos) {
        Some(d) => Some(d.with_timezone(&chrono_tz::GMT).format(fmt).to_string().into_bytes()),
        None => None,
    }
}

/// The `Content-Range` of a response.
#[derive(Debug, Clone, Copy, PartialEq, Eq, Structural)]
pub enum ContentRange {
    /// `bytes <start>-<end>/<size>`
    Bytes { start: u64, end: u64, size: u64 },
    /// `*/<size>`
    Unsatisfied { size: u64 },
}

/// The text `bytes `.
pub open spec fn bytes_prefix() -> Seq<u8> {
    seq![98u8, 121u8, 116u8, 101u8, 115u8, 32u8]
}

/// The text of a `Content-Range` value.
pub open spec fn content_range_text(c: ContentRange) -> Seq<u8> {
    match c {
        ContentRange::Bytes { start, end, size } => bytes_prefix() + decimal(start as nat) + seq![45u8]
            + decimal(end as nat) + seq![47u8] + decimal(size as nat),
        ContentRange::Unsatisfied { size } => seq![42u8, 47u8] + decimal(size as nat),
    }
}

impl ContentRange {
    /// The header value: `bytes <start>-<end>/<size>`, or `*/<size>`.
    pub fn header_value(&self) -> (r: Vec<u8>)
        ensures
            r@ == content_range_text(*self),
    {
        let mut out: Vec<u8> = Vec::new();
        match *self {
            ContentRange::Bytes { start, end, size } => {
                out.push(98);
                out.push(121);
                out.push(116);
                out.push(101);
                out.push(115);
                out.push(32);
                push_decimal(&mut out, start);
                out.push(45);
                push_decimal(&mut out, end);
                out.push(47);
                push_decimal(&mut out, size);
            },
            ContentRange::Unsatisfied { size } => {
                out.push(42);
                out.push(47);
                push_decimal(&mut out, size);
            },
        }
        assert(out@ =~= content_range_text(*self));
        out
    }
}

/// What the response body streams.
#[derive(Debug, Clone, Copy, PartialEq, Eq, Structural)]
pub enum BodyPlan {
    /// No body.
    Empty,
    /// The whole file, from its first byte to its end.
    Whole,
    /// At most `len` bytes from offset `start`; the file is sought to `start` first.
    Part { start: u64, len: u64 },
}

/// The status, headers and body of a response, before any byte is sent.
pub struct Reply {
    pub status: u16,
    pub accept_ranges: bool,
    pub last_modified: Option<Vec<u8>>,
    pub etag: Option<Vec<u8>>,
    pub content_type: Option<String>,
    pub content_length: Option<u64>,
    pub content_range: Option<ContentRange>,
    pub body: BodyPlan,
}

/// `304`: status only, no header and no body.
pub open spec fn is_not_modified_reply(r: Reply) -> bool {
    &&& r.status == 304
    &&& !r.accept_ranges
    &&& r.last_modified is None
    &&& r.etag is None
    &&& r.content_type is None
    &&& r.content_length is None
    &&& r.content_range is None
    &&& r.body == BodyPlan::Empty
}

/// `416`: `Accept-Ranges: bytes` and `Content-Range: */<size>`, no body.
pub open spec fn is_unsatisfiable_reply(r: Reply, size: u64) -> bool {
    &&& r.status == 416
    &&& r.accept_ranges
    &&& r.last_modified is None
    &&& r.etag is None
    &&& r.content_type is None
    &&& r.content_length is None
    &&& r.content_range == Some(ContentRange::Unsatisfied { size })
    &&& r.body == BodyPlan::Empty
}

/// The content type that a response names.
pub open spec fn mime_spec(m: Option<&str>) -> Seq<char> {
    match m {
        Some(s) => s@,
        None => DEFAULT_MIME_TYPE@,
    }
}

/// The headers that `200` and `206` share.
pub open spec fn has_content_headers(r: Reply, date: Seq<u8>, etag: Seq<u8>, mime: Seq<char>) -> bool {
    &&& r.accept_ranges
    &&& r.last_modified matches Some(d) && d@ == date
    &&& r.etag matches Some(e) && e@ == etag
    &&& r.content_type matches Some(c) && c@ == mime
}

pub fn not_modified_reply() -> (r: Reply)
    ensures
        is_not_modified_reply(r),
{
    Reply {
        status: 304,
        accept_ranges: false,
        last_modified: None,
        etag: None,
        content_type: None,
        content_length: None,
        content_range: None,
        body: BodyPlan::Empty,
    }
}

pub fn unsatisfiable_reply(size: u64) -> (r: Reply)
    ensures
        is_unsatisfiable_reply(r, size),
{
    Reply {
        status: 416,
        accept_ranges: true,
        last_modified: None,
        etag: None,
        content_type: None,
        content_length: None,
        content_range: Some(ContentRange::Unsatisfied { size }),
        body: BodyPlan::Empty,
    }
}

/// The range that the request's `Range` header asks for, if it has one.
pub fn requested_range(range_hdr: Option<&[u8]>) -> (r: Result<Option<ByteRange>, Error>)
    ensures
        match range_hdr {
            None => r matches Ok(o) && o is None,
            Some(h) => match range_spec(h@) {
                Some((start, end)) => r matches Ok(o) && o == Some(ByteRange { start, end }),
                None => r matches Err(e) && e.spec_kind() == ErrorKind::BadRequest,
            },
        },
{
    match range_hdr {
        None => Ok(None),
        Some(h) => match parse_range(h) {
            Ok(b) => Ok(Some(b)),
            Err(e) => Err(e),
        },
    }
}

/// The response once the conditional headers have been evaluated: `304`
/// where the client's copy is current, `416` for an unsatisfiable range, else
/// `206` for a range or `200` for the whole file, with `Last-Modified`, `ETag`,
/// `Content-Type` and an exact `Content-Length`; `Internal` where the
/// modification time has no text.
pub open spec fn reply_spec(
    r: Result<Reply, Error>,
    not_modified: bool,
    range: Option<ByteRange>,
    size: u64,
    etag: Seq<u8>,
    date: Option<Seq<u8>>,
    mime: Seq<char>,
) -> bool {
    if not_modified {
        r matches Ok(rep) && is_not_modified_reply(rep)
    } else {
        match range {
            Some(rg) => if !satisfiable(rg, size) {
                r matches Ok(rep) && is_unsatisfiable_reply(rep, size)
            } else {
                match date {
                    None => r matches Err(e) && e.spec_kind() == ErrorKind::Internal,
                    Some(d) => r matches Ok(rep) && rep.status == 206
                        && has_content_headers(rep, d, etag, mime)
                        && rep.content_length == Some(part_len(rg, size) as u64)
                        && rep.content_range == Some(ContentRange::Bytes {
                            start: rg.start,
                            end: resolved_end(rg, size) as u64,
                            size,
                        })
                        && rep.body == BodyPlan::Part { start: rg.start, len: part_len(rg, size) as u64 },
                }
            },
            None => match date {
                None => r matches Err(e) && e.spec_kind() == ErrorKind::Internal,
                Some(d) => r matches Ok(rep) && rep.status == 200
                    && has_content_headers(rep, d, etag, mime)
                    && rep.content_length == Some(size)
                    && rep.content_range is None
                    && rep.body == BodyPlan::Whole,
            },
        }
    }
}

/// Builds the response from the outcome of the conditional headers, the
/// requested range, the resource's size, its entity tag and the text of its
/// modification time.
pub fn assemble_reply(
    not_modified: bool,
    range: Option<ByteRange>,
    size: u64,
    etag: Vec<u8>,
    date: Option<Vec<u8>>,
    mime_type: Option<&str>,
) -> (r: Result<Reply, Error>)
    ensures
        reply_spec(r, not_modified, range, size, etag@, opt_vec(date), mime_spec(mime_type)),
{
    if not_modified {
        return Ok(not_modified_reply());
    }
    let (content_length, content_range, body) = match range {
        Some(rg) => {
            if !rg.is_satisfiable(size) {
                return Ok(unsatisfiable_reply(size));
            }
            let len = rg.part_size(size);
            let end = rg.last_position(size);
            (len, Some(ContentRange::Bytes { start: rg.start, end, size }), BodyPlan::Part { start: rg.start, len })
        },
        None => (size, None, BodyPlan::Whole),
    };
    let date = match date {
        Some(d) => d,
        None => return Err(Error::internal("modification time out of range".to_owned())),
    };
    let mime = match mime_type {
        Some(m) => m.to_owned(),
        None => DEFAULT_MIME_TYPE.to_owned(),
    };
    let status: u16 = if range.is_some() { 206 } else { 200 };
    Ok(Reply {
        status,
        accept_ranges: true,
        last_modified: Some(date),
        etag: Some(etag),
        content_type: Some(mime),
        content_length: Some(content_length),
        content_range,
        body,
    })
}

/// Two plain requests (no range, not answered "not modified") for the same
/// path and modification time, where the time has a text, are both answered
/// `200` with the same entity tag.
pub proof fn lemma_plain_replies_share_tag(
    r1: Result<Reply, Error>,
    r2: Result<Reply, Error>,
    path: Seq<u8>,
    t: Timestamp,
    size: u64,
    date: Seq<u8>,
    mime: Seq<char>,
)
    requires
        reply_spec(r1, false, None, size, etag_spec(path, t), Some(date), mime),
        reply_spec(r2, false, None, size, etag_spec(path, t), Some(date), mime),
    ensures
        r1 matches Ok(a) && a.status == 200,
        r2 matches Ok(b) && b.status == 200,
        r1 matches Ok(a) && r2 matches Ok(b) && a.etag matches Some(x) && b.etag matches Some(y) && x@ == y@,
{
}

/// Decides the response for an opened resource, after its range has been
/// parsed: the conditional headers are evaluated against the resource's entity
/// tag and modification time (a malformed one is a `BadRequest`), then the
/// response is assembled as `reply_spec` says.
pub fn plan_response(
    path: &[u8],
    mime_type: Option<&str>,
    if_none_match: Option<&[u8]>,
    if_modified_since: Option<&[u8]>,
    range: Option<ByteRange>,
    res: Resource,
) -> (r: Result<Reply, Error>)
    ensures
        match conditional_spec(
            opt_bytes(if_none_match),
            opt_bytes(if_modified_since),
            etag_spec(path@, res.modified),
            res.modified.secs,
        ) {
            None => r matches Err(e) && e.spec_kind() == ErrorKind::BadRequest,
            Some(m) => reply_spec(
                r,
                m,
                range,
                res.size,
                etag_spec(path@, res.modified),
                gmt_format_of(res.modified.secs, res.modified.nanos, TIME_STR@),
                mime_spec(mime_type),
            ),
        },
{
    let etag = etag_for(path, res.modified);
    let fresh = match not_modified(if_none_match, if_modified_since, etag.as_slice(), res.modified) {
        Err(e) => return Err(e),
        Ok(m) => m,
    };
    let date = gmt_format(res.modified.secs, res.modified.nanos, TIME_STR);
    assemble_reply(fresh, range, res.size, etag, date, mime_type)
}

} // verus!
