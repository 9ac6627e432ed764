use static_serve::error::{Error, ErrorKind};
use static_serve::etag::{etag_for, Timestamp};
use static_serve::range::ByteRange;
use static_serve::serve::{
    assemble_reply, plan_response, requested_range, resolve, unsatisfiable_reply, BodyPlan, ContentRange,
    OpenFailure, Opened, Reply, Resource, DEFAULT_MIME_TYPE,
};
use static_serve::streamer::{frames_over, Empty, Streamer};

const PATH: &[u8] = b"/srv/data.bin";

fn resource(size: u64) -> Resource {
    Resource { size, modified: Timestamp { secs: 1728138181, nanos: 7 } }
}

fn plan(range: Option<&[u8]>, inm: Option<&[u8]>, ims: Option<&[u8]>, size: u64) -> Result<Reply, ErrorKind> {
    let r = requested_range(range).map_err(|e| e.kind())?;
    plan_response(PATH, None, inm, ims, r, resource(size)).map_err(|e| e.kind())
}

#[test]
fn matching_if_none_match_is_not_modified() {
    let tag = etag_for(PATH, resource(100).modified);
    let rep = plan(None, Some(&tag), None, 100).ok().unwrap();
    assert_eq!(rep.status, 304);
    assert_eq!(rep.body, BodyPlan::Empty);
    assert!(rep.etag.is_none() && rep.content_length.is_none() && rep.content_type.is_none());
}

#[test]
fn matching_if_none_match_wins_over_range() {
    let tag = etag_for(PATH, resource(100).modified);
    let rep = plan(Some(b"bytes=150-"), Some(&tag), None, 100).ok().unwrap();
    assert_eq!(rep.status, 304);
}

#[test]
fn open_range_from_zero_is_partial_content() {
    let rep = plan(Some(b"bytes=0-"), None, None, 100).ok().unwrap();
    assert_eq!(rep.status, 206);
    assert_eq!(rep.content_length, Some(100));
    let cr = rep.content_range.unwrap();
    assert_eq!(cr, ContentRange::Bytes { start: 0, end: 99, size: 100 });
    assert_eq!(cr.header_value(), b"bytes 0-99/100".to_vec());
    assert_eq!(rep.body, BodyPlan::Part { start: 0, len: 100 });
    assert!(rep.accept_ranges);
}

#[test]
fn range_past_the_end_is_unsatisfiable() {
    let rep = plan(Some(b"bytes=150-"), None, None, 100).ok().unwrap();
    assert_eq!(rep.status, 416);
    assert!(rep.accept_ranges);
    let cr = rep.content_range.unwrap();
    assert_eq!(cr.header_value(), b"*/100".to_vec());
    assert_eq!(rep.body, BodyPlan::Empty);
    assert!(rep.content_length.is_none());
}

#[test]
fn reversed_range_is_unsatisfiable() {
    let rep = plan(Some(b"bytes=20-10"), None, None, 100).ok().unwrap();
    assert_eq!(rep.status, 416);
}

#[test]
fn closed_range_beyond_size_is_served_as_asked() {
    let rep = plan(Some(b"bytes=90-119"), None, None, 100).ok().unwrap();
    assert_eq!(rep.status, 206);
    assert_eq!(rep.content_length, Some(30));
    assert_eq!(rep.content_range.unwrap().header_value(), b"bytes 90-119/100".to_vec());
}

#[test]
fn plain_request_is_ok_with_whole_body() {
    let content: Vec<u8> = (0..100u32).map(|i| (i * 7 % 251) as u8).collect();
    let rep = plan(None, None, None, content.len() as u64).ok().unwrap();
    assert_eq!(rep.status, 200);
    assert_eq!(rep.content_length, Some(100));
    assert!(rep.content_range.is_none());
    assert_eq!(rep.body, BodyPlan::Whole);
    assert_eq!(rep.content_type, Some(DEFAULT_MIME_TYPE.to_string()));
    assert_eq!(rep.last_modified, Some(b"Sat, 05 Oct 2024 14:23:01 GMT".to_vec()));
    assert_eq!(rep.etag, Some(etag_for(PATH, resource(100).modified)));
    let frames = frames_over(Streamer::new(16), &content, 0);
    assert_eq!(frames.concat(), content);
}

#[test]
fn caller_mime_type_is_used() {
    let rep = plan_response(PATH, Some("text/html"), None, None, None, resource(3)).ok().unwrap();
    assert_eq!(rep.content_type, Some("text/html".to_string()));
}

#[test]
fn malformed_range_is_bad_request() {
    assert_eq!(plan(Some(b"lines=1-2"), None, None, 100).err(), Some(ErrorKind::BadRequest));
}

#[test]
fn malformed_conditional_is_bad_request() {
    assert_eq!(plan(None, None, Some(b"not a date"), 100).err(), Some(ErrorKind::BadRequest));
    assert_eq!(plan(None, Some(&[0x7f]), None, 100).err(), Some(ErrorKind::BadRequest));
}

#[test]
fn unsatisfiable_reply_names_size() {
    let rep = unsatisfiable_reply(0);
    assert_eq!(rep.status, 416);
    assert_eq!(rep.content_range, Some(ContentRange::Unsatisfied { size: 0 }));
}

fn resolved(o: Opened) -> Result<Resource, ErrorKind> {
    resolve(o).map_err(|e| e.kind())
}

#[test]
fn directory_is_forbidden() {
    let t = Timestamp { secs: 1, nanos: 0 };
    let e = resolve(Opened::Metadata { size: 4096, is_dir: true, modified: Ok(t) }).err().unwrap();
    assert_eq!(e.kind(), ErrorKind::Forbidden);
    assert_eq!(e.status_code(), 403);
}

#[test]
fn open_failures_are_classified() {
    assert_eq!(resolved(Opened::Failed(OpenFailure::NotFound)), Err(ErrorKind::NotFound));
    assert_eq!(resolved(Opened::Failed(OpenFailure::PermissionDenied)), Err(ErrorKind::Forbidden));
    let e = resolve(Opened::Failed(OpenFailure::Other("disk on fire".to_string()))).err().unwrap();
    assert_eq!(e.kind(), ErrorKind::Internal);
    assert_eq!(e.source(), &Some("disk on fire".to_string()));
    assert_eq!(resolved(Opened::MetadataFailed("io".to_string())), Err(ErrorKind::Internal));
    assert_eq!(
        resolved(Opened::Metadata { size: 1, is_dir: false, modified: Err("no mtime".to_string()) }),
        Err(ErrorKind::Internal)
    );
}

#[test]
fn regular_file_resolves() {
    let t = Timestamp { secs: 9, nanos: 1 };
    assert_eq!(
        resolved(Opened::Metadata { size: 12, is_dir: false, modified: Ok(t) }),
        Ok(Resource { size: 12, modified: t })
    );
}

#[test]
fn error_kinds_map_to_statuses() {
    assert_eq!(ErrorKind::Internal.status_code(), 500);
    assert_eq!(ErrorKind::Forbidden.status_code(), 403);
    assert_eq!(ErrorKind::NotFound.status_code(), 404);
    assert_eq!(ErrorKind::BadRequest.status_code(), 400);
    assert_eq!(Error::bad_req().status_code(), 400);
    assert_eq!(Error::forbidden().kind(), ErrorKind::Forbidden);
    assert_eq!(Error::not_found().kind(), ErrorKind::NotFound);
    let e = Error::internal("boom".to_string());
    assert_eq!(e.kind(), ErrorKind::Internal);
    assert_eq!(e.status_code(), 500);
    assert!(Error::bad_req().source().is_none());
    assert_eq!(ErrorKind::NotFound.as_str(), "NotFound");
}

#[test]
fn empty_body_has_no_size() {
    let e = Empty::new();
    assert!(e.is_end_stream());
    assert_eq!(e.size_hint(), 0);
}

#[test]
fn assembled_reply_follows_its_inputs() {
    let date = Some(b"Thu, 01 Jan 1970 00:00:00 GMT".to_vec());
    let rep = assemble_reply(true, None, 10, b"\"e\"".to_vec(), date.clone(), None).ok().unwrap();
    assert_eq!(rep.status, 304);
    let rg = Some(ByteRange { start: 2, end: Some(4) });
    let rep = assemble_reply(false, rg, 10, b"\"e\"".to_vec(), date.clone(), Some("text/plain")).ok().unwrap();
    assert_eq!(rep.status, 206);
    assert_eq!(rep.content_length, Some(3));
    assert_eq!(rep.body, BodyPlan::Part { start: 2, len: 3 });
    assert_eq!(rep.etag, Some(b"\"e\"".to_vec()));
    assert_eq!(rep.last_modified, date);
    let err = assemble_reply(false, None, 10, b"\"e\"".to_vec(), None, None).err().unwrap();
    assert_eq!(err.kind(), ErrorKind::Internal);
}

#[test]
fn internal_errors_keep_their_cause() {
    let e = resolve(Opened::MetadataFailed("stat failed".to_string())).err().unwrap();
    assert_eq!(e.source(), &Some("stat failed".to_string()));
    let e = resolve(Opened::Metadata { size: 1, is_dir: false, modified: Err("no mtime".to_string()) })
        .err()
        .unwrap();
    assert_eq!(e.kind(), ErrorKind::Internal);
    assert_eq!(e.source(), &Some("no mtime".to_string()));
    let e = resolve(Opened::Failed(OpenFailure::Other("eio".to_string()))).err().unwrap();
    assert_eq!(e.source(), &Some("eio".to_string()));
}

#[test]
fn plain_requests_share_their_tag() {
    let a = plan(None, None, None, 100).ok().unwrap();
    let b = plan(None, None, None, 100).ok().unwrap();
    assert_eq!(a.status, 200);
    assert_eq!(b.status, 200);
    assert!(a.etag.is_some());
    assert_eq!(a.etag, b.etag);
}
