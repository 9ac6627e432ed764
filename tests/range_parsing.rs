use static_serve::error::ErrorKind;
use static_serve::range::{parse_range, ByteRange};

fn parsed(h: &str) -> Result<ByteRange, ErrorKind> {
    parse_range(h.as_bytes()).map_err(|e| e.kind())
}

#[test]
fn closed_range_parses() {
    assert_eq!(parsed("bytes=0-99"), Ok(ByteRange { start: 0, end: Some(99) }));
    assert_eq!(parsed("bytes=10-29"), Ok(ByteRange { start: 10, end: Some(29) }));
}

#[test]
fn open_ended_range_parses() {
    assert_eq!(parsed("bytes=5-"), Ok(ByteRange { start: 5, end: None }));
    assert_eq!(parsed("bytes=5"), Ok(ByteRange { start: 5, end: None }));
}

#[test]
fn largest_values_parse() {
    assert_eq!(
        parsed("bytes=18446744073709551615-18446744073709551615"),
        Ok(ByteRange { start: u64::MAX, end: Some(u64::MAX) })
    );
    assert_eq!(parsed("bytes=18446744073709551616-"), Err(ErrorKind::BadRequest));
}

#[test]
fn plus_sign_is_read_as_parse_reads_it() {
    assert_eq!(parsed("bytes=+7-9"), Ok(ByteRange { start: 7, end: Some(9) }));
    assert_eq!(parsed("bytes=+-9"), Err(ErrorKind::BadRequest));
}

#[test]
fn other_units_are_rejected() {
    assert_eq!(parsed("items=0-5"), Err(ErrorKind::BadRequest));
    assert_eq!(parsed("Bytes=0-5"), Err(ErrorKind::BadRequest));
    assert_eq!(parsed("bytes"), Err(ErrorKind::BadRequest));
    assert_eq!(parsed(""), Err(ErrorKind::BadRequest));
}

#[test]
fn suffix_multi_and_negative_ranges_are_rejected() {
    assert_eq!(parsed("bytes=-500"), Err(ErrorKind::BadRequest));
    assert_eq!(parsed("bytes=0-1,5-6"), Err(ErrorKind::BadRequest));
    assert_eq!(parsed("bytes=0--5"), Err(ErrorKind::BadRequest));
    assert_eq!(parsed("bytes=a-5"), Err(ErrorKind::BadRequest));
}

#[test]
fn reversed_range_parses_but_is_unsatisfiable() {
    let r = parse_range(b"bytes=9-3").ok().unwrap();
    assert_eq!(r, ByteRange { start: 9, end: Some(3) });
    assert!(!r.is_satisfiable(100));
}

#[test]
fn non_text_header_is_rejected() {
    assert_eq!(
        parse_range(&[98, 121, 116, 101, 115, 61, 0x80, 45]).map_err(|e| e.kind()),
        Err(ErrorKind::BadRequest)
    );
}

#[test]
fn satisfiability_and_lengths() {
    let open = ByteRange { start: 0, end: None };
    assert!(open.is_satisfiable(100));
    assert_eq!(open.part_size(100), 100);
    assert_eq!(open.last_position(100), 99);
    let past = ByteRange { start: 150, end: None };
    assert!(!past.is_satisfiable(100));
    assert!(!ByteRange { start: 0, end: None }.is_satisfiable(0));
    let closed = ByteRange { start: 10, end: Some(29) };
    assert!(closed.is_satisfiable(100));
    assert_eq!(closed.part_size(100), 20);
    assert_eq!(closed.last_position(100), 29);
    assert!(!ByteRange { start: 0, end: Some(u64::MAX) }.is_satisfiable(100));
}
