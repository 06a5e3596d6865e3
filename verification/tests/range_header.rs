use rustystreamer::consts::CHUNK_SIZE;
use rustystreamer::range_header::RangeHeaderError;
use rustystreamer::RangeHeader;

#[test]
fn parse_closed_range() {
    let h = RangeHeader::parse(b"bytes=0-100", 1000).unwrap();
    assert_eq!(h.unit, "bytes");
    assert_eq!(h.start, 0);
    assert_eq!(h.end, 100);
}

#[test]
fn parse_closed_range_clamped_to_last_byte() {
    let h = RangeHeader::parse(b"bytes=10-2000", 1000).unwrap();
    assert_eq!(h.start, 10);
    assert_eq!(h.end, 999);
}

#[test]
fn parse_open_range_spans_one_chunk() {
    let h = RangeHeader::parse(b"bytes=100-", 10_000_000).unwrap();
    assert_eq!(h.start, 100);
    assert_eq!(h.end, 100 + CHUNK_SIZE as u64 - 1);
}

#[test]
fn parse_open_range_clamped_to_last_byte() {
    let h = RangeHeader::parse(b"bytes=500-", 600).unwrap();
    assert_eq!(h.start, 500);
    assert_eq!(h.end, 599);
}

#[test]
fn parse_two_parts_only() {
    let h = RangeHeader::parse(b"bytes=7", 600).unwrap();
    assert_eq!(h.unit, "bytes");
    assert_eq!(h.start, 7);
    assert_eq!(h.end, 599);
}

#[test]
fn parse_plus_sign_number() {
    let h = RangeHeader::parse(b"bytes=+5-+9", 600).unwrap();
    assert_eq!(h.start, 5);
    assert_eq!(h.end, 9);
}

#[test]
fn parse_rejects_header_without_separator() {
    assert!(RangeHeader::is_parsable(b"bytes", 10));
    match RangeHeader::parse(b"bytes", 10) {
        Err(e) => assert_eq!(e, RangeHeaderError::InvalidRangeHeader),
        Ok(_) => panic!("expected an error"),
    }
}

#[test]
fn parsable_conditions() {
    assert!(RangeHeader::is_parsable(b"bytes=0-100", 1000));
    assert!(!RangeHeader::is_parsable(b"bytes=x-100", 1000));
    assert!(!RangeHeader::is_parsable(b"bytes=0-y", 1000));
    assert!(!RangeHeader::is_parsable(b"bytes=0-100", 0));
    assert!(!RangeHeader::is_parsable(b"bytes=0-\x01", 1000));
    assert!(RangeHeader::is_parsable(b"bytes=0-\t", 1000) == false);
    assert!(!RangeHeader::is_parsable(b"bytes=18446744073709551615-", 1000));
    assert!(RangeHeader::is_parsable(b"bytes=18446744073709551615-5", 1000));
}

#[test]
fn partial_content_of_bytes_range() {
    let h = RangeHeader::parse(b"bytes=0-100", 1000).unwrap();
    let p = h.partial_content(1000).unwrap();
    assert_eq!(p.start, 0);
    assert_eq!(p.end, 100);
    assert_eq!(p.content_length, 101);
    assert_eq!(p.content_range, "bytes 0-100/1000");
}

#[test]
fn partial_content_refuses_other_units() {
    let h = RangeHeader::parse(b"items=0-100", 1000).unwrap();
    assert_eq!(h.unit, "items");
    assert!(h.partial_content(1000).is_none());
}
