use annil_server::range::{parse_content_range, RangeSpec};

fn range(start: u64, end: Option<u64>, total: Option<u64>) -> RangeSpec {
    RangeSpec { start, end, total }
}

#[test]
fn full_range_emits_no_header() {
    assert!(RangeSpec::full().to_range_header().is_none());
    assert!(range(0, None, None).to_range_header().is_none());
    // `total` alone does not make a range partial.
    assert!(range(0, None, Some(100)).to_range_header().is_none());
}

#[test]
fn bounded_range_header() {
    let h = range(0, Some(1023), None).to_range_header();
    assert_eq!(h.unwrap(), "bytes=0-1023");
    let h = range(100, Some(200), Some(1000)).to_range_header();
    assert_eq!(h.unwrap(), "bytes=100-200");
}

#[test]
fn open_ended_range_header() {
    let h = range(5, None, None).to_range_header();
    assert_eq!(h.unwrap(), "bytes=5-");
    let h = range(18446744073709551615, None, None).to_range_header();
    assert_eq!(h.unwrap(), "bytes=18446744073709551615-");
}

#[test]
fn parse_absent_header_is_full() {
    let r = parse_content_range(None);
    assert_eq!(r.start, 0);
    assert!(r.end.is_none());
    assert!(r.total.is_none());
}

#[test]
fn parse_ordinary_content_range() {
    let r = parse_content_range(Some("bytes 0-1023/10240"));
    assert_eq!(r.start, 0);
    assert_eq!(r.end, Some(1023));
    assert_eq!(r.total, Some(10240));
}

#[test]
fn parse_short_header_is_full() {
    for h in ["", "b", "bytes", "bytes "] {
        let r = parse_content_range(Some(h));
        assert_eq!(r.start, 0);
        assert!(r.end.is_none());
        assert!(r.total.is_none());
    }
}

#[test]
fn parse_falls_back_field_by_field() {
    // A start that does not parse falls back to 0, the others still parse.
    let r = parse_content_range(Some("bytes x-1023/99"));
    assert_eq!(r.start, 0);
    assert_eq!(r.end, Some(1023));
    assert_eq!(r.total, Some(99));
    // End and total fall back to absent independently.
    let r = parse_content_range(Some("bytes 12-abc/xyz"));
    assert_eq!(r.start, 12);
    assert!(r.end.is_none());
    assert!(r.total.is_none());
    // No slash: no total.
    let r = parse_content_range(Some("bytes 7-9"));
    assert_eq!(r.start, 7);
    assert_eq!(r.end, Some(9));
    assert!(r.total.is_none());
    // No dash at all: everything is the start field.
    let r = parse_content_range(Some("bytes 1234"));
    assert_eq!(r.start, 1234);
    assert!(r.end.is_none());
    assert!(r.total.is_none());
}

#[test]
fn parse_accepts_leading_plus_and_rejects_overflow() {
    let r = parse_content_range(Some("bytes +1-+2/+3"));
    assert_eq!(r.start, 1);
    assert_eq!(r.end, Some(2));
    assert_eq!(r.total, Some(3));
    // A value over u64::MAX fails that field alone.
    let r = parse_content_range(Some("bytes 99999999999999999999-1/18446744073709551615"));
    assert_eq!(r.start, 0);
    assert_eq!(r.end, Some(1));
    assert_eq!(r.total, Some(18446744073709551615));
    let r = parse_content_range(Some("bytes 18446744073709551616-0/0"));
    assert_eq!(r.start, 0);
}

#[test]
fn flac_header_containment() {
    assert!(range(0, None, None).contains_flac_header());
    assert!(range(0, Some(41), None).contains_flac_header());
    assert!(range(0, Some(10000), None).contains_flac_header());
    assert!(!range(0, Some(40), None).contains_flac_header());
    assert!(!range(1, None, None).contains_flac_header());
    assert!(!range(7, Some(100), Some(200)).contains_flac_header());
}
