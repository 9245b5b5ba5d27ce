use sparseio::sources::http::parse_content_range;

#[test]
fn parse_content_range_extracts_start_end_and_total_length() {
    assert_eq!(parse_content_range("bytes 0-0/99"), Some((0, 0, Some(99))));
    assert_eq!(parse_content_range("bytes 10-19/2048"), Some((10, 19, Some(2048))));
}

#[test]
fn parse_content_range_rejects_malformed_ranges_and_keeps_wildcard_totals_optional() {
    assert_eq!(parse_content_range("bytes 0-0/*"), Some((0, 0, None)));
    assert_eq!(parse_content_range("bytes 8-3/12"), None);
    assert_eq!(parse_content_range("not-a-range"), None);
}

#[test]
fn parse_content_range_follows_integer_parsing_rules() {
    assert_eq!(parse_content_range("bytes +1-+2/+3"), Some((1, 2, Some(3))));
    assert_eq!(parse_content_range("bytes -1-2/3"), None);
    assert_eq!(parse_content_range("bytes 1-2/"), None);
    assert_eq!(parse_content_range("bytes 1-2/**"), None);
    assert_eq!(parse_content_range("bytes 1-2"), None);
    assert_eq!(parse_content_range("bytes 99999999999999999999-1/2"), None);
    assert_eq!(parse_content_range("bytes 1-2-3/4"), None);
    assert_eq!(parse_content_range("bytes 1-2/3/4"), None);
    assert_eq!(parse_content_range("Bytes 1-2/3"), None);
}
