use sparseio::common::window::copy_into;
use sparseio::sources::http::{
    finish_range_body, length_after_body, length_after_head, length_after_ranged_get, length_from_override,
    plan_range_request, plan_range_response, range_header, BodyPlan, LengthProbe, RangeRequest, Reader,
};

/// The request a read of `len` bytes at `offset` sends, as its `Range` header.
fn requested_range(offset: usize, len: usize) -> String {
    match plan_range_request(offset, len).expect("range should fit") {
        RangeRequest::Bytes { first, last } => range_header(first, last),
        RangeRequest::Empty => panic!("empty buffers send no request"),
    }
}

#[test]
fn len_uses_override_without_network() {
    let reader = Reader::new("http://127.0.0.1:1/unreachable").with_len_override(12345);
    assert_eq!(length_from_override(reader.len_override()), LengthProbe::Known(12345));
}

#[test]
fn head_content_length_discovers_length() {
    let reader = Reader::with_client(reqwest::Client::new(), "http://127.0.0.1:1/asset");
    assert_eq!(length_from_override(reader.len_override()), LengthProbe::Head);
    assert_eq!(length_after_head(true, Some("12")), LengthProbe::Known(12));
}

#[test]
fn content_range_fallback_discovers_length() {
    assert_eq!(length_from_override(None), LengthProbe::Head);
    assert_eq!(length_after_head(true, None), LengthProbe::RangedGet);
    assert_eq!(length_after_ranged_get(Some(206), Some("bytes 0-0/99"), None), LengthProbe::Known(99));
}

#[test]
fn ok_body_length_fallback_discovers_length() {
    assert_eq!(length_after_head(false, None), LengthProbe::RangedGet);
    assert_eq!(length_after_ranged_get(Some(200), None, None), LengthProbe::Body);
    assert_eq!(length_after_body(Some(b"hello".len())), LengthProbe::Known(5));
}

#[test]
fn range_header_shape_matches_offset_and_buffer_length() {
    let mut buf = [0u8; 4];
    assert_eq!(requested_range(4, buf.len()), "bytes=4-7");
    let plan = plan_range_response(4, buf.len(), 206, Some("bytes 4-7/8")).expect("response should be usable");
    assert_eq!(plan, BodyPlan::Copy { advertised: Some(4) });
    let copied = copy_into(&mut buf, 0, b"efgh");
    assert_eq!(finish_range_body(Some(4), copied).expect("body should match"), 4);
    assert_eq!(&buf, b"efgh");
}

#[test]
fn range_not_satisfiable_maps_to_eof() {
    assert_eq!(requested_range(8, 4), "bytes=8-11");
    assert_eq!(plan_range_response(8, 4, 416, None).expect("EOF should not fail"), BodyPlan::Done(0));
}

#[test]
fn len_override_takes_precedence_over_network_metadata() {
    let reader = Reader::with_client(reqwest::Client::new(), "http://127.0.0.1:1/asset").with_len_override(1234);
    assert_eq!(length_from_override(reader.len_override()), LengthProbe::Known(1234));
}

#[test]
fn malformed_headers_cause_length_discovery_to_fail() {
    assert_eq!(length_after_head(true, Some("not-a-number")), LengthProbe::RangedGet);
    assert_eq!(length_after_ranged_get(Some(206), Some("bytes 0-0/*"), None), LengthProbe::Unknown);
}

#[test]
fn ignored_range_errors_at_non_zero_offsets_are_rejected() {
    assert_eq!(requested_range(5, 4), "bytes=5-8");
    assert!(plan_range_response(5, 4, 200, None).is_err(), "non-zero offsets require a range-aware response");
}
