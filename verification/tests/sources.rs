use sparseio::error::{ErrorKind, Reason};
use sparseio::sources::file::cache_file_name;
use sparseio::sources::http::{
    finish_range_body, length_after_body, length_after_head, length_after_ranged_get, length_from_override,
    parse_usize, plan_range_request, plan_range_response, range_header, BodyPlan, LengthProbe, RangeRequest,
    Reader,
};
use sparseio::sources::object_store::{
    check_capabilities, io_kind_of, map_opendal_error, normalize_relative_path, object_len, plan_object_read,
    read_failure, read_failure_outcome, OperatorErrorKind,
};

#[test]
fn range_requests_cover_the_buffer() {
    assert_eq!(plan_range_request(4, 4).unwrap(), RangeRequest::Bytes { first: 4, last: 7 });
    assert_eq!(plan_range_request(4, 0).unwrap(), RangeRequest::Empty);
    assert_eq!(plan_range_request(usize::MAX, 2).unwrap_err().reason, Reason::RangeEndOverflow);
    assert_eq!(range_header(4, 7), "bytes=4-7");
}

#[test]
fn range_responses_are_checked_against_the_request() {
    assert_eq!(plan_range_response(4, 4, 206, Some("bytes 4-7/8")).unwrap(), BodyPlan::Copy { advertised: Some(4) });
    assert_eq!(plan_range_response(4, 4, 206, None).unwrap_err().reason, Reason::MalformedContentRange);
    let err = plan_range_response(4, 4, 206, Some("bytes 5-7/8")).unwrap_err();
    assert_eq!(err.message(), "HTTP range response started at 5, expected 4");
    let err = plan_range_response(4, 2, 206, Some("bytes 4-7/8")).unwrap_err();
    assert_eq!(err.message(), "HTTP range response advertised 4 bytes for a 2 byte request");
    assert_eq!(plan_range_response(0, 4, 200, None).unwrap(), BodyPlan::Copy { advertised: None });
    let err = plan_range_response(5, 4, 200, None).unwrap_err();
    assert_eq!(err.kind, ErrorKind::Other);
    assert_eq!(err.reason, Reason::UnexpectedStatus { status: 200, offset: 5 });
    assert_eq!(plan_range_response(8, 4, 416, None).unwrap(), BodyPlan::Done(0));
    assert_eq!(finish_range_body(Some(4), 4).unwrap(), 4);
    assert_eq!(finish_range_body(Some(4), 3).unwrap_err().kind, ErrorKind::UnexpectedEof);
    assert_eq!(finish_range_body(None, 3).unwrap(), 3);
}

#[test]
fn length_discovery_steps() {
    assert_eq!(length_from_override(Some(1234)), LengthProbe::Known(1234));
    assert_eq!(length_from_override(None), LengthProbe::Head);
    assert_eq!(length_after_head(true, Some("12")), LengthProbe::Known(12));
    assert_eq!(length_after_head(true, Some("not-a-number")), LengthProbe::RangedGet);
    assert_eq!(length_after_head(false, Some("12")), LengthProbe::RangedGet);
    assert_eq!(length_after_ranged_get(Some(206), Some("bytes 0-0/99"), None), LengthProbe::Known(99));
    assert_eq!(length_after_ranged_get(Some(206), Some("bytes 0-0/*"), None), LengthProbe::Unknown);
    assert_eq!(length_after_ranged_get(Some(200), None, Some("5")), LengthProbe::Known(5));
    assert_eq!(length_after_ranged_get(Some(200), None, None), LengthProbe::Body);
    assert_eq!(length_after_ranged_get(Some(405), None, None), LengthProbe::Unknown);
    assert_eq!(length_after_ranged_get(None, None, None), LengthProbe::Unknown);
    assert_eq!(length_after_body(Some(5)), LengthProbe::Known(5));
    assert_eq!(parse_usize("+7"), Some(7));
    assert_eq!(parse_usize(""), None);
}

#[test]
fn http_reader_keeps_url_and_override() {
    let reader = Reader::new("http://127.0.0.1:1/unreachable").with_len_override(12345);
    assert_eq!(reader.len_override(), Some(12345));
    assert_eq!(reader.url(), "http://127.0.0.1:1/unreachable");
    let mut reader = reader;
    reader.set_len_override(None);
    assert_eq!(reader.len_override(), None);
}

#[test]
fn opendal_paths_are_normalized() {
    assert_eq!(normalize_relative_path("./nested//object.bin"), "nested/object.bin");
    assert_eq!(normalize_relative_path("/a/./b/"), "a/b");
    assert_eq!(normalize_relative_path(""), "/");
    assert_eq!(normalize_relative_path("./"), "/");
    assert_eq!(normalize_relative_path("..//x"), "../x");
}

#[test]
fn cache_files_are_named_by_hex_key() {
    assert_eq!(cache_file_name("ab"), "6162");
    assert_eq!(cache_file_name(""), "");
}

#[test]
fn object_store_reads_ask_for_the_available_range() {
    assert_eq!(plan_object_read(3, 8, 14).unwrap(), Some((3, 11)));
    assert_eq!(plan_object_read(10, 8, 14).unwrap(), Some((10, 14)));
    assert_eq!(plan_object_read(14, 8, 14).unwrap(), None);
    assert_eq!(plan_object_read(0, 0, 14).unwrap(), None);
    assert_eq!(plan_object_read(1, usize::MAX, 14).unwrap_err().reason, Reason::RangeEndOverflow);
    assert_eq!(object_len(14).unwrap(), 14);
    assert_eq!(check_capabilities(false, true).unwrap_err().reason, Reason::OperatorCannotStat);
    assert_eq!(check_capabilities(true, false).unwrap_err().reason, Reason::OperatorCannotRead);
    assert!(check_capabilities(true, true).is_ok());
}

#[test]
fn object_store_failures_keep_their_kind() {
    assert_eq!(io_kind_of(OperatorErrorKind::NotFound), ErrorKind::NotFound);
    assert_eq!(io_kind_of(OperatorErrorKind::PermissionDenied), ErrorKind::PermissionDenied);
    assert_eq!(io_kind_of(OperatorErrorKind::RangeNotSatisfied), ErrorKind::Other);
    assert_eq!(read_failure_outcome(OperatorErrorKind::RangeNotSatisfied), Ok(0));
    assert_eq!(read_failure_outcome(OperatorErrorKind::Other), Err(ErrorKind::Other));

    let missing = opendal::Error::new(opendal::ErrorKind::NotFound, "missing");
    assert_eq!(map_opendal_error(&missing), ErrorKind::NotFound);
    assert_eq!(read_failure(&missing), Err(ErrorKind::NotFound));
    let denied = opendal::Error::new(opendal::ErrorKind::PermissionDenied, "denied");
    assert_eq!(map_opendal_error(&denied), ErrorKind::PermissionDenied);
    let past_end = opendal::Error::new(opendal::ErrorKind::RangeNotSatisfied, "past end");
    assert_eq!(read_failure(&past_end), Ok(0));
    assert_eq!(map_opendal_error(&past_end), ErrorKind::Other);
    let busy = opendal::Error::new(opendal::ErrorKind::RateLimited, "slow down");
    assert_eq!(read_failure(&busy), Err(ErrorKind::Other));
}

#[test]
fn unexpected_statuses_are_reported_with_their_reason() {
    let err = plan_range_response(5, 4, 200, None).unwrap_err();
    assert_eq!(err.message(), "unexpected HTTP status 200 OK for ranged read at offset 5");
    let err = plan_range_response(0, 4, 503, None).unwrap_err();
    assert_eq!(err.message(), "unexpected HTTP status 503 Service Unavailable for ranged read at offset 0");
    let err = plan_range_response(0, 4, 42, None).unwrap_err();
    assert_eq!(err.message(), "unexpected HTTP status 42 for ranged read at offset 0");
}

#[test]
fn normalizing_a_path_twice_changes_nothing() {
    for path in ["./nested//object.bin", "/a/./b/", "", "./", "..//x", "a", "/", "//././/"] {
        let once = normalize_relative_path(path);
        assert_eq!(normalize_relative_path(&once), once);
    }
}
