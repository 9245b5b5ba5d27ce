use sparseio::error::Error;
use sparseio::viewer::{Span, Viewer};

#[test]
fn viewer_reports_length() {
    let viewer = Viewer::new(40, 16);
    assert_eq!(viewer.len().unwrap(), 40);
}

#[test]
fn read_spans_split_a_range_across_chunks() {
    let viewer = Viewer::new(40, 16);
    assert_eq!(
        viewer.read_spans(10, 20).unwrap(),
        vec![Span { chunk: 0, skip: 10, take: 6 }, Span { chunk: 16, skip: 0, take: 14 }]
    );
    assert_eq!(viewer.read_spans(32, 8).unwrap(), vec![Span { chunk: 32, skip: 0, take: 8 }]);
    assert!(viewer.read_spans(40, 0).unwrap().is_empty());
}

#[test]
fn read_spans_reject_reads_past_the_end() {
    let viewer = Viewer::new(40, 16);
    assert!(matches!(viewer.read_spans(30, 11), Err(Error::OOB)));
    assert!(matches!(viewer.read_spans(41, 0), Err(Error::OOB)));
}
