use sparseio::coverage::Coverage;

#[test]
fn get_returns_the_latest_range_starting_at_or_before_target() {
    let mut coverage = Coverage::new();
    coverage.insert(0, 8);
    coverage.insert(16, 4);

    assert_eq!(coverage.get(0), Some((0, 8)));
    assert_eq!(coverage.get(7), Some((0, 8)));
    assert_eq!(coverage.get(16), Some((16, 20)));
    assert_eq!(coverage.get(19), Some((16, 20)));
    assert_eq!(coverage.get(21), Some((16, 20)));
    assert_eq!(coverage.get(22), Some((16, 20)));
}

#[test]
fn insert_keeps_exact_endpoints_without_inventing_overlap_rules() {
    let mut coverage = Coverage::new();
    coverage.insert(4, 4);
    coverage.insert(12, 2);

    assert_eq!(coverage.get(4), Some((4, 8)));
    assert_eq!(coverage.get(12), Some((12, 14)));
}

#[test]
fn get_before_every_range_is_none() {
    let mut coverage = Coverage::new();
    assert_eq!(coverage.get(0), None);
    coverage.insert(10, 5);
    assert_eq!(coverage.get(9), None);
}

#[test]
fn insert_replaces_range_at_same_start_and_saturates() {
    let mut coverage = Coverage::new();
    coverage.insert(8, 4);
    coverage.insert(8, 16);
    assert_eq!(coverage.get(9), Some((8, 24)));
    coverage.insert(usize::MAX - 1, 10);
    assert_eq!(coverage.get(usize::MAX), Some((usize::MAX - 1, usize::MAX)));
}

#[test]
fn out_of_order_inserts_are_found_by_floor_lookup() {
    let mut coverage = Coverage::new();
    coverage.insert(32, 16);
    coverage.insert(0, 16);
    coverage.insert(16, 16);
    assert_eq!(coverage.get(15), Some((0, 16)));
    assert_eq!(coverage.get(31), Some((16, 32)));
    assert_eq!(coverage.get(100), Some((32, 48)));
}
