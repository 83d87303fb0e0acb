use distmutex::metrics::Metrics;

#[test]
fn starts_at_zero() {
    let m = Metrics::new();
    assert_eq!(m.get(1), 0);
    assert_eq!(m.get(0), 0);
    assert!(m.entries().is_empty());
}

#[test]
fn bump_counts_each_id_separately() {
    let mut m = Metrics::new();
    m.bump(7);
    m.bump(3);
    m.bump(7);
    m.bump(7);
    assert_eq!(m.get(7), 3);
    assert_eq!(m.get(3), 1);
    assert_eq!(m.get(99), 0);
}

#[test]
fn entries_list_one_pair_per_id() {
    let mut m = Metrics::new();
    m.bump(5);
    m.bump(6);
    m.bump(5);
    let entries = m.entries().clone();
    assert_eq!(entries, vec![(5, 2), (6, 1)]);
}
