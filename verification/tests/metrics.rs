use concurrency::{AmapMetrics, Metrics, MetricsError};

#[test]
fn a_new_table_is_empty() {
    let m = Metrics::new();
    assert_eq!(m.snapshot(), vec![]);
    assert_eq!(m.to_string(), "");
    let d = Metrics::default();
    assert_eq!(d.snapshot(), vec![]);
}

#[test]
fn the_first_count_of_a_key_is_one() {
    let mut m = Metrics::new();
    assert_eq!(m.inc("req.page.1".to_string()), Ok(()));
    assert_eq!(m.snapshot(), vec![("req.page.1".to_string(), 1)]);
}

#[test]
fn counting_raises_one_key_and_leaves_the_others() {
    let mut m = Metrics::new();
    assert_eq!(m.inc("a".to_string()), Ok(()));
    assert_eq!(m.inc("b".to_string()), Ok(()));
    assert_eq!(m.inc("a".to_string()), Ok(()));
    assert_eq!(m.inc("c".to_string()), Ok(()));
    assert_eq!(m.inc("a".to_string()), Ok(()));
    assert_eq!(
        m.snapshot(),
        vec![("a".to_string(), 3), ("b".to_string(), 1), ("c".to_string(), 1)]
    );
}

#[test]
fn keys_are_told_apart_exactly() {
    let mut m = Metrics::new();
    assert_eq!(m.inc("a".to_string()), Ok(()));
    assert_eq!(m.inc("A".to_string()), Ok(()));
    assert_eq!(m.inc("a ".to_string()), Ok(()));
    assert_eq!(m.inc("".to_string()), Ok(()));
    assert_eq!(m.inc("".to_string()), Ok(()));
    assert_eq!(
        m.snapshot(),
        vec![
            ("a".to_string(), 1),
            ("A".to_string(), 1),
            ("a ".to_string(), 1),
            ("".to_string(), 2)
        ]
    );
}

#[test]
fn a_snapshot_does_not_follow_later_counts() {
    let mut m = Metrics::new();
    assert_eq!(m.inc("a".to_string()), Ok(()));
    let before = m.snapshot();
    assert_eq!(m.inc("a".to_string()), Ok(()));
    assert_eq!(before, vec![("a".to_string(), 1)]);
    assert_eq!(m.snapshot(), vec![("a".to_string(), 2)]);
}

#[test]
fn a_table_writes_one_line_per_key() {
    let mut m = Metrics::new();
    for _ in 0..12 {
        assert_eq!(m.inc("call.thread.worker.0".to_string()), Ok(()));
    }
    assert_eq!(m.inc("req.page.2".to_string()), Ok(()));
    assert_eq!(m.to_string(), "call.thread.worker.0: 12\nreq.page.2: 1\n");
}

#[test]
fn a_fixed_table_starts_at_zero() {
    let m = AmapMetrics::new(&["call.thread.worker.0", "req.page.1", "req.page.2"]);
    assert_eq!(m.to_string(), "call.thread.worker.0: 0\nreq.page.1: 0\nreq.page.2: 0\n");
    let none = AmapMetrics::new(&[]);
    assert_eq!(none.to_string(), "");
}

#[test]
fn a_fixed_table_counts_a_repeated_name_once() {
    let m = AmapMetrics::new(&["a", "b", "a", "c", "b"]);
    assert_eq!(m.to_string(), "a: 0\nb: 0\nc: 0\n");
}

#[test]
fn a_fixed_table_raises_the_named_counter() {
    let mut m = AmapMetrics::new(&["a", "b"]);
    assert_eq!(m.inc("b"), Ok(()));
    assert_eq!(m.inc("b"), Ok(()));
    assert_eq!(m.inc("a"), Ok(()));
    assert_eq!(m.to_string(), "a: 1\nb: 2\n");
}

#[test]
fn a_fixed_table_rejects_an_unknown_name() {
    let mut m = AmapMetrics::new(&["a", "b"]);
    assert_eq!(m.inc("c"), Err(MetricsError::KeyNotFound));
    assert_eq!(m.inc(""), Err(MetricsError::KeyNotFound));
    assert_eq!(m.inc("A"), Err(MetricsError::KeyNotFound));
    assert_eq!(m.to_string(), "a: 0\nb: 0\n");
}
