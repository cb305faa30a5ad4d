use avance::{Progress, INTERVAL};

#[test]
fn counts_add_up() {
    let mut p = Progress::new();
    let deltas = [3u64, 0, 17, 1, 1000];
    for d in deltas {
        p.inc(d);
    }
    assert_eq!(p.n, 1021);
    p.inc(u64::MAX);
    assert_eq!(p.n, u64::MAX);
}

#[test]
fn rate_limit_window() {
    let mut p = Progress::new();
    assert!(!p.ready(INTERVAL));
    assert!(p.ready(INTERVAL + 1));
    p.inc(5);
    p.update(INTERVAL + 1);
    assert_eq!((p.n, p.last, p.prev), (5, 5, INTERVAL + 1));
    assert_eq!(p.since_last(INTERVAL), 0);
    assert_eq!(p.since_last(2 * INTERVAL + 1), INTERVAL);
    assert!(!p.ready(2 * INTERVAL + 1));
    assert!(p.ready(2 * INTERVAL + 2));
}
