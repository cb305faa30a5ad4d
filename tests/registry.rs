use avance::{set_max_progress_bars, Registry};

#[test]
fn rows_follow_creation_order() {
    let mut reg = Registry::new();
    let a = reg.next_free_pos();
    let b = reg.next_free_pos();
    let c = reg.next_free_pos();
    assert_eq!((a, b, c), (0, 1, 2));
    assert_eq!(reg.position(a), Some(0));
    assert_eq!(reg.position(b), Some(1));
    assert_eq!(reg.position(c), Some(2));
    assert!(!reg.is_finished());
}

#[test]
fn close_slides_lower_rows_up() {
    let mut reg = Registry::new();
    let ids: Vec<u64> = (0..5).map(|_| reg.next_free_pos()).collect();
    reg.reposition(ids[1]);
    assert_eq!(reg.position(ids[1]), None);
    assert_eq!(reg.position(ids[0]), Some(0));
    assert_eq!(reg.position(ids[2]), Some(1));
    assert_eq!(reg.position(ids[3]), Some(2));
    assert_eq!(reg.position(ids[4]), Some(3));
    let mut rows: Vec<u16> = reg.positions.iter().map(|s| s.row).collect();
    rows.sort();
    assert_eq!(rows, vec![0, 1, 2, 3]);
}

#[test]
fn rows_stay_contiguous_under_interleaving() {
    let mut reg = Registry::new();
    let mut live: Vec<u64> = Vec::new();
    for round in 0..20u64 {
        live.push(reg.next_free_pos());
        live.push(reg.next_free_pos());
        let gone = live.remove((round as usize * 7) % live.len());
        reg.reposition(gone);
        let mut rows: Vec<u16> = live.iter().map(|id| reg.position(*id).unwrap()).collect();
        rows.sort();
        let expected: Vec<u16> = (0..live.len() as u16).collect();
        assert_eq!(rows, expected);
    }
}

#[test]
fn ids_are_never_reused() {
    let mut reg = Registry::new();
    let a = reg.next_free_pos();
    reg.reposition(a);
    assert!(reg.is_finished());
    let b = reg.next_free_pos();
    assert_eq!(b, a + 1);
    assert_eq!(reg.position(b), Some(0));
}

#[test]
fn max_bars_cap() {
    let mut reg = Registry::new();
    assert_eq!(reg.nrows(40), 40);
    set_max_progress_bars(&mut reg, 3);
    assert_eq!(reg.max_bars, 4);
    assert_eq!(reg.nrows(40), 4);
    assert_eq!(reg.nrows(2), 2);
    set_max_progress_bars(&mut reg, 0);
    assert_eq!(reg.max_bars, 2);
    set_max_progress_bars(&mut reg, u16::MAX);
    assert_eq!(reg.max_bars, u16::MAX);
}
