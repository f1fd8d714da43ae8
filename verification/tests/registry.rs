use soundboard::utils::IdMap;

#[test]
fn fresh_ids_are_sequential() {
    let mut m: IdMap<i64> = IdMap::new();
    assert_eq!(m.add(10), 0);
    assert_eq!(m.add(20), 1);
    assert_eq!(m.add(30), 2);
    assert_eq!(m.ids(), vec![0, 1, 2]);
    assert_eq!(m.iter(), vec![10, 20, 30]);
}

#[test]
fn remove_returns_value_and_marks_hole() {
    let mut m: IdMap<i64> = IdMap::new();
    m.add(10);
    m.add(20);
    m.add(30);
    assert_eq!(m.remove(1), Some(20));
    assert_eq!(m.ids(), vec![0, 2]);
    assert_eq!(m.iter(), vec![10, 30]);
}

#[test]
fn smallest_hole_is_reused() {
    let mut m: IdMap<i64> = IdMap::new();
    m.add(10);
    m.add(20);
    m.add(30);
    m.remove(2);
    m.remove(0);
    // Two holes: 0 and 2; the smallest comes back first.
    assert_eq!(m.add(40), 0);
    assert_eq!(m.add(50), 2);
    // No hole left: a fresh identifier is minted.
    assert_eq!(m.add(60), 3);
    assert_eq!(m.ids(), vec![0, 1, 2, 3]);
    assert_eq!(m.iter(), vec![40, 20, 50, 60]);
}

#[test]
fn stale_remove_is_not_found() {
    let mut m: IdMap<i64> = IdMap::new();
    assert_eq!(m.remove(0), None);
    m.add(10);
    assert_eq!(m.remove(5), None);
    assert_eq!(m.remove(0), Some(10));
    assert_eq!(m.remove(0), None);
}

#[test]
fn iteration_stays_ascending_under_churn() {
    let mut m: IdMap<i64> = IdMap::new();
    for v in 0..8i64 {
        m.add(v * 100);
    }
    m.remove(3);
    m.remove(6);
    m.remove(0);
    m.add(999); // reuses 0
    m.add(888); // reuses 3
    let ids = m.ids();
    for w in ids.windows(2) {
        assert!(w[0] < w[1]);
    }
    assert_eq!(m.iter(), vec![999, 100, 200, 888, 400, 500, 700]);
}

#[test]
fn live_count_is_adds_minus_hits() {
    let mut m: IdMap<i64> = IdMap::new();
    let mut adds = 0usize;
    let mut hits = 0usize;
    for v in 0..5i64 {
        m.add(v);
        adds += 1;
    }
    for id in [1usize, 3, 1, 9] {
        if m.remove(id).is_some() {
            hits += 1;
        }
    }
    assert_eq!(m.ids().len(), adds - hits);
    assert!(m.ids().len() <= adds);
}

#[test]
fn get_and_index_read_live_entries() {
    let mut m: IdMap<i64> = IdMap::new();
    let id = m.add(42);
    assert_eq!(m.get(&id), Some(&42));
    assert_eq!(*m.index(id), 42);
    assert_eq!(m.get(&7), None);
}

#[test]
fn clone_is_independent() {
    let mut m: IdMap<i64> = IdMap::new();
    m.add(1);
    m.add(2);
    let mut c = m.clone();
    c.remove(0);
    c.add(3);
    assert_eq!(m.iter(), vec![1, 2]);
    assert_eq!(c.iter(), vec![3, 2]);
}
