use std::collections::HashSet;

use nailgun::{QueryInfo, Store};

#[test]
fn full_pool_claims_are_distinct() {
    let mut store = Store::new();
    assert_eq!(store.free_len(), 65536);
    let mut seen: HashSet<u16> = HashSet::new();
    let mut total: usize = 0;
    for batch in [1usize, 99, 1000, 64, 0, 500] {
        let ids = store.claim(batch);
        assert_eq!(ids.len(), batch);
        total += batch;
        for id in ids {
            assert!(seen.insert(id), "id {} handed out twice", id);
        }
    }
    assert_eq!(seen.len(), total);
    assert_eq!(store.free_len(), 65536 - total);
}

#[test]
fn claiming_everything_drains_the_pool() {
    let mut store = Store::new();
    let ids = store.claim(65536);
    assert_eq!(ids.len(), 65536);
    let mut seen: HashSet<u16> = HashSet::new();
    for id in ids {
        assert!(seen.insert(id));
    }
    assert_eq!(seen.len(), 65536);
    assert_eq!(store.free_len(), 0);
    assert_eq!(store.claim(1).len(), 0);
}

#[test]
fn in_flight_id_stays_out_until_released() {
    let mut store = Store::with_ids(vec![7, 8, 9]);
    let ids = store.claim(1);
    assert_eq!(ids, vec![7]);
    store.mark_in_flight(7, QueryInfo { sent: 42 });
    assert!(store.in_flight.contains_key(&7));
    // claiming the rest of the pool never yields 7 again
    let rest = store.claim(10);
    assert_eq!(rest, vec![8, 9]);
    assert_eq!(store.free_len(), 0);
    // only an explicit return brings it back, at the back of the pool
    store.release(7);
    assert!(!store.in_flight.contains_key(&7));
    assert_eq!(store.claim(1), vec![7]);
}

#[test]
fn released_ids_recirculate_in_order() {
    let mut store = Store::with_ids(vec![1, 2, 3]);
    let ids = store.claim(3);
    assert_eq!(ids, vec![1, 2, 3]);
    for id in ids {
        store.mark_in_flight(id, QueryInfo { sent: 0 });
    }
    store.release(2);
    store.release(1);
    assert_eq!(store.claim(2), vec![2, 1]);
}

#[test]
fn oversized_batch_returns_only_what_is_free() {
    let mut store = Store::with_ids(vec![10, 11]);
    let ids = store.claim(5);
    assert_eq!(ids, vec![10, 11]);
    assert_eq!(store.free_len(), 0);
}

#[test]
fn zero_batch_claims_nothing_and_changes_nothing() {
    let mut store = Store::with_ids(vec![4, 5, 6]);
    let ids = store.claim(0);
    assert_eq!(ids.len(), 0);
    assert_eq!(store.free_len(), 3);
    assert_eq!(store.in_flight_len(), 0);
    assert_eq!(store.claim(3), vec![4, 5, 6]);
}
