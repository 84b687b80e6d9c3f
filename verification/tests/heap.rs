//! The timeout heap: id reuse after cancellation, expiry, the id
//! tie-break on equal deadlines, and that a cancelled id never surfaces.

use wasabi::timeout_heap::TimeoutHeap;

#[test]
fn test_id_reuse() {
    let mut th = TimeoutHeap::new();

    let id1 = th.add_at(1);
    th.add_at(2);

    th.remove(id1);
    th.clean_timeouts();

    let id3 = th.add_at(1);
    assert_eq!(id1, id3);
}

#[test]
fn test_pop_expiration() {
    let mut th = TimeoutHeap::new();

    th.add_at(2);
    th.add_at(2);
    assert_eq!(th.any_expired_timeouts(0), false);

    // popping hands back how long to sleep until the deadline
    assert_eq!(th.pop_when_expired(0), Some(2));

    assert_eq!(th.any_expired_timeouts(5), true);
}

#[test]
fn equal_deadlines_pop_in_insertion_order() {
    let mut th = TimeoutHeap::new();
    let a = th.add_at(0);
    let b = th.add_at(0);
    let c = th.add_at(0);
    assert_eq!((a, b, c), (0, 1, 2));

    assert_eq!(th.pop_when_expired(0), Some(0));
    let ids: Vec<i32> = th.entries.iter().map(|e| e.id).collect();
    assert_eq!(ids, vec![1, 2]);

    assert_eq!(th.pop_when_expired(0), Some(0));
    let ids: Vec<i32> = th.entries.iter().map(|e| e.id).collect();
    assert_eq!(ids, vec![2]);

    assert_eq!(th.pop_when_expired(0), Some(0));
    assert!(th.is_empty());
    assert_eq!(th.pop_when_expired(0), None);
}

#[test]
fn cancelled_id_never_surfaces() {
    let mut th = TimeoutHeap::new();
    let early = th.add_at(5);
    th.add_at(7);
    th.remove(early);

    // the earliest live timeout is the later one: the cancelled entry is
    // skipped, not surfaced
    assert_eq!(th.duration_when_expired(0), Some(7));
    assert_eq!(th.pop_when_expired(10), Some(0));
    assert!(th.is_empty());
}

#[test]
fn clean_reports_empty_when_all_cancelled() {
    let mut th = TimeoutHeap::new();
    let a = th.add_at(3);
    let b = th.add_at(4);
    th.remove(a);
    th.remove(b);
    th.clean_timeouts();
    assert!(th.is_empty());
    assert_eq!(th.duration_when_expired(0), None);
}

#[test]
fn clock_based_add_schedules_a_future_deadline() {
    let mut th = TimeoutHeap::new();
    let id = th.add(10_000);
    assert_eq!(id, 0);
    // ten seconds from now cannot already be due at the current reading
    assert_eq!(th.any_expired_timeouts(0), false);
    assert_eq!(th.entries.len(), 1);
}
