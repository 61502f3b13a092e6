use ferrous::queue_details::TrackFileFingerprint;
use ferrous::queue_validation::{read_still_valid, ValidationTracker};

#[test]
fn one_check_per_generation_and_stale_results_dropped() {
    let mut t = ValidationTracker::new();
    assert!(t.request(1));
    assert!(!t.request(1));
    assert_eq!(t.in_flight, Some(1));
    // the queue changed: a newer check is asked for and the older one stops
    assert!(t.request(2));
    assert!(!t.still_current(1));
    assert!(t.still_current(2));
    // the older result arrives late and is dropped; the newer is awaited
    assert!(!t.apply(1, 2));
    assert_eq!(t.in_flight, Some(2));
    assert!(t.apply(2, 2));
    assert_eq!(t.in_flight, None);
    assert!(t.request(2));
    t.send_failed();
    assert_eq!(t.in_flight, None);
    assert!(t.request(2));
}

#[test]
fn details_read_of_a_changed_file_are_not_published() {
    let fp = |m: i64| TrackFileFingerprint { mtime_ns: m, size_bytes: 4 };
    assert!(read_still_valid(fp(1), Some(fp(1))));
    assert!(!read_still_valid(fp(1), Some(fp(2))));
    assert!(!read_still_valid(fp(1), None));
}
