use tokio_console::time::{option_later, Duration, SystemTime};
use tokio_console::util::{percent_of, percent_of_usize};

#[test]
fn durations_add_and_subtract() {
    let a = Duration::from_secs(2);
    let b = Duration::from_nanos(500);
    assert_eq!(a.checked_add(&b).unwrap().as_nanos(), 2_000_000_500);
    assert_eq!(a.add(&b).as_secs(), 2);
    assert_eq!(a.checked_sub(&b).unwrap().as_nanos(), 1_999_999_500);
    assert_eq!(b.checked_sub(&a), None);
    assert!(b.lt(&a));
    assert_eq!(Duration::from_secs(3).as_millis(), 3000);
    assert_eq!(Duration::zero(), Duration::default());
    assert_eq!(Duration::from_pb(1, 250), Duration::from_nanos(1_000_000_250));
    assert_eq!(Duration::from_nanos_u128(7).as_nanos(), 7);
}

#[test]
fn durations_print_like_std() {
    assert_eq!(Duration::from_nanos(1_500_000_000).to_debug_string(), "1.5s");
    assert_eq!(Duration::from_nanos(1_000).to_debug_string(), "1µs");
    assert_eq!(Duration::from_nanos(2_500_000).to_debug_string_padded(9, 1), "    2.5ms");
}

#[test]
fn instants_measure_elapsed_time() {
    let t0 = SystemTime::from_unix(100, 0);
    let t1 = SystemTime::from_unix(102, 500);
    assert_eq!(t1.duration_since(&t0), Some(Duration::from_nanos(2_000_000_500)));
    assert_eq!(t0.duration_since(&t1), None);
    assert_eq!(t0.elapsed_since(&t1), Duration::zero());
    assert!(t1.gt(&t0));
    assert_eq!(t1.as_unix_nanos(), 102_000_000_500);
    assert!(option_later(&Some(t1), &Some(t0)));
    assert!(option_later(&Some(t0), &None));
    assert!(!option_later(&None, &Some(t0)));
    let before_epoch = SystemTime::from_unix(-1, 0);
    assert_eq!(before_epoch.as_unix_nanos(), -1_000_000_000);
}

#[test]
fn percentages_round_down() {
    assert_eq!(percent_of(1, 3), 33);
    assert_eq!(percent_of(2, 3), 66);
    assert_eq!(percent_of(5, 5), 100);
    assert_eq!(percent_of(0, 0), 0);
    assert_eq!(percent_of(1, 0), u64::MAX);
    assert_eq!(percent_of_usize(1, 4), 25);
}
