use cheval::change_wait::{ChangeWait, WAIT_STEP_NANOS};
use cheval::file_cache::FileCache;

#[test]
fn wait_with_no_time_ends_at_once_and_has_timed_out() {
    let mut wait = ChangeWait::start(0, 3);
    assert_eq!(None, wait.next_sleep());
    assert!(wait.timed_out());
}

#[test]
fn wait_takes_one_step_per_hundred_milliseconds() {
    let mut wait = ChangeWait::start(250_000_000, 3);
    assert_eq!(Some(100_000_000), wait.next_sleep());
    assert_eq!(150_000_000, wait.remaining_nanos);
    wait.observe(3);
    assert_eq!(Some(WAIT_STEP_NANOS), wait.next_sleep());
    assert_eq!(50_000_000, wait.remaining_nanos);
    wait.observe(3);
    assert_eq!(Some(WAIT_STEP_NANOS), wait.next_sleep());
    assert_eq!(0, wait.remaining_nanos);
    wait.observe(2);
    assert_eq!(None, wait.next_sleep());
    assert!(wait.timed_out());
    assert!(!wait.changed);
}

#[test]
fn wait_ends_when_the_counter_has_passed_the_baseline() {
    let mut wait = ChangeWait::start(1_000_000_000, 3);
    assert_eq!(Some(WAIT_STEP_NANOS), wait.next_sleep());
    wait.observe(3);
    assert_eq!(Some(WAIT_STEP_NANOS), wait.next_sleep());
    wait.observe(4);
    assert_eq!(None, wait.next_sleep());
    assert_eq!(800_000_000, wait.remaining_nanos);
    assert!(!wait.timed_out());
    assert!(wait.changed);
}

#[test]
fn change_in_the_last_step_still_counts_as_timed_out() {
    let mut wait = ChangeWait::start(1, 0);
    assert_eq!(Some(WAIT_STEP_NANOS), wait.next_sleep());
    wait.observe(1);
    assert_eq!(None, wait.next_sleep());
    assert!(wait.changed);
    assert!(wait.timed_out());
}

#[test]
fn wait_begins_at_the_current_number_of_updates() {
    let fc = FileCache::new();
    let wait = fc.wait_for_change_with_timeout(5);
    assert_eq!(ChangeWait { remaining_nanos: 5, baseline: 0, changed: false }, wait);
}
