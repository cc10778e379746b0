use account_ledger::clock::{seconds_or_epoch, unix_time_now};

#[test]
fn reading_of_the_clock_is_its_seconds() {
    assert_eq!(seconds_or_epoch(Some(1000)), 1000);
    assert_eq!(seconds_or_epoch(Some(0)), 0);
    assert_eq!(seconds_or_epoch(Some(u64::MAX)), u64::MAX);
}

#[test]
fn clock_before_the_epoch_reads_as_the_epoch() {
    assert_eq!(seconds_or_epoch(None), 0);
}

#[test]
fn clock_does_not_run_backwards_far() {
    let first = unix_time_now();
    let second = unix_time_now();
    // Later than the first of January 2020, and the two readings lie close.
    assert!(first > 1_577_836_800);
    assert!(second + 60 > first);
}
