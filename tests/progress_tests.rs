use vanity_grind::progress::{keyspace_size, progress_report};

#[test]
fn keyspace_is_power_of_58() {
    assert_eq!(keyspace_size(0), 1);
    assert_eq!(keyspace_size(1), 58);
    assert_eq!(keyspace_size(2), 3364);
    assert_eq!(keyspace_size(5), 656_356_768);
    assert_eq!(keyspace_size(21), 58u128.pow(21));
}

#[test]
fn keyspace_saturates() {
    assert_eq!(keyspace_size(22), u128::MAX);
    assert_eq!(keyspace_size(u32::MAX), u128::MAX);
}

#[test]
fn report_rate_and_estimate() {
    let r = progress_report(5000, 2000, 2);
    assert_eq!(r.attempts, 5000);
    assert_eq!(r.attempts_per_second, Some(2500));
    assert_eq!(r.estimated_remaining_secs, Some(1));
    let r = progress_report(1_000_000, 4_000, 4);
    assert_eq!(r.attempts_per_second, Some(250_000));
    assert_eq!(r.estimated_remaining_secs, Some(11_316_496 / 250_000));
}

#[test]
fn report_without_time_or_rate() {
    let r = progress_report(10, 0, 3);
    assert_eq!(r.attempts_per_second, None);
    assert_eq!(r.estimated_remaining_secs, None);
    let r = progress_report(0, 1000, 3);
    assert_eq!(r.attempts_per_second, Some(0));
    assert_eq!(r.estimated_remaining_secs, None);
}

#[test]
fn report_with_largest_counter() {
    let r = progress_report(u64::MAX, 1, 30);
    assert_eq!(r.attempts_per_second, Some(u64::MAX as u128 * 1000));
    assert_eq!(r.estimated_remaining_secs, Some(u128::MAX / (u64::MAX as u128 * 1000)));
}
