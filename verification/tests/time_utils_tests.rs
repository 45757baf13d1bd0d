use session_recorder_addon::utils::time_utils::{
    calculate_queue_wait_time, estimate_end_time, format_duration, format_relative_time,
    is_late_arrival,
};

#[test]
fn test_format_duration() {
    assert_eq!(format_duration(30), "0:30");
    assert_eq!(format_duration(5 * 60), "5:00");
    assert_eq!(format_duration(65 * 60), "1:05:00");
    assert_eq!(format_duration(3661), "1:01:01");
}

#[test]
fn test_format_relative_time() {
    let now: i64 = 1_700_000_000;

    assert_eq!(format_relative_time(now - 30, now), "just now");
    assert_eq!(format_relative_time(now - 60, now), "1 minute ago");
    assert_eq!(format_relative_time(now - 5 * 60, now), "5 minutes ago");
    assert_eq!(format_relative_time(now - 3600, now), "1 hour ago");
    assert_eq!(format_relative_time(now - 3 * 3600, now), "3 hours ago");
    assert_eq!(format_relative_time(now - 86400, now), "1 day ago");
    assert_eq!(format_relative_time(now - 3 * 86400, now), "3 days ago");
}

#[test]
fn test_estimate_end_time() {
    // 2024-01-01T12:00:00Z, plus an hour.
    let start: i64 = 1_704_110_400;
    let end = estimate_end_time(start, 60);
    assert_eq!(end, 1_704_114_000);
}

#[test]
fn test_calculate_queue_wait_time() {
    let wait_time = calculate_queue_wait_time(3, 60); // 3rd in queue, 60min sessions
    assert_eq!(wait_time, 120); // Wait for 2 sessions

    let wait_time = calculate_queue_wait_time(1, 60); // First in queue
    assert_eq!(wait_time, 0); // No wait
}

#[test]
fn test_is_late_arrival() {
    // 2024-01-01T23:30:00Z and 2024-01-01T20:00:00Z.
    let late_time: i64 = 1_704_151_800;
    let early_time: i64 = 1_704_139_200;

    assert!(is_late_arrival(late_time, 22));
    assert!(!is_late_arrival(early_time, 22));
}
