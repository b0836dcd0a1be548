use yog::format::{format_duration, format_size};

#[test]
fn progress_uses_adaptive_video_size_units() {
    assert_eq!(format_size(800 * 1_048_576), "800 MiB");
    assert_eq!(format_size(1_181_116_006), "1.1 GiB");
}

#[test]
fn processed_time_keeps_hours_instead_of_wrapping_at_sixty_minutes() {
    assert_eq!(format_duration(std::time::Duration::from_secs(3_661).as_secs()), "01:01:01");
}

#[test]
fn small_sizes_keep_one_decimal_and_long_durations_keep_counting_hours() {
    assert_eq!(format_size(0), "0.0 MiB");
    assert_eq!(format_size(1_572_864), "1.5 MiB");
    assert_eq!(format_size(10 * 1_048_576), "10 MiB");
    assert_eq!(format_size(u64::MAX), "17179869184.0 GiB");
    assert_eq!(format_duration(360_000), "100:00:00");
    assert_eq!(format_duration(59), "00:00:59");
}
