use shazam_lib::window::SAMPLE_DURATION_MS;
use shazam_lib::{compute_sample_window, compute_window_at, SamplePosition};

#[test]
fn test_compute_sample_window_normal() {
    let (start, end) = compute_sample_window(60_000, 4_000);
    assert_eq!(start, 28_000);
    assert_eq!(end, 32_000);
}

#[test]
fn test_compute_sample_window_short_file() {
    let (start, end) = compute_sample_window(2_000, 4_000);
    assert_eq!(start, 0);
    assert_eq!(end, 2_000);
}

#[test]
fn test_compute_sample_window_exact_fit() {
    let (start, end) = compute_sample_window(4_000, 4_000);
    assert_eq!(start, 0);
    assert_eq!(end, 4_000);
}

#[test]
fn test_compute_sample_window_odd_duration() {
    let (start, end) = compute_sample_window(10_001, 4_000);
    assert_eq!(end - start, 4_000);
}

#[test]
fn window_of_extreme_lengths() {
    assert_eq!(compute_sample_window(0, 4_000), (0, 0));
    assert_eq!(compute_sample_window(10, 0), (5, 5));
    assert_eq!(compute_sample_window(u64::MAX, u64::MAX), (0, u64::MAX));
    assert_eq!(compute_sample_window(7, 3), (2, 5));
    assert_eq!(compute_sample_window(8, 3), (3, 6));
    let (start, end) = compute_window_at(u64::MAX, 4_000, SamplePosition::Percent(100));
    assert_eq!((start, end), (u64::MAX - 4_000, u64::MAX));
}

#[test]
fn half_of_the_file_is_its_middle() {
    for total in [0u64, 1, 2_000, 4_000, 4_001, 10_001, 60_000, 227_345] {
        assert_eq!(
            compute_window_at(total, SAMPLE_DURATION_MS, SamplePosition::default()),
            compute_sample_window(total, SAMPLE_DURATION_MS),
        );
    }
}

#[test]
fn percentage_is_the_center() {
    // A third of 300 s is 99 s: two seconds before it and two after.
    assert_eq!(compute_window_at(300_000, 4_000, SamplePosition::Percent(33)), (97_000, 101_000));
}

#[test]
fn percentage_is_clamped_to_the_file() {
    assert_eq!(compute_window_at(300_000, 4_000, SamplePosition::Percent(0)), (0, 4_000));
    assert_eq!(compute_window_at(300_000, 4_000, SamplePosition::Percent(100)), (296_000, 300_000));
}

#[test]
fn later_percentage_is_no_earlier() {
    let mut last = 0;
    for p in 0..=100u8 {
        let (start, end) = compute_window_at(12_345, 4_000, SamplePosition::Percent(p));
        assert!(last <= start);
        assert!(end <= 12_345);
        assert_eq!(end - start, 4_000);
        last = start;
    }
}

#[test]
fn absolute_position_is_the_start() {
    assert_eq!(compute_window_at(300_000, 4_000, SamplePosition::StartMs(90_000)), (90_000, 94_000));
    assert_eq!(compute_window_at(300_000, 4_000, SamplePosition::StartMs(296_000)), (296_000, 300_000));
}

#[test]
fn absolute_position_is_clamped_to_the_file() {
    assert_eq!(compute_window_at(300_000, 4_000, SamplePosition::StartMs(299_000)), (296_000, 300_000));
    assert_eq!(compute_window_at(300_000, 4_000, SamplePosition::StartMs(u64::MAX)), (296_000, 300_000));
    assert_eq!(compute_window_at(2_000, 4_000, SamplePosition::StartMs(1_000)), (0, 2_000));
}

#[test]
fn positions_are_read() {
    assert_eq!(SamplePosition::parse("33%"), Some(SamplePosition::Percent(33)));
    assert_eq!(SamplePosition::parse("50%"), Some(SamplePosition::default()));
    assert_eq!(SamplePosition::parse("0%"), Some(SamplePosition::Percent(0)));
    assert_eq!(SamplePosition::parse("100%"), Some(SamplePosition::Percent(100)));
    assert_eq!(SamplePosition::parse("2:00"), Some(SamplePosition::StartMs(120_000)));
    assert_eq!(SamplePosition::parse("1:30"), Some(SamplePosition::StartMs(90_000)));
    assert_eq!(SamplePosition::parse("0:05"), Some(SamplePosition::StartMs(5_000)));
    assert_eq!(SamplePosition::parse("75:59"), Some(SamplePosition::StartMs(4_559_000)));
}

#[test]
fn other_positions_are_refused() {
    for s in [
        "", "%", ":", "33", "101%", "-1%", "3 3%", "33%%", ":30", "1:5", "1:60", "1:2:03", "a:00",
        "1:3x", "18446744073709551616%", "99999999999999999999:00", "307445734561825860:00",
    ] {
        assert_eq!(SamplePosition::parse(s), None, "{s}");
    }
}

#[test]
fn what_is_written_is_read_back() {
    for p in 0..=100u8 {
        assert_eq!(SamplePosition::parse(&format!("{p}%")), Some(SamplePosition::Percent(p)));
    }
    for secs in [0u64, 9, 10, 59, 60, 61, 599, 600, 3_599, 3_600, 100_000] {
        let mut shown = String::new();
        shazam_lib::text::append_clock(&mut shown, secs);
        assert_eq!(shown, format!("{}:{:02}", secs / 60, secs % 60));
        assert_eq!(SamplePosition::parse(&shown), Some(SamplePosition::StartMs(secs * 1_000)));
    }
}
