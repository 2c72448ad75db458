use technoafandi::download::{
    after_request_failure, after_transfer, done_label, starting_label, fetched_total, http_error_message, monitor, part_range,
    range_header, resume_at, resume_parts, stream_tick, use_parallel, ChunkStep, StreamTick, Tick,
};
use technoafandi::http::{content_range_total, parse_u64, positive_length, ranged_size};
use technoafandi::smart::{
    choose_parts, classify_failure, fatal_note, lfs_retry_label, part_file_name, parts_note,
    retry_label, retry_note, second_field_or_unknown, success_note, to_lfs_media_url, SmartAction,
    SmartDownload, StreamFailure,
};

#[test]
fn parallel_only_from_ten_mib() {
    assert!(!use_parallel(None));
    assert!(!use_parallel(Some(1024 * 1024 + 1)));
    assert!(!use_parallel(Some(5_000_000)));
    assert!(!use_parallel(Some(10 * 1024 * 1024 - 1)));
    assert!(use_parallel(Some(10 * 1024 * 1024)));
}

#[test]
fn part_ranges_partition_the_file() {
    let total = 10_000_003u64;
    let n = 8u64;
    let mut next = 0u64;
    for i in 0..n {
        let (a, b) = part_range(total, n, i);
        assert_eq!(a, next);
        assert!(a <= b);
        next = b + 1;
    }
    assert_eq!(next, total);
    assert_eq!(part_range(total, n, 0), (0, 1_250_000 - 1));
    assert_eq!(part_range(total, n, 7), (8_750_000, 10_000_002));
}

#[test]
fn resume_state_must_match_part_count() {
    assert_eq!(resume_parts(Some(vec![5, 6, 7]), 3), vec![5, 6, 7]);
    assert_eq!(resume_parts(Some(vec![5, 6]), 3), vec![0, 0, 0]);
    assert_eq!(resume_parts(None, 2), vec![0, 0]);
    assert_eq!(fetched_total(&vec![5, 6, 7]), Some(18));
    assert_eq!(fetched_total(&vec![u64::MAX, 1]), None);
}

#[test]
fn part_worker_resume_point() {
    assert_eq!(resume_at(100, 0, 199), Some(100));
    assert_eq!(resume_at(100, 50, 199), Some(150));
    assert_eq!(resume_at(100, 100, 199), None);
    assert_eq!(range_header(150, 199), "bytes=150-199");
}

#[test]
fn part_worker_retry_limits() {
    assert!(matches!(after_request_failure(0, "x".to_string()), ChunkStep::Retry { retries: 1, wait_secs: 3 }));
    assert!(matches!(after_request_failure(10, "boom".to_string()), ChunkStep::GiveUp(ref m) if m == "boom"));
    assert!(matches!(after_transfer(true, 14), ChunkStep::Done));
    assert!(matches!(after_transfer(false, 14), ChunkStep::Retry { retries: 15, wait_secs: 2 }));
    assert!(matches!(after_transfer(false, 15), ChunkStep::GiveUp(ref m) if m == "Failed after 15 chunk retries"));
    assert_eq!(http_error_message("503 Service Unavailable"), "HTTP error: 503 Service Unavailable");
}

#[test]
fn monitor_priorities() {
    assert!(matches!(monitor(true, true, Some("e".to_string()), true, false), Tick::Pause));
    assert!(matches!(monitor(false, true, Some("e".to_string()), true, false), Tick::Cancel));
    assert!(matches!(monitor(false, false, Some("net".to_string()), true, false), Tick::Fail(ref m) if m == "Retry|net"));
    assert!(matches!(monitor(false, false, None, true, false), Tick::Report { finished: true }));
    assert!(matches!(monitor(false, false, None, true, true), Tick::Report { finished: false }));
    assert!(matches!(monitor(false, false, None, false, false), Tick::Report { finished: false }));
    assert_eq!(stream_tick(true, true), StreamTick::Pause);
    assert_eq!(stream_tick(false, true), StreamTick::Cancel);
    assert_eq!(stream_tick(false, false), StreamTick::Write);
}

#[test]
fn header_numbers() {
    assert_eq!(parse_u64("12345"), Some(12345));
    assert_eq!(parse_u64("+7"), Some(7));
    assert_eq!(parse_u64("+"), None);
    assert_eq!(parse_u64(""), None);
    assert_eq!(parse_u64("-1"), None);
    assert_eq!(parse_u64("1 "), None);
    assert_eq!(parse_u64("18446744073709551615"), Some(u64::MAX));
    assert_eq!(parse_u64("18446744073709551616"), None);
    assert_eq!(parse_u64("99999999999999999999x"), None);
}

#[test]
fn remote_size_from_headers() {
    assert_eq!(content_range_total("bytes 0-0/12345"), Some(12345));
    assert_eq!(content_range_total("bytes 0-0/ 77 "), Some(77));
    assert_eq!(content_range_total("bytes 0-0/*"), None);
    assert_eq!(content_range_total("bytes 0-0/0"), None);
    assert_eq!(content_range_total("42"), Some(42));
    assert_eq!(positive_length("0"), None);
    assert_eq!(positive_length("10"), Some(10));
    assert_eq!(positive_length(" 10"), None);
    assert_eq!(ranged_size(Some("bytes 0-0/500"), Some("1")), Some(500));
    assert_eq!(ranged_size(Some("bytes 0-0/*"), Some("1")), Some(1));
    assert_eq!(ranged_size(None, None), None);
}

#[test]
fn lfs_media_url() {
    assert_eq!(
        to_lfs_media_url("https://raw.githubusercontent.com/a/b/main/X.dll"),
        Some("https://media.githubusercontent.com/media/a/b/main/X.dll".to_string())
    );
    assert_eq!(to_lfs_media_url("https://github.com/a/b/releases/download/V1/FC26.exe"), None);
}

#[test]
fn stream_failures_classified() {
    assert!(matches!(classify_failure("Resumed"), StreamFailure::Resumed));
    assert!(matches!(classify_failure("Retry|timed out"), StreamFailure::Retry(ref m) if m == "timed out"));
    assert!(matches!(classify_failure("Retry|a|b"), StreamFailure::Retry(ref m) if m == "a"));
    assert!(matches!(classify_failure("Retry"), StreamFailure::Retry(ref m) if m == "Unknown"));
    assert!(matches!(classify_failure("Cancelled"), StreamFailure::Fatal));
    assert_eq!(second_field_or_unknown("x|"), "");
}

#[test]
fn parts_follow_earlier_attempt() {
    assert_eq!(choose_parts(Some(1_000_000), 8, 0), 1);
    assert_eq!(choose_parts(None, 8, 1), 1);
    assert_eq!(choose_parts(Some(2 * 1024 * 1024 - 1), 8, 0), 1);
    assert_eq!(choose_parts(Some(2 * 1024 * 1024), 8, 0), 8);
    assert_eq!(choose_parts(Some(100), 8, 5), 5);
    assert_eq!(part_file_name("FC26.exe", 3), ".dl_part_FC26.exe_3");
}

#[test]
fn smart_download_switches_to_media_url() {
    let mut s = SmartDownload::new("https://raw.githubusercontent.com/u/r/main/a.dll");
    assert!(matches!(s.after_probe(None, Some(130), false), SmartAction::Transfer));
    assert!(matches!(s.after_transfer(Ok(()), true), SmartAction::Switched));
    assert_eq!(s.url, "https://media.githubusercontent.com/media/u/r/main/a.dll");
    assert!(matches!(s.after_transfer(Ok(()), false), SmartAction::Finished { transferred: true }));
}

#[test]
fn smart_download_lfs_without_media_url_fails() {
    let mut s = SmartDownload::new("https://github.com/u/r/releases/download/v1/a.exe");
    match s.after_probe(Some(130), Some(130), true) {
        SmartAction::Failed { message, logged, delete_first } => {
            assert!(!logged);
            assert!(delete_first);
            assert_eq!(message, "LFS detected but cannot build media URL from: https://github.com/u/r/releases/download/v1/a.exe");
        }
        _ => panic!("expected failure"),
    }
    assert!(matches!(s.after_probe(Some(130), Some(130), false), SmartAction::Finished { transferred: false }));
    match s.after_transfer(Ok(()), true) {
        SmartAction::Failed { logged, delete_first, .. } => assert!(!logged && delete_first),
        _ => panic!("expected failure"),
    }
}

#[test]
fn smart_download_keeps_existing_file_of_remote_size() {
    let mut s = SmartDownload::new("https://example.com/a.dll");
    // Missing, empty, or of another size: downloaded.
    assert!(matches!(s.after_probe(None, Some(5), false), SmartAction::Transfer));
    assert!(matches!(s.after_probe(Some(0), None, false), SmartAction::Transfer));
    assert!(matches!(s.after_probe(Some(4), Some(5), false), SmartAction::Transfer));
    // Of the remote size, or any non-empty file when the size is unknown: kept.
    assert!(matches!(s.after_probe(Some(5_000_000), Some(5_000_000), false), SmartAction::Finished { transferred: false }));
    assert!(matches!(s.after_probe(Some(5), None, false), SmartAction::Finished { transferred: false }));
    assert_eq!(s.url, "https://example.com/a.dll");
}

#[test]
fn smart_download_resume_retry_fatal() {
    let mut s = SmartDownload::new("u");
    assert!(matches!(s.after_transfer(Err(("Resumed".to_string(), 12)), false), SmartAction::Probe));
    assert_eq!(s.elapsed, 12);
    assert!(matches!(s.after_transfer(Err(("Retry|reset".to_string(), 20)), false), SmartAction::RetryLater(ref m) if m == "reset"));
    assert_eq!((s.elapsed, s.retries), (20, 1));
    assert!(matches!(s.after_transfer(Err(("Cancelled".to_string(), 30)), false), SmartAction::Failed { logged: true, delete_first: false, .. }));
    assert_eq!(s.elapsed, 20);
}

#[test]
fn smart_download_messages() {
    assert_eq!(lfs_retry_label("a.dll"), "a.dll (LFS \u{2014} retrying via media URL)");
    assert_eq!(success_note("a.dll"), "\u{2713} Successfully downloaded a.dll");
    assert_eq!(retry_note(2, "a.dll", "reset"), "\u{26a0}\u{fe0f} Retry 2 for a.dll (Error: reset)");
    assert_eq!(retry_label("a.dll", 2), "a.dll \u{b7} Disconnected, retrying (2)...");
    assert_eq!(fatal_note("a.dll", "Cancelled"), "\u{274c} Fatal error downloading a.dll: Cancelled");
    assert_eq!(parts_note(4, "FC26.exe"), "Found 4 existing parts for FC26.exe, forcing num_parts to match.");
}

#[test]
fn media_url_is_rewritten_once() {
    let raw = "https://raw.githubusercontent.com/u/r/main/raw.githubusercontent.com/a.dll";
    let m = to_lfs_media_url(raw).unwrap();
    assert_eq!(m, "https://media.githubusercontent.com/media/u/r/main/media.githubusercontent.com/media/a.dll");
    assert_eq!(m.len(), raw.len() + 8 * 2);
    assert_eq!(to_lfs_media_url(&m), None);
    assert_eq!(to_lfs_media_url("https://github.com/u/r/a.dll"), None);
}

#[test]
fn download_labels() {
    assert_eq!(done_label("a.dll"), "a.dll \u{b7} Done \u{2713}");
    assert_eq!(starting_label("a.dll"), "a.dll \u{b7} Resuming/Starting");
}
