use yta_rs::stats::DownloadStatistics;
use yta_rs::util::{format_bytes, plan_fetch, segment_file_names, temp_path, FetchPlan};

#[test]
fn artifact_names_follow_index_and_ids() {
    let (a, v) = segment_file_names(3, 1, 2);
    assert_eq!(a, "seq_3.a1.mp4");
    assert_eq!(v, "seq_3.v2.mp4");
    let (a, v) = segment_file_names(0, 140, 299);
    assert_eq!(a, "seq_0.a140.mp4");
    assert_eq!(v, "seq_0.v299.mp4");
}

#[test]
fn downloads_go_through_a_temporary_path() {
    assert_eq!(temp_path("seq_0.a1.mp4"), "seq_0.a1.mp4.tmp");
}

#[test]
fn present_artifacts_are_never_fetched_again() {
    // The idempotence rule: a present destination means no network call and
    // zero new bytes; an absent one means one download.
    assert!(matches!(plan_fetch(true), FetchPlan::AlreadyPresent));
    assert!(matches!(plan_fetch(false), FetchPlan::Download));
}

#[test]
fn byte_counts_render_in_binary_units() {
    assert_eq!(format_bytes(0), "0.00 B");
    assert_eq!(format_bytes(512), "512.00 B");
    assert_eq!(format_bytes(1024), "1024.00 B");
    assert_eq!(format_bytes(1025), "1.00 KiB");
    assert_eq!(format_bytes(1536), "1.50 KiB");
    assert_eq!(format_bytes(1_572_864), "1.50 MiB");
    assert_eq!(format_bytes(3_221_225_472), "3.00 GiB");
    assert_eq!(format_bytes(2_199_023_255_552), "2.00 TiB");
}

#[test]
fn counters_grow_monotonically() {
    let mut s = DownloadStatistics::new();
    assert_eq!(s.segments_total, 0);
    assert_eq!(s.segments_downloaded, 0);
    assert_eq!(s.bytes_downloaded, 0);

    s.record_discovered(3);
    assert_eq!(s.segments_total, 3);
    s.record_discovered(2);
    assert_eq!(s.segments_total, 3);
    s.record_discovered(5);
    assert_eq!(s.segments_total, 5);

    s.record_segment(1536);
    s.record_segment(0);
    assert_eq!(s.segments_downloaded, 2);
    assert_eq!(s.bytes_downloaded, 1536);
}

#[test]
fn progress_line_renders_counters() {
    let mut s = DownloadStatistics::new();
    s.record_discovered(3);
    s.record_segment(1536);
    assert_eq!(s.progress_line(), "Downloaded 1 of 3 segments (1.50 KiB)");
}
