use online_media_ingest::progress::{DownloadProgress, parse_progress_line, parse_progress_number};

#[test]
fn parses_progress_with_total_bytes() {
    let progress = parse_progress_line("download:[nex]1048576|2097152|NA|524288|12");
    assert_eq!(
        progress,
        Some(DownloadProgress {
            downloaded_bytes: Some(1_048_576),
            total_bytes: Some(2_097_152),
            speed_bytes: Some(524_288),
            eta_seconds: Some(12),
        })
    );
}

#[test]
fn parses_progress_with_estimated_total_bytes() {
    let progress = parse_progress_line("download:[nex]1048576|NA|3145728|262144|8");
    assert_eq!(
        progress,
        Some(DownloadProgress {
            downloaded_bytes: Some(1_048_576),
            total_bytes: Some(3_145_728),
            speed_bytes: Some(262_144),
            eta_seconds: Some(8),
        })
    );
}

#[test]
fn progress_line_without_marker_is_not_progress() {
    assert_eq!(parse_progress_line("[download] Destination: video.mp4"), None);
    assert_eq!(parse_progress_line("download:[nex]1|2|3|4"), None);
}

#[test]
fn progress_numbers_round_and_reject_missing_values() {
    assert_eq!(parse_progress_number(" 12.5 "), Some(13));
    assert_eq!(parse_progress_number("12.49"), Some(12));
    assert_eq!(parse_progress_number("1e3"), Some(1000));
    assert_eq!(parse_progress_number("NA"), None);
    assert_eq!(parse_progress_number("na"), None);
    assert_eq!(parse_progress_number("None"), None);
    assert_eq!(parse_progress_number(""), None);
    assert_eq!(parse_progress_number("-3"), None);
    assert_eq!(parse_progress_number("abc"), None);
}
