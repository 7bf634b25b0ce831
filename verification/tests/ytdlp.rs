use online_media_ingest::models::{CreateTaskRequest, TargetFolderConfigSnapshot, TaskAuthInput, TaskMetadataInput};
use online_media_ingest::ytdlp::{
    OutputLine, audio_conversion_output, av_merge_roles, build_download_args, classify_output_line,
    cookie_file_content, cookie_file_path, download_failure_message, download_title,
    find_media_file, is_format_coded_media, is_media_file, is_mp4_file, is_ytdlp_artifact,
    merge_candidates, merged_output_path, needs_audio_conversion, should_download_audio_only,
};

fn metadata(title: Option<&str>) -> TaskMetadataInput {
    TaskMetadataInput {
        title: title.map(str::to_string),
        media_title: None,
        media_year: None,
        thumbnail_url: None,
        duration_seconds: None,
        uploader: None,
        artist: None,
        album_artist: None,
        album: None,
        track_title: None,
        track_number: None,
        disc_number: None,
        genre: None,
        release_date: None,
        source_id: None,
        external_id: None,
        source_site: None,
        generate_nfo: None,
        raw_metadata: None,
    }
}

fn task(content_type: &str, audio_only: Option<bool>, cookies: bool, title: Option<&str>) -> CreateTaskRequest {
    CreateTaskRequest {
        record_id: "r".into(),
        url: "https://www.example.com/v/1".into(),
        normalized_url: None,
        provider_id: None,
        auth: if cookies { Some(TaskAuthInput { cookie_header: Some("a=1".into()) }) } else { None },
        audio_only,
        audio_container: None,
        target_library_id: "lib".into(),
        target_folder_config_snapshot: TargetFolderConfigSnapshot {
            id: "f".into(),
            content_type: content_type.into(),
            download_path: "/d".into(),
            target_path: "/t".into(),
            link_mode: "copy".into(),
            organize_lang: None,
        },
        metadata: metadata(title),
    }
}

const TEMPLATE: &str = "download:[nex]%(progress.downloaded_bytes)s|%(progress.total_bytes)s|%(progress.total_bytes_estimate)s|%(progress.speed)s|%(progress.eta)s";

#[test]
fn audio_only_follows_the_task() {
    assert!(should_download_audio_only(&task("music", None, false, None)));
    assert!(!should_download_audio_only(&task("music", Some(false), false, None)));
    assert!(should_download_audio_only(&task("movie", Some(true), false, None)));
    assert!(!should_download_audio_only(&task("movie", None, false, None)));
}

#[test]
fn download_arguments_for_video_and_audio() {
    let video = task("movie", None, true, Some("My: Video"));
    assert_eq!(download_title(&video), "My: Video");
    assert_eq!(
        build_download_args(&video, "/s"),
        vec![
            "--no-playlist", "--no-warnings", "--newline", "--progress-template", TEMPLATE,
            "--write-info-json", "-o", "/s/My_ Video.%(ext)s", "--cookies", "/s/_cookies.txt",
            "-f", "bestvideo+bestaudio/best", "--merge-output-format", "mp4",
            "https://www.example.com/v/1",
        ]
    );
    let audio = task("music", None, false, None);
    assert_eq!(download_title(&audio), "%(title)s");
    assert_eq!(
        build_download_args(&audio, "/s"),
        vec![
            "--no-playlist", "--no-warnings", "--newline", "--progress-template", TEMPLATE,
            "--write-info-json", "-o", "/s/%(title)s.%(ext)s", "-f", "bestaudio/best",
            "https://www.example.com/v/1",
        ]
    );
}

#[test]
fn cookie_files() {
    assert_eq!(
        cookie_file_content("https://www.example.com/v/1", " a = 1 ; bad; b=2=3 "),
        "# Netscape HTTP Cookie File\n.www.example.com\tTRUE\t/\tFALSE\t0\ta\t1\n.www.example.com\tTRUE\t/\tFALSE\t0\tb\t2=3\n"
    );
    assert_eq!(
        cookie_file_content("nonsense", "k=v"),
        "# Netscape HTTP Cookie File\n..example.com\tTRUE\t/\tFALSE\t0\tk\tv\n"
    );
    assert_eq!(cookie_file_path("/s"), "/s/_cookies.txt");
}

#[test]
fn output_lines_and_failures() {
    assert!(matches!(classify_output_line("download:[nex]1|2|NA|3|4"), OutputLine::Progress(_)));
    assert!(matches!(classify_output_line("  [info] x  "), OutputLine::Text(t) if t == "[info] x"));
    assert!(matches!(classify_output_line("   "), OutputLine::Blank));
    assert_eq!(download_failure_message("  ERROR: no  ", &vec!["a".into()]), "yt-dlp download failed: ERROR: no");
    assert_eq!(
        download_failure_message("", &vec!["a".into(), "b".into()]),
        "yt-dlp download failed: a\nb"
    );
}

#[test]
fn staging_files() {
    assert!(is_ytdlp_artifact("/s/v.info.json"));
    assert!(is_ytdlp_artifact("/s/v.mp4.PART"));
    assert!(is_ytdlp_artifact("/s/v.ytdl"));
    assert!(is_ytdlp_artifact("/s/_cookies.txt"));
    assert!(!is_ytdlp_artifact("/s/v.mp4"));
    assert!(is_media_file("/s/v.MKV"));
    assert!(!is_media_file("/s/v.json"));
    let listing = vec!["/s/v.info.json".to_string(), "/s/v.webm".to_string(), "/s/v.mp4".to_string()];
    assert_eq!(find_media_file(&listing), Some(1));
    assert_eq!(find_media_file(&vec!["/s/a.txt".to_string()]), None);
    assert!(is_mp4_file("/s/v.M4V"));
    assert!(!is_mp4_file("/s/v.webm"));
}

#[test]
fn separate_streams_are_merged() {
    assert!(is_format_coded_media("/s/Title.f401.mp4"));
    assert!(is_format_coded_media("/s/Title.f251.webm"));
    assert!(!is_format_coded_media("/s/Title.mp4"));
    assert!(!is_format_coded_media("/s/Title.f251.txt"));
    let listing = vec!["/s/T.f401.mp4".to_string(), "/s/T.info.json".to_string(), "/s/T.f251.webm".to_string()];
    assert_eq!(merge_candidates(&listing), Some(("/s/T.f401.mp4".to_string(), "/s/T.f251.webm".to_string())));
    assert_eq!(merge_candidates(&vec!["/s/T.f401.mp4".to_string()]), None);
    assert_eq!(av_merge_roles(&vec![true, false]), Some((0, 1)));
    assert_eq!(av_merge_roles(&vec![false, true]), Some((1, 0)));
    assert_eq!(av_merge_roles(&vec![true, true]), None);
    assert_eq!(av_merge_roles(&vec![false, false]), None);
    assert_eq!(merged_output_path("/s", "/s/T.f401.mp4").as_deref(), Some("/s/T.mp4"));
    assert_eq!(merged_output_path("/s", "/s/T.f251.webm").as_deref(), Some("/s/T.mp4"));
}

#[test]
fn audio_conversion() {
    assert!(!needs_audio_conversion("/s/a.MP3", "mp3"));
    assert!(needs_audio_conversion("/s/a.webm", "mp3"));
    assert!(needs_audio_conversion("/s/a", "mp3"));
    assert_eq!(audio_conversion_output("/s/a.webm", "mp3"), "/s/a.mp3");
}
