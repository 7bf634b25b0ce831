use online_media_ingest::catalog::ProviderCatalogEntry;
use online_media_ingest::json::{JsonNumber, JsonValue};
use online_media_ingest::models::AnalyzeOnlineMediaRequest;
use online_media_ingest::providers::{
    analyze_url, collection_args, detect_provider, extract_bilibili_bv_from_url,
    extract_source_id_from_url, extract_youtube_video_id_from_url, is_stream_url,
    resolve_collection_response,
};
use online_media_ingest::ytdlp::analyze_result_from_info;

fn entry(id: &str, suffixes: &[&str], requires_auth: bool) -> ProviderCatalogEntry {
    ProviderCatalogEntry {
        id: id.into(),
        name: id.into(),
        display_name: id.to_uppercase(),
        source_site: format!("{id}-site"),
        supported_content_types: vec!["online_video".into()],
        default_content_type: if id == "stream" { "stream".into() } else { "online_video".into() },
        requires_auth,
        auth_configurable: false,
        host_suffixes: suffixes.iter().map(|s| s.to_string()).collect(),
        host_equals: vec![],
        extractor_keywords: vec![],
        source_site_aliases: vec![],
        common_source_sites: vec![],
    }
}

fn catalog() -> Vec<ProviderCatalogEntry> {
    vec![
        entry("youtube", &["youtube.com", "youtu.be"], false),
        entry("bilibili", &["bilibili.com"], true),
        entry("stream", &[], false),
    ]
}

fn text(s: &str) -> JsonValue {
    JsonValue::Str(s.to_string())
}

fn object(entries: Vec<(&str, JsonValue)>) -> JsonValue {
    JsonValue::Object(entries.into_iter().map(|(k, v)| (k.to_string(), v)).collect())
}

#[test]
fn url_ids() {
    assert_eq!(
        extract_bilibili_bv_from_url("https://www.bilibili.com/video/BV1xx411c7mD/?p=1").as_deref(),
        Some("BV1xx411c7mD")
    );
    assert_eq!(extract_bilibili_bv_from_url("https://www.bilibili.com/video/av170001"), None);
    assert_eq!(extract_youtube_video_id_from_url("https://youtu.be/abc123").as_deref(), Some("abc123"));
    assert_eq!(
        extract_youtube_video_id_from_url("https://www.youtube.com/watch?list=x&v=dQw4w9WgXcQ").as_deref(),
        Some("dQw4w9WgXcQ")
    );
    assert_eq!(extract_youtube_video_id_from_url("not a url"), None);
    assert_eq!(extract_source_id_from_url("https://youtu.be/q", "youtube").as_deref(), Some("q"));
    assert_eq!(extract_source_id_from_url("https://youtu.be/q", "vimeo"), None);
}

#[test]
fn stream_urls() {
    assert!(is_stream_url("https://cdn.example.com/live/INDEX.M3U8"));
    assert!(is_stream_url("https://cdn.example.com/a/manifest.mpd?token=1"));
    assert!(!is_stream_url("https://cdn.example.com/a/video.mp4"));
    assert!(!is_stream_url("relative/path.m3u8"));
}

#[test]
fn providers_are_detected_by_host_and_stream() {
    let cat = catalog();
    let m = detect_provider(&cat, "https://WWW.YouTube.com/watch?v=abc").unwrap();
    assert_eq!(m.provider.id, "youtube");
    assert_eq!(m.source_id.as_deref(), Some("abc"));
    assert_eq!(m.external_id.as_deref(), Some("abc"));
    assert_eq!(m.content_type, "online_video");
    let s = detect_provider(&cat, "https://cdn.example.com/x.m3u8").unwrap();
    assert_eq!(s.provider.id, "stream");
    assert_eq!(s.content_type, "stream");
    assert!(detect_provider(&cat, "https://example.org/page").is_none());
}

fn input(url: &str) -> AnalyzeOnlineMediaRequest {
    AnalyzeOnlineMediaRequest { url: url.into(), target_library_id: None, preferred_provider: None }
}

#[test]
fn analysis_without_ytdlp_warns() {
    let cat = catalog();
    let r = analyze_url(&cat, &input("https://www.bilibili.com/video/BV1ab"), None);
    assert!(r.is_supported);
    assert!(r.requires_auth);
    assert_eq!(r.source_id.as_deref(), Some("BV1ab"));
    assert_eq!(r.capability.map(|c| c.can_download), Some(false));
    assert_eq!(r.warnings, vec!["yt-dlp binary not found — download disabled".to_string()]);

    let u = analyze_url(&cat, &input("https://example.org/x"), None);
    assert!(!u.is_supported);
    assert_eq!(u.normalized_url.as_deref(), Some("https://example.org/x"));
    assert_eq!(u.warnings.len(), 2);
    assert_eq!(u.warnings[1], "unsupported URL");
}

#[test]
fn analysis_with_ytdlp_result() {
    let cat = catalog();
    let info = object(vec![
        ("title", text("A Title")),
        ("id", text("vid")),
        ("webpage_url", text("https://example.org/canonical")),
        ("channel", text("Chan")),
        ("duration", JsonValue::Number(JsonNumber { as_u64: None, truncated: 12, text: "12.7".into() })),
    ]);
    let result = analyze_result_from_info("https://example.org/x", info);
    assert_eq!(result.uploader.as_deref(), Some("Chan"));
    assert_eq!(result.duration_seconds, Some(12));
    let r = analyze_url(&cat, &input("https://example.org/x"), Some(Ok(result)));
    assert!(r.is_supported);
    assert_eq!(r.provider.as_ref().map(|p| p.id.as_str()), Some("ytdlp"));
    assert_eq!(r.normalized_url.as_deref(), Some("https://example.org/canonical"));
    assert_eq!(r.title.as_deref(), Some("A Title"));
    assert_eq!(r.source_id.as_deref(), Some("vid"));
    assert_eq!(r.content_type.as_deref(), Some("online_video"));
    assert!(r.warnings.is_empty());

    let failed = analyze_url(&cat, &input("https://youtu.be/z"), Some(Err("boom".into())));
    assert!(failed.is_supported);
    assert_eq!(failed.warnings, vec!["boom".to_string()]);
}

#[test]
fn collections_from_flat_playlist_lines() {
    let cat = catalog();
    let lines = vec![
        Some(object(vec![
            ("playlist_title", text("My List")),
            ("url", text("https://youtu.be/1")),
            ("title", text("One")),
            ("duration", JsonValue::Number(JsonNumber { as_u64: Some(30), truncated: 30, text: "30".into() })),
            ("thumbnails", JsonValue::Array(vec![
                object(vec![("url", text("small"))]),
                object(vec![("url", text("large"))]),
            ])),
        ])),
        None,
        Some(object(vec![("title", text("no url"))])),
        Some(object(vec![("webpage_url", text("https://youtu.be/4")), ("id", text("4"))])),
    ];
    let r = resolve_collection_response(&cat, "https://www.youtube.com/playlist?list=L", "x", "", &lines).unwrap();
    assert_eq!(r.provider_id, "youtube");
    assert_eq!(r.collection_title.as_deref(), Some("My List"));
    assert_eq!(r.total_items, Some(2));
    assert_eq!(r.items[0].thumbnail_url.as_deref(), Some("large"));
    assert_eq!(r.items[0].duration_seconds, Some(30));
    assert_eq!(r.items[1].index, 3);
    assert_eq!(r.items[1].source_id.as_deref(), Some("4"));

    let e = resolve_collection_response(&cat, "https://example.org/l", "  \n", "oops", &vec![]).unwrap_err();
    assert_eq!(e, "yt-dlp returned no results: oops");
    let other = resolve_collection_response(&cat, "https://example.org/l", "{}", "", &vec![]).unwrap();
    assert_eq!(other.provider_id, "ytdlp");
}

#[test]
fn collection_command_line() {
    assert_eq!(
        collection_args("https://x/l", Some("/tmp/c.txt"), Some(5)),
        vec!["--flat-playlist", "--dump-json", "--no-warnings", "--ignore-errors", "--cookies", "/tmp/c.txt", "--playlist-end", "5", "https://x/l"]
    );
    assert_eq!(collection_args("u", None, None), vec!["--flat-playlist", "--dump-json", "--no-warnings", "--ignore-errors", "u"]);
}
