use online_media_ingest::json::{JsonNumber, JsonValue};
use online_media_ingest::music::{
    MusicMetadata, build_audio_metadata_pairs, detect_ytdlp_content_type, extract_music_metadata,
    is_music_content_type, merge_content_types,
};

fn text(s: &str) -> JsonValue {
    JsonValue::Str(s.to_string())
}

fn number(n: u64) -> JsonValue {
    JsonValue::Number(JsonNumber { as_u64: Some(n), truncated: n, text: n.to_string() })
}

fn object(entries: Vec<(&str, JsonValue)>) -> JsonValue {
    JsonValue::Object(entries.into_iter().map(|(k, v)| (k.to_string(), v)).collect())
}

#[test]
fn detects_music_from_structured_metadata() {
    let metadata = object(vec![
        ("track", text("Song")),
        ("artist", text("Artist")),
        ("album", text("Album")),
        ("playlist_index", number(3)),
        ("release_date", text("20240319")),
    ]);

    let music = extract_music_metadata(Some(&metadata));
    assert_eq!(music.title.as_deref(), Some("Song"));
    assert_eq!(music.artist.as_deref(), Some("Artist"));
    assert_eq!(music.album.as_deref(), Some("Album"));
    assert_eq!(music.track_number, Some(3));
    assert_eq!(music.release_date.as_deref(), Some("2024-03-19"));
    assert_eq!(detect_ytdlp_content_type(Some(&metadata)), "music");
}

#[test]
fn does_not_detect_music_from_uploader_only() {
    let metadata = object(vec![
        ("title", text("2026年的Docker：发生了哪些变化？")),
        ("uploader", text("程序猿DD")),
        ("creator", text("程序猿DD")),
        ("tags", JsonValue::Array(vec![text("学习"), text("教程"), text("docker")])),
    ]);
    assert_eq!(detect_ytdlp_content_type(Some(&metadata)), "online_video");
}

#[test]
fn preserves_higher_priority_content_type() {
    assert_eq!(
        merge_content_types(Some("adult".into()), Some("online_video".into())),
        Some("adult".into())
    );
    assert_eq!(
        merge_content_types(Some("online_video".into()), Some("music".into())),
        Some("music".into())
    );
}

#[test]
fn merge_content_types_is_symmetric_in_rank() {
    assert_eq!(
        merge_content_types(Some("music".into()), Some("online_video".into())),
        Some("music".into())
    );
    assert_eq!(merge_content_types(None, Some("music".into())), Some("music".into()));
    assert_eq!(merge_content_types(Some("adult".into()), None), Some("adult".into()));
    assert_eq!(merge_content_types(None, None), None);
}

#[test]
fn music_content_type_ignores_ascii_case() {
    assert!(is_music_content_type("Music"));
    assert!(is_music_content_type("MUSIC"));
    assert!(!is_music_content_type("online_video"));
}

#[test]
fn merge_with_prefers_own_fields() {
    let own = MusicMetadata {
        title: Some("Own".into()),
        artist: None,
        album_artist: None,
        album: None,
        track_number: None,
        disc_number: Some(1),
        genre: None,
        release_date: None,
    };
    let fallback = MusicMetadata {
        title: Some("Other".into()),
        artist: Some("Band".into()),
        album_artist: None,
        album: Some("Record".into()),
        track_number: Some(7),
        disc_number: Some(2),
        genre: None,
        release_date: Some("2020-01-02".into()),
    };
    let merged = own.merge_with(&fallback);
    assert_eq!(merged.title.as_deref(), Some("Own"));
    assert_eq!(merged.artist.as_deref(), Some("Band"));
    assert_eq!(merged.album.as_deref(), Some("Record"));
    assert_eq!(merged.track_number, Some(7));
    assert_eq!(merged.disc_number, Some(1));
    assert!(merged.has_signal());
    assert_eq!(merged.year().as_deref(), Some("2020"));
}

#[test]
fn audio_metadata_pairs_use_fallbacks() {
    let music = MusicMetadata {
        title: None,
        artist: None,
        album_artist: None,
        album: Some("Record".into()),
        track_number: Some(4),
        disc_number: None,
        genre: Some("  ".into()),
        release_date: None,
    };
    let pairs = build_audio_metadata_pairs(&music, Some("Fallback Title"), Some("Uploader"));
    assert_eq!(
        pairs,
        vec![
            ("title".to_string(), "Fallback Title".to_string()),
            ("artist".to_string(), "Uploader".to_string()),
            ("album".to_string(), "Record".to_string()),
            ("track".to_string(), "4".to_string()),
        ]
    );
}

#[test]
fn default_music_metadata_is_empty() {
    let m = MusicMetadata::default();
    assert!(m.title.is_none() && m.artist.is_none() && m.album_artist.is_none() && m.album.is_none());
    assert!(m.track_number.is_none() && m.disc_number.is_none() && m.genre.is_none() && m.release_date.is_none());
    let c = m.clone();
    assert!(c.title.is_none());
}
