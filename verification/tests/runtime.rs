use online_media_ingest::json::{JsonNumber, JsonValue};
use online_media_ingest::models::{
    AnalyzeOnlineMediaResponse, BatchCreateTasksRequest, BatchTaskItem, CreateTaskRequest, OutputFile,
    TargetFolderConfigSnapshot, TaskAuthInput, TaskMetadataInput,
};
use online_media_ingest::music::MusicMetadata;
use online_media_ingest::runtime::{
    TaskNext, TaskStep, batch_task_requests, build_download_workspace_dir, build_import_dir_name,
    build_manifest, build_music_output_name, build_music_target_dir, build_online_media_nfo_content,
    build_source_id_dir_name, build_source_site_dir_name, escape_xml, import_destination,
    is_music_request, metadata_release_date, merged_music_metadata, next_after, plan_import_target,
    sanitize_path_component, should_emit_sidecar_nfo, should_generate_nfo, should_rename_music_output,
    sidecar_nfo_paths, sort_output_files, stage_before, with_record_id_suffix, workspace_error,
    xml_tag, xml_tag_number,
};

fn metadata() -> TaskMetadataInput {
    TaskMetadataInput {
        title: None,
        media_title: None,
        media_year: None,
        thumbnail_url: None,
        duration_seconds: None,
        uploader: None,
        artist: None,
        album_artist: None,
        album: None,
        track_title: None,
        track_number: None,
        disc_number: None,
        genre: None,
        release_date: None,
        source_id: None,
        external_id: None,
        source_site: None,
        generate_nfo: None,
        raw_metadata: None,
    }
}

fn snapshot(content_type: &str) -> TargetFolderConfigSnapshot {
    TargetFolderConfigSnapshot {
        id: "folder".into(),
        content_type: content_type.into(),
        download_path: "/downloads".into(),
        target_path: "/library".into(),
        link_mode: "copy".into(),
        organize_lang: None,
    }
}

fn request(content_type: &str, metadata: TaskMetadataInput) -> CreateTaskRequest {
    CreateTaskRequest {
        record_id: "rec1".into(),
        url: "https://example.com/watch?v=1".into(),
        normalized_url: None,
        provider_id: None,
        auth: None,
        audio_only: None,
        audio_container: None,
        target_library_id: "lib".into(),
        target_folder_config_snapshot: snapshot(content_type),
        metadata,
    }
}

fn analysis() -> AnalyzeOnlineMediaResponse {
    AnalyzeOnlineMediaResponse {
        is_supported: true,
        provider: None,
        capability: None,
        source_site: None,
        source_id: None,
        normalized_url: None,
        title: None,
        description: None,
        thumbnail_url: None,
        duration_seconds: None,
        uploader: None,
        artist: None,
        album_artist: None,
        album: None,
        track_title: None,
        track_number: None,
        disc_number: None,
        genre: None,
        release_date: None,
        external_id: None,
        content_type: None,
        requires_auth: false,
        warnings: vec![],
        raw_metadata: None,
    }
}

fn music(title: Option<&str>, track: Option<u32>) -> MusicMetadata {
    MusicMetadata {
        title: title.map(str::to_string),
        artist: Some("Artist".into()),
        album_artist: None,
        album: Some("Album".into()),
        track_number: track,
        disc_number: None,
        genre: None,
        release_date: Some("2021-05-06".into()),
    }
}

#[test]
fn path_components_are_sanitised() {
    assert_eq!(sanitize_path_component(" a:b/c "), "a_b_c");
    assert_eq!(sanitize_path_component(" .. "), "online-media");
    assert_eq!(sanitize_path_component("a__b"), "a__b");
}

#[test]
fn import_dir_name_uses_title_and_external_id() {
    let mut m = metadata();
    m.title = Some("Title".into());
    m.media_title = Some("Media: Title".into());
    m.external_id = Some("id/1".into());
    assert_eq!(build_import_dir_name(&request("movie", m)), "Media_ Title [id_1]");
    assert_eq!(build_import_dir_name(&request("movie", metadata())), "rec1");
}

#[test]
fn source_dir_names() {
    let mut m = metadata();
    m.source_site = Some("bili:bili".into());
    m.external_id = Some("BV1".into());
    let r = request("online_video", m);
    assert_eq!(build_source_site_dir_name(&r).as_deref(), Some("bili_bili"));
    assert_eq!(build_source_id_dir_name(&r).as_deref(), Some("BV1"));
}

#[test]
fn music_names_and_folders() {
    assert!(should_rename_music_output("/s/track.FLAC"));
    assert!(!should_rename_music_output("/s/video.mp4"));
    assert_eq!(build_music_output_name("/s/a.m4a", &music(Some("Song"), Some(3))).as_deref(), Some("03. Song.m4a"));
    assert_eq!(build_music_output_name("/s/a.mp3", &music(Some("Song"), Some(12))).as_deref(), Some("12. Song.mp3"));
    assert_eq!(build_music_output_name("/s/a.mp3", &music(Some("Song"), None)).as_deref(), Some("Song.mp3"));
    assert_eq!(build_music_output_name("/s/a.mp3", &music(None, Some(1))), None);
    assert_eq!(build_music_output_name("/s/a.webm", &music(Some("Song"), Some(1))), None);
    assert_eq!(build_music_target_dir("/lib", "base", &music(Some("S"), None), None), "/lib/Artist/Album (2021)");
    let none = MusicMetadata {
        title: None,
        artist: None,
        album_artist: None,
        album: None,
        track_number: None,
        disc_number: None,
        genre: None,
        release_date: None,
    };
    assert_eq!(build_music_target_dir("/lib", "base", &none, Some("Uploader")), "/lib/Uploader");
    assert_eq!(build_music_target_dir("/lib", "base", &none, None), "/lib/base");
}

#[test]
fn record_id_suffix_keeps_extension() {
    assert_eq!(with_record_id_suffix("/t/video.mp4", "r:1"), "/t/video [r_1].mp4");
    assert_eq!(with_record_id_suffix("/t/README", "r1"), "/t/README [r1]");
}

#[test]
fn xml_escaping_and_tags() {
    assert_eq!(escape_xml("a & b < c > \"d\" 'e'"), "a &amp; b &lt; c &gt; &quot;d&quot; &apos;e&apos;");
    assert_eq!(xml_tag("title", Some("  x & y ")).as_deref(), Some("  <title>x &amp; y</title>"));
    assert_eq!(xml_tag("title", Some("   ")), None);
    assert_eq!(xml_tag("title", None), None);
    assert_eq!(xml_tag_number("runtime", Some(42)).as_deref(), Some("  <runtime>42</runtime>"));
    assert_eq!(xml_tag_number("runtime", None), None);
}

#[test]
fn release_date_from_upload_date() {
    let raw = JsonValue::Object(vec![("upload_date".into(), JsonValue::Str("20240102".into()))]);
    assert_eq!(metadata_release_date(Some(&raw)).as_deref(), Some("2024-01-02"));
    let short = JsonValue::Object(vec![("upload_date".into(), JsonValue::Str("2024012".into()))]);
    assert_eq!(metadata_release_date(Some(&short)), None);
    let letters = JsonValue::Object(vec![("upload_date".into(), JsonValue::Str("2024O102".into()))]);
    assert_eq!(metadata_release_date(Some(&letters)), None);
    assert_eq!(metadata_release_date(None), None);
}

#[test]
fn nfo_document_for_a_video() {
    let mut m = metadata();
    m.title = Some("Original".into());
    m.media_title = Some("Shown <Title>".into());
    m.external_id = Some("ext".into());
    m.raw_metadata = Some(JsonValue::Object(vec![
        ("description".into(), JsonValue::Str("About".into())),
        ("upload_date".into(), JsonValue::Str("20200304".into())),
    ]));
    let mut r = request("movie", m);
    r.provider_id = Some("bilibili".into());
    let mut a = analysis();
    a.source_id = Some("BV9".into());
    a.duration_seconds = Some(61);
    a.uploader = Some("Up".into());
    let nfo = build_online_media_nfo_content(&r, &a);
    let expected = [
        "<?xml version=\"1.0\" encoding=\"UTF-8\" standalone=\"yes\"?>",
        "<movie>",
        "  <title>Shown &lt;Title&gt;</title>",
        "  <originaltitle>Original</originaltitle>",
        "  <sorttitle>Shown &lt;Title&gt;</sorttitle>",
        "  <plot><![CDATA[About]]></plot>",
        "  <director>Up</director>",
        "  <runtime>61</runtime>",
        "  <year>2020</year>",
        "  <premiered>2020-03-04</premiered>",
        "  <uniqueid type=\"provider\" default=\"true\">bilibili</uniqueid>",
        "  <uniqueid type=\"bilibili\">BV9</uniqueid>",
        "  <uniqueid type=\"external\">ext</uniqueid>",
        "  <sourceurl>https://example.com/watch?v=1</sourceurl>",
        "</movie>",
    ];
    assert_eq!(nfo, format!("{}\n", expected.join("\n")));
}

#[test]
fn nfo_only_for_non_music_tasks() {
    assert!(should_generate_nfo(&request("movie", metadata())));
    let mut m = metadata();
    m.generate_nfo = Some(false);
    assert!(!should_generate_nfo(&request("movie", m)));
    assert!(!should_generate_nfo(&request("music", metadata())));
    assert!(is_music_request(&request("Music", metadata())));
    assert!(should_emit_sidecar_nfo("/t/video.mkv"));
    assert!(!should_emit_sidecar_nfo("/t/video.info.JSON"));
    assert!(!should_emit_sidecar_nfo("/t/noext"));
}

#[test]
fn sidecar_nfo_paths_follow_media_files() {
    let files = vec![
        OutputFile { path: "/t/a.mp4".into(), size_bytes: None, mime_type: None },
        OutputFile { path: "/t/a.nfo".into(), size_bytes: None, mime_type: None },
        OutputFile { path: "/t/b.webm".into(), size_bytes: None, mime_type: None },
    ];
    assert_eq!(sidecar_nfo_paths(&files, "/lib"), vec!["/lib/a.nfo".to_string(), "/lib/b.nfo".to_string()]);
}

#[test]
fn workspace_dir_and_error() {
    assert_eq!(build_download_workspace_dir("/staging", "rec", "task"), "/staging/rec/task");
    assert_eq!(workspace_error("/s", "denied"), "failed to create download workspace /s: denied");
}

#[test]
fn import_targets() {
    let plain = request("movie", metadata());
    let a = analysis();
    let t = plan_import_target(&plain, &a);
    assert_eq!(t.dir, "/library/rec1");
    assert_eq!(t.fallback_if_exists.as_deref(), Some("/library/rec1 [rec1]"));

    let mut m = metadata();
    m.source_site = Some("youtube".into());
    m.source_id = Some("abc".into());
    let video = request("online_video", m);
    let t = plan_import_target(&video, &a);
    assert_eq!(t.dir, "/library/youtube/abc");
    assert_eq!(t.fallback_if_exists, None);

    let song = request("music", metadata());
    let t = plan_import_target(&song, &a);
    assert_eq!(t.dir, "/library/rec1");
    assert_eq!(t.fallback_if_exists.as_deref(), Some("/library/rec1 [rec1]"));
    let mm = merged_music_metadata(&song, &a);
    assert_eq!(import_destination(&song, &mm, "/library/rec1", "/s/x.mp3").as_deref(), Some("/library/rec1/x.mp3"));
    assert_eq!(import_destination(&plain, &mm, "/library/rec1", "/s/x.mp4").as_deref(), Some("/library/rec1/x.mp4"));
}

#[test]
fn manifest_records_the_download() {
    let mut m = metadata();
    m.title = Some("T".into());
    m.track_title = Some("Track".into());
    let r = request("music", m);
    let mut a = analysis();
    a.warnings = vec!["w1".into()];
    a.external_id = Some("e".into());
    let files = vec![OutputFile { path: "/x".into(), size_bytes: Some(3), mime_type: None }];
    let manifest = build_manifest(&r, &a, files);
    assert_eq!(manifest.provider_id, "unknown");
    assert_eq!(manifest.title.as_deref(), Some("Track"));
    assert_eq!(manifest.track_title.as_deref(), Some("Track"));
    assert_eq!(manifest.original_title.as_deref(), Some("T"));
    assert_eq!(manifest.source_id.as_deref(), Some("e"));
    assert_eq!(manifest.content_type.as_deref(), Some("music"));
    assert_eq!(manifest.output_files.len(), 1);
    match manifest.raw_metadata {
        Some(JsonValue::Object(entries)) => {
            assert_eq!(entries.len(), 2);
            assert_eq!(entries[0].0, "warnings");
            assert_eq!(entries[1].0, "normalizedUrl");
            assert!(matches!(entries[1].1, JsonValue::Null));
        }
        other => panic!("unexpected raw metadata {:?}", other),
    }
}

#[test]
fn output_files_sort_by_path_stably() {
    let mut files = vec![
        OutputFile { path: "b".into(), size_bytes: Some(1), mime_type: None },
        OutputFile { path: "a".into(), size_bytes: Some(2), mime_type: None },
        OutputFile { path: "b".into(), size_bytes: Some(3), mime_type: None },
        OutputFile { path: "ab".into(), size_bytes: Some(4), mime_type: None },
    ];
    sort_output_files(&mut files);
    let order: Vec<(String, Option<u64>)> = files.into_iter().map(|f| (f.path, f.size_bytes)).collect();
    assert_eq!(
        order,
        vec![
            ("a".to_string(), Some(2)),
            ("ab".to_string(), Some(4)),
            ("b".to_string(), Some(1)),
            ("b".to_string(), Some(3)),
        ]
    );
}

#[test]
fn task_steps_run_in_order() {
    assert_eq!(stage_before(TaskStep::CreateWorkspace), Some(("preparing", 5)));
    assert_eq!(stage_before(TaskStep::Analyze), Some(("analyzing", 15)));
    assert_eq!(stage_before(TaskStep::Download), Some(("downloading", 0)));
    assert_eq!(stage_before(TaskStep::Import), Some(("importing", 92)));
    assert_eq!(stage_before(TaskStep::CollectOutputs), None);
}

#[test]
fn failures_end_the_task_except_the_thumbnail() {
    assert!(matches!(next_after(TaskStep::Download, Err("boom".into())), TaskNext::Fail(m) if m == "boom"));
    assert!(matches!(next_after(TaskStep::FetchThumbnail, Err("x".into())), TaskNext::Run(TaskStep::CollectOutputs)));
    assert!(matches!(next_after(TaskStep::WriteManifest, Ok(())), TaskNext::Complete));
    assert!(matches!(next_after(TaskStep::Analyze, Ok(())), TaskNext::Run(TaskStep::Download)));
}

#[test]
fn batch_items_become_tasks() {
    let mut m = metadata();
    m.raw_metadata = Some(JsonValue::Number(JsonNumber { as_u64: Some(1), truncated: 1, text: "1".into() }));
    let batch = BatchCreateTasksRequest {
        items: vec![BatchTaskItem {
            url: "https://x/1".into(),
            provider_id: Some("p".into()),
            metadata: m,
            record_id: "r9".into(),
            audio_only: Some(true),
            audio_container: Some("mp3".into()),
        }],
        target_library_id: "lib".into(),
        target_folder_config_snapshot: snapshot("music"),
        auth: Some(TaskAuthInput { cookie_header: Some("a=b".into()) }),
    };
    let tasks = batch_task_requests(&batch);
    assert_eq!(tasks.len(), 1);
    assert_eq!(tasks[0].record_id, "r9");
    assert_eq!(tasks[0].url, "https://x/1");
    assert_eq!(tasks[0].normalized_url, None);
    assert_eq!(tasks[0].auth.as_ref().and_then(|a| a.cookie_header.as_deref()), Some("a=b"));
    assert_eq!(tasks[0].target_folder_config_snapshot.content_type, "music");
}
