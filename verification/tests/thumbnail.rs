use online_media_ingest::models::OutputFile;
use online_media_ingest::thumbnail::{
    image_extension_from_content_type, image_extension_from_url, image_mime_type_from_extension,
    is_image_extension, is_media_sidecar_target, normalize_extension, resolve_thumbnail_extension,
    thumbnail_artifact_path, thumbnail_sidecar_paths,
};

#[test]
fn prefers_extension_from_content_type() {
    assert_eq!(
        resolve_thumbnail_extension(Some("image/png; charset=binary"), "https://example.com/poster.jpg"),
        "png"
    );
}

#[test]
fn falls_back_to_url_extension() {
    assert_eq!(resolve_thumbnail_extension(None, "https://example.com/poster.jpeg?size=large"), "jpg");
}

#[test]
fn excludes_image_files_from_media_sidecars() {
    assert!(!is_media_sidecar_target("video.jpg"));
    assert!(!is_media_sidecar_target("video.nfo"));
    assert!(is_media_sidecar_target("video.mp4"));
    assert!(is_image_extension("jpeg"));
}

#[test]
fn thumbnail_extension_defaults_to_jpg() {
    assert_eq!(resolve_thumbnail_extension(Some("text/html"), "https://example.com/poster"), "jpg");
    assert_eq!(resolve_thumbnail_extension(None, "not a url"), "jpg");
    assert_eq!(image_extension_from_content_type(" IMAGE/WEBP "), Some("webp"));
    assert_eq!(image_extension_from_content_type("video/mp4"), None);
    assert_eq!(image_extension_from_url("https://example.com/a/b.GIF"), Some("gif".to_string()));
    assert_eq!(image_extension_from_url("https://example.com/a/b.txt"), None);
}

#[test]
fn image_types_and_names() {
    assert_eq!(normalize_extension("JPEG"), "jpg");
    assert_eq!(normalize_extension("Png"), "png");
    assert_eq!(image_mime_type_from_extension("png"), "image/png");
    assert_eq!(image_mime_type_from_extension("unknown"), "image/jpeg");
    assert_eq!(image_mime_type_from_extension("JPEG"), "image/jpeg");
    assert_eq!(thumbnail_artifact_path("/staging", "png"), "/staging/.artifacts/thumbnail.png");
}

#[test]
fn thumbnail_copies_skip_duplicates_and_images() {
    let files = vec![
        OutputFile { path: "/t/video.mp4".into(), size_bytes: Some(1), mime_type: None },
        OutputFile { path: "/t/video.mkv".into(), size_bytes: Some(1), mime_type: None },
        OutputFile { path: "/t/poster.jpg".into(), size_bytes: Some(1), mime_type: None },
        OutputFile { path: "/t/video.info.json".into(), size_bytes: Some(1), mime_type: None },
    ];
    assert_eq!(thumbnail_sidecar_paths(&files, "/target", "png"), vec!["/target/video.png".to_string()]);
}
