use online_media_ingest::tooling::{
    candidate_workspace_roots, display_path, ffmpeg_binary_candidates, needs_update,
    vendor_search_dirs, version_from_output, ytdlp_binary_candidates, ytdlp_binary_paths_at,
    ytdlp_install_dir, ytdlp_install_paths, ytdlp_release_asset_name, ytdlp_vendor_dirs,
};

#[test]
fn program_names() {
    assert_eq!(ffmpeg_binary_candidates(false), vec!["ffmpeg"]);
    assert_eq!(ffmpeg_binary_candidates(true), vec!["ffmpeg.exe"]);
    assert_eq!(ytdlp_binary_candidates(false), vec!["yt-dlp"]);
    assert_eq!(ytdlp_binary_candidates(true), vec!["yt-dlp.exe"]);
}

#[test]
fn search_directories() {
    assert_eq!(vendor_search_dirs(Some("/data")), vec!["bin/ffmpeg", "/data/vendors/ffmpeg"]);
    assert_eq!(vendor_search_dirs(None), vec!["bin/ffmpeg", "data/vendors/ffmpeg", ".data/vendors/ffmpeg"]);
    assert_eq!(ytdlp_vendor_dirs(Some("/d")), vec!["bin/yt-dlp/current/bin", "bin/yt-dlp", "/d/vendors/yt-dlp"]);
    assert_eq!(ytdlp_vendor_dirs(None).len(), 4);
    assert_eq!(ytdlp_binary_paths_at("/opt/ytdlp", false), vec!["/opt/ytdlp/yt-dlp", "/opt/ytdlp/current/bin/yt-dlp"]);
}

#[test]
fn workspace_roots_are_unique() {
    let ancestors = vec!["/a/b".to_string(), "/a".to_string(), "/".to_string()];
    assert_eq!(candidate_workspace_roots(Some("/a".into()), &ancestors), vec!["/a", "/a/b", "/"]);
    assert_eq!(candidate_workspace_roots(None, &ancestors), vec!["/a/b", "/a", "/"]);
    let roots = vec!["/w".to_string()];
    assert_eq!(ytdlp_install_dir(&roots).as_deref(), Some("/w/bin/yt-dlp"));
    assert_eq!(ytdlp_install_dir(&vec![]), None);
}

#[test]
fn versions_and_assets() {
    assert_eq!(version_from_output(" 2026.03.17\n").as_deref(), Some("2026.03.17"));
    assert_eq!(version_from_output("  \n"), None);
    assert!(needs_update(&Some("1".into()), &Some("2".into())));
    assert!(!needs_update(&Some("2".into()), &Some("2".into())));
    assert!(!needs_update(&None, &Some("2".into())));
    assert_eq!(ytdlp_release_asset_name("linux", "x86_64"), Some("yt-dlp_linux"));
    assert_eq!(ytdlp_release_asset_name("linux", "aarch64"), Some("yt-dlp_linux_aarch64"));
    assert_eq!(ytdlp_release_asset_name("macos", "aarch64"), Some("yt-dlp_macos"));
    assert_eq!(ytdlp_release_asset_name("freebsd", "x86_64"), None);
    assert_eq!(ytdlp_install_paths("/i", false), ("/i/yt-dlp".to_string(), "/i/.yt-dlp.tmp".to_string()));
    assert_eq!(display_path("/x/y"), "/x/y");
}
