use online_media_ingest::models::{SubtitleDownloadRequest, SubtitleSearchRequest};
use online_media_ingest::subtitles::{
    ArchiveKind, AssrtAnchor, AssrtRow, archive_extension, archive_kind, assrt_cookie_jar_path,
    best_score_index, curl_file_args, filename_from_path, is_assrt_block_page, is_assrt_error_page,
    matches_preferred_language, normalize_format, normalize_language, parse_detail_download_files,
    plan_archive_download, score_subtitle_name, search_query, search_results, search_row_result,
    search_url, select_subtitle, temporary_archive_name, read_search_rows, search_page_results,
    detail_download_next, curl_failure_message, CurlRun, DetailAction, DetailState,
};

#[test]
fn languages_from_labels() {
    assert_eq!(normalize_language("简 体"), "zh-CN");
    assert_eq!(normalize_language("繁体"), "zh-TW");
    assert_eq!(normalize_language("双 语"), "zh");
    assert_eq!(normalize_language("英文"), "en");
    assert_eq!(normalize_language("日语"), "ja");
    assert_eq!(normalize_language("韓語"), "ko");
    assert_eq!(normalize_language("未知"), "zh");
}

#[test]
fn formats_from_labels_and_names() {
    assert_eq!(normalize_format(" SubRip "), Some("srt".to_string()));
    assert_eq!(normalize_format("Advanced SubStation Alpha"), Some("ass".to_string()));
    assert_eq!(normalize_format("SubStation Alpha"), Some("ssa".to_string()));
    assert_eq!(normalize_format("WebVTT"), Some("vtt".to_string()));
    assert_eq!(normalize_format("movie.chs.ASS"), Some("ass".to_string()));
    assert_eq!(normalize_format("movie.zip"), None);
    assert_eq!(normalize_format("   "), None);
}

#[test]
fn preferred_languages() {
    assert!(matches_preferred_language("en", None));
    assert!(matches_preferred_language("en", Some(&[])));
    let zh_cn = vec!["zh-CN".to_string()];
    assert!(matches_preferred_language("zh", Some(&zh_cn)));
    assert!(!matches_preferred_language("en", Some(&zh_cn)));
    let zh = vec!["zh".to_string()];
    assert!(matches_preferred_language("zh-TW", Some(&zh)));
    assert!(!matches_preferred_language("ja", Some(&zh)));
}

#[test]
fn subtitle_scores() {
    assert_eq!(score_subtitle_name("Movie.CHS.Eng.srt", "srt", "zh-CN"), 58);
    assert_eq!(score_subtitle_name("Movie.cht.ass", "ass", "zh-TW"), 46);
    assert_eq!(score_subtitle_name("Movie.英文.vtt", "vtt", "en"), 42);
    assert_eq!(score_subtitle_name("Movie.双语.ssa", "ssa", "fr"), 24);
    assert_eq!(score_subtitle_name("Movie.txt", "txt", "ko"), 0);
    let files = vec![
        ("a.chs.srt".to_string(), "srt".to_string()),
        ("b.eng.srt".to_string(), "srt".to_string()),
        ("c.chs.srt".to_string(), "srt".to_string()),
    ];
    assert_eq!(select_subtitle(&files, "zh-CN"), Some(2));
    assert_eq!(select_subtitle(&vec![], "zh-CN"), None);
    assert_eq!(best_score_index(&vec![1, 5, 5, 2]), Some(2));
}

#[test]
fn archive_names() {
    assert_eq!(filename_from_path("/download/1/-/sub.rar", "id"), "sub.rar");
    assert_eq!(filename_from_path("/download/", "id"), "id");
    assert_eq!(temporary_archive_name("sub.RAR"), "archive.RAR");
    assert_eq!(temporary_archive_name("noext"), "archive.bin");
    assert_eq!(temporary_archive_name("trailing."), "archive.bin");
    assert_eq!(archive_extension("Pack.ZIP").as_deref(), Some("zip"));
    assert_eq!(archive_extension("noext"), None);
    assert_eq!(archive_kind(true, "x.zip"), Ok(ArchiveKind::Rar));
    assert_eq!(archive_kind(false, "x.ZIP"), Ok(ArchiveKind::Zip));
    assert_eq!(archive_kind(false, "x.7z"), Ok(ArchiveKind::SevenZip));
    assert_eq!(archive_kind(false, "x.tar"), Err("暂不支持解压 tar 格式的 assrt 字幕包".to_string()));
    assert_eq!(archive_kind(false, "x"), Err("无法识别 assrt 字幕压缩包格式".to_string()));
}

#[test]
fn block_pages() {
    assert!(is_assrt_block_page(b"<?xml version"));
    assert!(is_assrt_block_page(b"<html><body>"));
    assert!(is_assrt_block_page(b"\xff\xfe .. /errpage/40x .."));
    assert!(!is_assrt_block_page(b"1\n00:00:01,000 --> 00:00:02,000\nHi"));
    assert!(is_assrt_error_page("<a href=\"/errpage/40x.html\">"));
    assert!(!is_assrt_error_page("<html>ok</html>"));
}

#[test]
fn detail_page_files() {
    let html = r#"<a onclick="onthefly(\"123\",\"1\",\" Movie.chs.srt \")">x</a> onthefly("123","2","Movie.nfo") onthefly("123","3","Movie.eng.ass")"#;
    let files = parse_detail_download_files(html, "https://assrt.net").unwrap();
    assert_eq!(files.len(), 1);
    assert_eq!(files[0].name, "Movie.eng.ass");
    assert_eq!(files[0].format, "ass");
    assert_eq!(files[0].url, "https://assrt.net/download/123/-/3/Movie.eng.ass");
    let plain = r#"onthefly("9","1","a b.srt")"#;
    let files = parse_detail_download_files(plain, "https://assrt.net").unwrap();
    assert_eq!(files[0].url, "https://assrt.net/download/9/-/1/a%20b.srt");
    assert!(parse_detail_download_files(plain, "not a url").is_err());
}

#[test]
fn session_paths_and_arguments() {
    assert_eq!(assrt_cookie_jar_path("/staging"), "/staging/assrt-subtitles/cookies.txt");
    assert_eq!(
        curl_file_args("UA", "/jar", "https://d", "https://f"),
        vec!["-sSL", "-A", "UA", "-H", "Accept: */*", "-b", "/jar", "-c", "/jar", "-e", "https://d", "https://f"]
    );
}

fn row(href: &str, spans: &[&str]) -> AssrtRow {
    AssrtRow {
        anchor: Some(AssrtAnchor { href: Some(href.into()), text: "\u{a0}Title\u{a0}".into(), title: Some(" Movie ".into()) }),
        span_texts: spans.iter().map(|s| s.to_string()).collect(),
        version_text: Some(" v1 ".into()),
        rating_label: Some("用户评分 4.5 分".into()),
        html: "<div onclick=\"location.href='/download/77/x.rar'\"></div>".into(),
    }
}

#[test]
fn search_rows_become_results() {
    let r = row("/xml/sub/123/77.xml", &["格式： SubRip", "语言： 简体", "下载次数： 12"]);
    let result = search_row_result(&r, "query", None).unwrap();
    assert_eq!(result.id, "77");
    assert_eq!(result.name, "Title");
    assert_eq!(result.language, "zh-CN");
    assert_eq!(result.language_name, "简体");
    assert_eq!(result.format, "srt");
    assert_eq!(result.provider, "assrt");
    assert_eq!(result.detail_path.as_deref(), Some("/xml/sub/123/77.xml"));
    assert_eq!(result.download_path.as_deref(), Some("/download/77/x.rar"));
    assert_eq!(result.download_count, Some(12));
    assert_eq!(result.rating.as_deref(), Some("4.5"));
    assert_eq!(result.movie_name.as_deref(), Some("Movie"));
    assert_eq!(result.release_group.as_deref(), Some("v1"));

    let english_only = vec!["en".to_string()];
    assert!(search_row_result(&r, "query", Some(&english_only)).is_none());
    let no_format = row("/xml/sub/123/77.xml", &["语言： 英文"]);
    assert!(search_row_result(&no_format, "q", None).is_none());
    let no_id = row("/xml/sub/abc.xml", &["格式： srt"]);
    assert!(search_row_result(&no_id, "q", None).is_none());
    let results = search_results(&vec![no_id, r, no_format], "query", None);
    assert_eq!(results.len(), 1);
}

#[test]
fn search_requests() {
    let empty = SubtitleSearchRequest { query: Some("   ".into()), imdb_id: None, tmdb_id: None, languages: None };
    assert_eq!(search_query(&empty), Err("请输入片名或文件名后再搜索 assrt 字幕".to_string()));
    let q = SubtitleSearchRequest { query: Some(" The Movie ".into()), imdb_id: None, tmdb_id: None, languages: None };
    assert_eq!(search_query(&q), Ok("The Movie".to_string()));
    assert_eq!(search_url("https://assrt.net", "a b&c"), "https://assrt.net/sub/?searchword=a+b%26c&sort=rank&no_redir=1");
}

#[test]
fn archive_download_plans() {
    let request = SubtitleDownloadRequest {
        subtitle_id: "77".into(),
        detail_path: None,
        download_path: Some("/download/77/Movie.srt".into()),
        language: "zh-CN".into(),
        format: "srt".into(),
        name: None,
    };
    let plan = plan_archive_download(&request).unwrap();
    assert_eq!(plan.file_name, "Movie.srt");
    assert_eq!(plan.subtitle_name, "Movie.srt");
    assert_eq!(plan.format.as_deref(), Some("srt"));
    let missing = SubtitleDownloadRequest { download_path: None, ..request };
    assert_eq!(plan_archive_download(&missing).err().as_deref(), Some("assrt 搜索结果缺少下载地址"));
}

const SEARCH_PAGE: &str = r#"<html><body><div class="resultcard">
<div class="subitem"><a class="introtitle" href="/xml/sub/1/501.xml" title=" Film ">Film&nbsp;字幕</a>
<div id="meta_top"><b>WEB-DL</b></div>
<div id="sublist_div"><span>格式：SubRip</span><span>语言：简体</span><span>下载次数： 42</span></div>
<img alt="用户评分 4.5" src="r.png">
<a onclick="location.href='/download/501/film.zip'">下载</a></div>
<div class="subitem"><a class="introtitle" href="/xml/sub/1/502.xml">Other</a>
<div id="sublist_div"><span>格式：未知</span></div></div>
</div></body></html>"#;

#[test]
fn search_page_rows_are_read() {
    let rows = read_search_rows(SEARCH_PAGE).unwrap();
    assert_eq!(rows.len(), 2);
    let first = rows[0].anchor.as_ref().unwrap();
    assert_eq!(first.href.as_deref(), Some("/xml/sub/1/501.xml"));
    assert_eq!(first.text, "Film\u{a0}字幕");
    assert_eq!(first.title.as_deref(), Some(" Film "));
    assert_eq!(rows[0].span_texts, vec!["格式：SubRip", "语言：简体", "下载次数： 42"]);
    assert_eq!(rows[0].version_text.as_deref(), Some("WEB-DL"));
    assert_eq!(rows[0].rating_label.as_deref(), Some("用户评分 4.5"));
    assert!(rows[0].html.contains("location.href='/download/501/film.zip'"));
    assert_eq!(rows[1].version_text, None);
    assert_eq!(rows[1].rating_label, None);
}

#[test]
fn search_page_gives_results() {
    let results = search_page_results(SEARCH_PAGE, "film", None).unwrap();
    assert_eq!(results.len(), 1);
    assert_eq!(results[0].id, "501");
    assert_eq!(results[0].name, "Film 字幕");
    assert_eq!(results[0].format, "srt");
    assert_eq!(results[0].language, "zh-CN");
    assert_eq!(results[0].download_count, Some(42));
    assert_eq!(results[0].rating.as_deref(), Some("4.5"));
    assert_eq!(results[0].download_path.as_deref(), Some("/download/501/film.zip"));
    assert_eq!(results[0].movie_name.as_deref(), Some("Film"));
    assert_eq!(results[0].release_group.as_deref(), Some("WEB-DL"));
    assert!(search_page_results("<html></html>", "film", None).unwrap().is_empty());
}

#[test]
fn detail_download_steps() {
    let page = DetailState::DetailPage { retried: false };
    assert!(matches!(detail_download_next(page, false, ""), DetailAction::Proceed));
    assert!(matches!(
        detail_download_next(page, true, ""),
        DetailAction::Retry(DetailState::DetailPage { retried: true })
    ));
    match detail_download_next(DetailState::DetailPage { retried: true }, true, "") {
        DetailAction::Fail(e) => assert_eq!(e, "assrt 详情页请求失败: 493"),
        other => panic!("unexpected {other:?}"),
    }
    let file = DetailState::SubtitleFile { retried: false };
    assert!(matches!(
        detail_download_next(file, true, "https://f"),
        DetailAction::Retry(DetailState::SubtitleFile { retried: true })
    ));
    match detail_download_next(DetailState::SubtitleFile { retried: true }, true, "https://f/a.srt") {
        DetailAction::Fail(e) => assert_eq!(e, "assrt 单文件下载失败: 493 (https://f/a.srt)"),
        other => panic!("unexpected {other:?}"),
    }
}

#[test]
fn curl_failure_texts() {
    assert_eq!(curl_failure_message(CurlRun::Warmup, true, "boom"), "curl 预热 assrt 会话失败: boom");
    assert_eq!(curl_failure_message(CurlRun::DetailPage, false, "no curl"), "调用 curl 获取 assrt 详情页失败: no curl");
    assert_eq!(
        curl_failure_message(CurlRun::SubtitleFile { retried: true }, true, "x"),
        "curl 重试下载 assrt 字幕失败: x"
    );
    assert_eq!(
        curl_failure_message(CurlRun::SubtitleFile { retried: false }, false, "y"),
        "调用 curl 下载 assrt 字幕失败: y"
    );
}
