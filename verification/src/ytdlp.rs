//! Working with yt-dlp: what its metadata says about a URL, the command line of a
//! download, the cookie file it reads, what its output lines mean, and which files it
//! leaves behind.
use vstd::prelude::*;
use crate::format::{filename_cut_ok, sanitize_filename, sanitized_filename};
use crate::json::{JsonValue, JsonView, json_get, json_str_field, str_field};
use crate::models::CreateTaskRequest;
use crate::music::{
    MusicMetadataView, audio_pairs, build_audio_metadata_pairs, detect_ytdlp_content_type,
    detected_content_type, extract_music_metadata, is_music, is_music_content_type, merged,
    music_metadata_from_task, music_metadata_of, or_else, pairs_view, raw_sliceable,
};
use crate::paths::{
    extension_of, file_name_of, join_path, path_eq, path_extension, path_file_name, path_join,
    paths_equal, path_with_extension, separator_free, with_extension,
};
use crate::progress::{DownloadProgress, parse_progress_line, progress_line};
use crate::regexes::{regex_is_match, regex_match, regex_replace_first, regex_replaced};
use crate::text::{
    chars_of, contains_seq, eq_ignore_case, eq_ignore_case_chars, index_of, index_of_char,
    lower_seq, lower_string, one_of, opt_view, push_all, push_str, split_chars, split_on,
    string_of, strings_view, strs_view, sub_chars, trim, trim_chars, vecs_view,
};
use crate::urls::{url_host, url_host_of};

verus! {

/// What yt-dlp's metadata says about a URL.
#[derive(Debug)]
pub struct AnalyzeResult {
    pub normalized_url: String,
    pub source_id: Option<String>,
    pub external_id: Option<String>,
    pub title: Option<String>,
    pub description: Option<String>,
    pub thumbnail_url: Option<String>,
    pub duration_seconds: Option<u64>,
    pub uploader: Option<String>,
    pub artist: Option<String>,
    pub album_artist: Option<String>,
    pub album: Option<String>,
    pub track_title: Option<String>,
    pub track_number: Option<u32>,
    pub disc_number: Option<u32>,
    pub genre: Option<String>,
    pub release_date: Option<String>,
    pub content_type: Option<String>,
    pub requires_auth: Option<bool>,
    pub warnings: Vec<String>,
    pub raw_metadata: Option<JsonValue>,
}

/// Whether a task downloads audio only: as it asks, else when it imports into music.
pub open spec fn audio_only_download(r: CreateTaskRequest) -> bool {
    match r.audio_only {
        Some(b) => b,
        None => is_music(r.target_folder_config_snapshot.content_type@),
    }
}

/// Whether a task downloads audio only; see [`audio_only_download`].
pub fn should_download_audio_only(request: &CreateTaskRequest) -> (r: bool)
    ensures
        r == audio_only_download(*request),
{
    match request.audio_only {
        Some(b) => b,
        None => is_music_content_type(request.target_folder_config_snapshot.content_type.as_str()),
    }
}

/// The duration yt-dlp reports: the `duration` number taken as a float and cast to an
/// integer.
pub open spec fn info_duration(info: JsonValue) -> Option<u64> {
    match json_get(info, "duration"@) {
        Some(JsonValue::Number(n)) => Some(n.truncated),
        _ => None,
    }
}

fn opt_owned(o: Option<&str>) -> (r: Option<String>)
    ensures
        opt_view(r) == match o {
            Some(s) => Some(s@),
            None => None,
        },
{
    match o {
        Some(s) => Some(String::from_str(s)),
        None => None,
    }
}

/// What yt-dlp's `--dump-json` metadata of `url` says: its ids, title, description,
/// thumbnail, duration, uploader (else channel), page URL (else `url`), the music
/// metadata and the detected content type, with the metadata itself kept.
pub fn analyze_result_from_info(url: &str, info: JsonValue) -> (r: AnalyzeResult)
    requires
        raw_sliceable(Some(info)),
    ensures
        r.normalized_url@ == (match json_str_field(info, "webpage_url"@) {
            Some(u) => u,
            None => url@,
        }),
        opt_view(r.source_id) == json_str_field(info, "id"@),
        opt_view(r.external_id) == json_str_field(info, "display_id"@),
        opt_view(r.title) == json_str_field(info, "title"@),
        opt_view(r.description) == json_str_field(info, "description"@),
        opt_view(r.thumbnail_url) == json_str_field(info, "thumbnail"@),
        r.duration_seconds == info_duration(info),
        opt_view(r.uploader) == or_else(json_str_field(info, "uploader"@), json_str_field(info, "channel"@)),
        opt_view(r.artist) == music_metadata_of(Some(info)).artist,
        opt_view(r.album_artist) == music_metadata_of(Some(info)).album_artist,
        opt_view(r.album) == music_metadata_of(Some(info)).album,
        opt_view(r.track_title) == music_metadata_of(Some(info)).title,
        r.track_number == music_metadata_of(Some(info)).track_number,
        r.disc_number == music_metadata_of(Some(info)).disc_number,
        opt_view(r.genre) == music_metadata_of(Some(info)).genre,
        opt_view(r.release_date) == music_metadata_of(Some(info)).release_date,
        opt_view(r.content_type) == Some(detected_content_type(Some(info))),
        r.requires_auth is None,
        r.warnings@.len() == 0,
        r.raw_metadata == Some(info),
{
    let title = opt_owned(str_field(&info, "title"));
    let description = opt_owned(str_field(&info, "description"));
    let source_id = opt_owned(str_field(&info, "id"));
    let thumbnail = opt_owned(str_field(&info, "thumbnail"));
    let uploader = match str_field(&info, "uploader") {
        Some(u) => Some(String::from_str(u)),
        None => opt_owned(str_field(&info, "channel")),
    };
    let duration = match info.get("duration") {
        Some(JsonValue::Number(n)) => Some(n.truncated),
        _ => None,
    };
    let webpage_url = match str_field(&info, "webpage_url") {
        Some(u) => String::from_str(u),
        None => String::from_str(url),
    };
    let external_id = opt_owned(str_field(&info, "display_id"));
    let music = extract_music_metadata(Some(&info));
    let content_type = detect_ytdlp_content_type(Some(&info));
    AnalyzeResult {
        normalized_url: webpage_url,
        source_id,
        external_id,
        title,
        description,
        thumbnail_url: thumbnail,
        duration_seconds: duration,
        uploader,
        artist: music.artist,
        album_artist: music.album_artist,
        album: music.album,
        track_title: music.title,
        track_number: music.track_number,
        disc_number: music.disc_number,
        genre: music.genre,
        release_date: music.release_date,
        content_type: Some(content_type),
        requires_auth: None,
        warnings: Vec::new(),
        raw_metadata: Some(info),
    }
}

/// The title a download's file is named after: the task's title, else its media
/// title, else yt-dlp's own `%(title)s`.
pub open spec fn download_title_of(r: CreateTaskRequest) -> Seq<char> {
    match or_else(opt_view(r.metadata.title), opt_view(r.metadata.media_title)) {
        Some(t) => t,
        None => "%(title)s"@,
    }
}

/// The title a download's file is named after; see [`download_title_of`].
pub fn download_title(request: &CreateTaskRequest) -> (r: &str)
    ensures
        r@ == download_title_of(*request),
{
    match &request.metadata.title {
        Some(t) => t.as_str(),
        None => match &request.metadata.media_title {
            Some(t) => t.as_str(),
            None => "%(title)s",
        },
    }
}

/// The progress template yt-dlp is given: the fields of a progress line after `[nex]`.
pub open spec fn progress_template() -> Seq<char> {
    "download:[nex]%(progress.downloaded_bytes)s|%(progress.total_bytes)s|%(progress.total_bytes_estimate)s|%(progress.speed)s|%(progress.eta)s"@
}

/// The command line of a download, after the program name.
pub open spec fn download_args_of(r: CreateTaskRequest, staging_dir: Seq<char>) -> Seq<Seq<char>> {
    let template = path_join(staging_dir, sanitized_filename(download_title_of(r)) + ".%(ext)s"@);
    let head = seq![
        "--no-playlist"@,
        "--no-warnings"@,
        "--newline"@,
        "--progress-template"@,
        progress_template(),
        "--write-info-json"@,
        "-o"@,
        template,
    ];
    let cookies = match r.auth {
        Some(a) => match a.cookie_header {
            Some(_) => seq!["--cookies"@, path_join(staging_dir, "_cookies.txt"@)],
            None => Seq::<Seq<char>>::empty(),
        },
        None => Seq::<Seq<char>>::empty(),
    };
    let format = if audio_only_download(r) {
        seq!["-f"@, "bestaudio/best"@]
    } else {
        seq!["-f"@, "bestvideo+bestaudio/best"@, "--merge-output-format"@, "mp4"@]
    };
    head + cookies + format + seq![r.url@]
}

/// The arguments of a yt-dlp download into `staging_dir`: progress lines in the
/// library's format, the info JSON written, the output named after the sanitised
/// title, the cookie file where the task carries cookies, and the formats (best audio
/// for audio-only tasks, best video and audio merged into MP4 otherwise).
pub fn build_download_args(request: &CreateTaskRequest, staging_dir: &str) -> (r: Vec<String>)
    requires
        filename_cut_ok(download_title_of(*request)),
    ensures
        strings_view(r@) == download_args_of(*request, staging_dir@),
{
    let title = download_title(request);
    let name = sanitize_filename(title);
    let mut tv: Vec<char> = Vec::new();
    push_str(&mut tv, name.as_str());
    push_str(&mut tv, ".%(ext)s");
    let template_name = string_of(&tv);
    let template = join_path(staging_dir, template_name.as_str());
    let mut args: Vec<String> = Vec::new();
    args.push(String::from_str("--no-playlist"));
    args.push(String::from_str("--no-warnings"));
    args.push(String::from_str("--newline"));
    args.push(String::from_str("--progress-template"));
    args.push(
        String::from_str(
            "download:[nex]%(progress.downloaded_bytes)s|%(progress.total_bytes)s|%(progress.total_bytes_estimate)s|%(progress.speed)s|%(progress.eta)s",
        ),
    );
    args.push(String::from_str("--write-info-json"));
    args.push(String::from_str("-o"));
    args.push(template);
    let ghost head = strings_view(args@);
    let has_cookies = match &request.auth {
        Some(a) => a.cookie_header.is_some(),
        None => false,
    };
    if has_cookies {
        args.push(String::from_str("--cookies"));
        args.push(join_path(staging_dir, "_cookies.txt"));
    }
    let ghost with_cookies = strings_view(args@);
    if should_download_audio_only(request) {
        args.push(String::from_str("-f"));
        args.push(String::from_str("bestaudio/best"));
    } else {
        args.push(String::from_str("-f"));
        args.push(String::from_str("bestvideo+bestaudio/best"));
        args.push(String::from_str("--merge-output-format"));
        args.push(String::from_str("mp4"));
    }
    let ghost with_format = strings_view(args@);
    args.push(request.url.clone());
    proof {
        let spec_args = download_args_of(*request, staging_dir@);
        assert(head.len() == 8);
        assert(strings_view(args@) =~= spec_args);
    }
    args
}

/// The host that cookies are written for: the URL's host, else `.example.com`.
pub open spec fn cookie_domain(url: Seq<char>) -> Seq<char> {
    match url_host_of(url) {
        Some(h) => h,
        None => ".example.com"@,
    }
}

/// The cookie-file line of one `name=value` pair of a `Cookie` header (split at the
/// first `=`, both sides trimmed); nothing for a pair without `=`.
pub open spec fn cookie_line(domain: Seq<char>, pair: Seq<char>) -> Seq<char> {
    let p = trim(pair);
    let k = index_of(p, '=');
    if k >= p.len() {
        Seq::<char>::empty()
    } else {
        "."@ + domain + "\tTRUE\t/\tFALSE\t0\t"@ + trim(p.take(k)) + "\t"@ + trim(p.skip(k + 1)) + "\n"@
    }
}

pub open spec fn cookie_lines(domain: Seq<char>, pairs: Seq<Seq<char>>) -> Seq<char>
    decreases pairs.len(),
{
    if pairs.len() == 0 {
        Seq::<char>::empty()
    } else {
        cookie_lines(domain, pairs.drop_last()) + cookie_line(domain, pairs.last())
    }
}

/// A Netscape cookie file holding the cookies of a `Cookie` header, for the URL's host.
pub open spec fn cookie_file_text(url: Seq<char>, header: Seq<char>) -> Seq<char> {
    "# Netscape HTTP Cookie File\n"@ + cookie_lines(cookie_domain(url), split_on(header, ';'))
}

fn cookie_line_chars(domain: &str, pair: &[char]) -> (r: Vec<char>)
    ensures
        r@ == cookie_line(domain@, pair@),
{
    let p = trim_chars(pair);
    let k = index_of_char(&p, '=');
    if k >= p.len() {
        return Vec::new();
    }
    let name_part = sub_chars(&p, 0, k);
    let name = trim_chars(&name_part);
    let value_part = sub_chars(&p, k + 1, p.len());
    let value = trim_chars(&value_part);
    let mut out: Vec<char> = Vec::new();
    push_str(&mut out, ".");
    push_str(&mut out, domain);
    push_str(&mut out, "\tTRUE\t/\tFALSE\t0\t");
    push_all(&mut out, &name);
    push_str(&mut out, "\t");
    push_all(&mut out, &value);
    push_str(&mut out, "\n");
    proof {
        assert(p@.take(k as int) =~= name_part@);
        assert(p@.skip(k + 1) =~= value_part@);
    }
    out
}

/// The cookie file yt-dlp reads for a task that carries a `Cookie` header; see
/// [`cookie_file_text`].
pub fn cookie_file_content(url: &str, cookie_header: &str) -> (r: String)
    ensures
        r@ == cookie_file_text(url@, cookie_header@),
{
    let domain = match url_host(url) {
        Some(h) => h,
        None => String::from_str(".example.com"),
    };
    let hv = chars_of(cookie_header);
    let pairs = split_chars(&hv, ';');
    let ghost ps = vecs_view(pairs@);
    let mut out: Vec<char> = Vec::new();
    push_str(&mut out, "# Netscape HTTP Cookie File\n");
    let ghost header_text = out@;
    let mut i: usize = 0;
    while i < pairs.len()
        invariant
            i <= pairs@.len(),
            ps == vecs_view(pairs@),
            domain@ == cookie_domain(url@),
            out@ == header_text + cookie_lines(domain@, ps.take(i as int)),
        decreases pairs@.len() - i,
    {
        proof {
            assert(ps.take(i as int + 1).drop_last() =~= ps.take(i as int));
            assert(ps.take(i as int + 1).last() == pairs@[i as int]@);
        }
        let line = cookie_line_chars(domain.as_str(), &pairs[i]);
        push_all(&mut out, &line);
        i = i + 1;
    }
    assert(ps.take(pairs@.len() as int) =~= ps);
    string_of(&out)
}

/// The file yt-dlp reads cookies from: `_cookies.txt` in the staging directory.
pub fn cookie_file_path(staging_dir: &str) -> (r: String)
    ensures
        r@ == path_join(staging_dir@, "_cookies.txt"@),
{
    join_path(staging_dir, "_cookies.txt")
}

/// What one line of yt-dlp's output is.
#[derive(Debug)]
pub enum OutputLine {
    /// A progress line.
    Progress(DownloadProgress),
    /// Any other non-blank line, trimmed; kept to explain a failure.
    Text(String),
    /// A blank line.
    Blank,
}

/// Sorts a line of yt-dlp's output: a progress line, other text (trimmed), or blank.
pub fn classify_output_line(line: &str) -> (r: OutputLine)
    ensures
        match r {
            OutputLine::Progress(p) => progress_line(line@) == Some(p),
            OutputLine::Text(t) => progress_line(line@) is None && t@ == trim(line@) && t@.len() > 0,
            OutputLine::Blank => progress_line(line@) is None && trim(line@).len() == 0,
        },
{
    match parse_progress_line(line) {
        Some(p) => OutputLine::Progress(p),
        None => {
            let v = chars_of(line);
            let t = trim_chars(&v);
            if t.len() == 0 {
                OutputLine::Blank
            } else {
                OutputLine::Text(string_of(&t))
            }
        },
    }
}

/// Lines joined with `\n` between them.
pub open spec fn joined_with_newlines(ls: Seq<Seq<char>>) -> Seq<char>
    decreases ls.len(),
{
    if ls.len() == 0 {
        Seq::<char>::empty()
    } else if ls.len() == 1 {
        ls[0]
    } else {
        joined_with_newlines(ls.drop_last()) + "\n"@ + ls.last()
    }
}

pub open spec fn download_failure_text(stderr: Seq<char>, output: Seq<Seq<char>>) -> Seq<char> {
    "yt-dlp download failed: "@ + if trim(stderr).len() > 0 {
        trim(stderr)
    } else {
        joined_with_newlines(output)
    }
}

/// The error of a failed download: yt-dlp's error output, trimmed, else the text lines
/// it printed.
pub fn download_failure_message(stderr: &str, output_lines: &Vec<String>) -> (r: String)
    ensures
        r@ == download_failure_text(stderr@, strings_view(output_lines@)),
{
    let sv = chars_of(stderr);
    let t = trim_chars(&sv);
    let mut out: Vec<char> = Vec::new();
    push_str(&mut out, "yt-dlp download failed: ");
    if t.len() > 0 {
        push_all(&mut out, &t);
        return string_of(&out);
    }
    let ghost prefix = out@;
    let ghost ls = strings_view(output_lines@);
    let mut i: usize = 0;
    while i < output_lines.len()
        invariant
            i <= output_lines@.len(),
            ls == strings_view(output_lines@),
            out@ == prefix + joined_with_newlines(ls.take(i as int)),
        decreases output_lines@.len() - i,
    {
        proof {
            assert(ls.take(i as int + 1).drop_last() =~= ls.take(i as int));
            assert(ls.take(i as int + 1).last() == output_lines@[i as int]@);
            if i == 0 {
                assert(ls.take(1)[0] == output_lines@[0]@);
            }
        }
        if i > 0 {
            push_str(&mut out, "\n");
        }
        push_str(&mut out, output_lines[i].as_str());
        i = i + 1;
    }
    assert(ls.take(output_lines@.len() as int) =~= ls);
    string_of(&out)
}

/// A file name yt-dlp leaves as bookkeeping: info JSON, partial or resume files, and
/// names beginning with `_` (the cookie file).
pub open spec fn is_artifact_name(n: Seq<char>) -> bool {
    ||| ".info.json"@.is_suffix_of(n)
    ||| match path_extension(n) {
        Some(e) => eq_ignore_case(e, "part"@) || eq_ignore_case(e, "ytdl"@),
        None => false,
    }
    ||| (n.len() > 0 && n[0] == '_')
}

pub open spec fn is_artifact_path(p: Seq<char>) -> bool {
    match path_file_name(p) {
        Some(n) => is_artifact_name(n),
        None => false,
    }
}

/// Whether a file in the staging directory is yt-dlp bookkeeping to delete after a
/// download.
pub fn is_ytdlp_artifact(path: &str) -> (r: bool)
    ensures
        r == is_artifact_path(path@),
{
    let name = match file_name_of(path) {
        Some(n) => n,
        None => return false,
    };
    let nv = chars_of(name.as_str());
    let suffix = chars_of(".info.json");
    if crate::text::ends_with_chars(&nv, &suffix) {
        return true;
    }
    let ext_matches = match extension_of(name.as_str()) {
        Some(e) => {
            let ev = chars_of(e.as_str());
            let part = chars_of("part");
            let ytdl = chars_of("ytdl");
            eq_ignore_case_chars(&ev, &part) || eq_ignore_case_chars(&ev, &ytdl)
        },
        None => false,
    };
    if ext_matches {
        return true;
    }
    nv.len() > 0 && nv[0] == '_'
}

/// Media extensions a downloaded file is looked for by, in lower case.
pub open spec fn is_media_ext(e: Seq<char>) -> bool {
    seq!["mp4"@, "mkv"@, "webm"@, "m4a"@, "mp3"@, "flac"@, "ogg"@, "avi"@, "mov"@].contains(
        lower_seq(e),
    )
}

pub open spec fn is_media_path(p: Seq<char>) -> bool {
    match path_extension(p) {
        Some(e) => is_media_ext(e),
        None => false,
    }
}

/// Whether a file in the staging directory is the downloaded media file.
pub fn is_media_file(path: &str) -> (r: bool)
    ensures
        r == is_media_path(path@),
{
    match extension_of(path) {
        Some(e) => {
            let lower = lower_string(e.as_str());
            let list = ["mp4", "mkv", "webm", "m4a", "mp3", "flac", "ogg", "avi", "mov"];
            proof {
                assert(strs_view(list@) =~= seq![
                    "mp4"@,
                    "mkv"@,
                    "webm"@,
                    "m4a"@,
                    "mp3"@,
                    "flac"@,
                    "ogg"@,
                    "avi"@,
                    "mov"@,
                ]);
            }
            one_of(lower.as_str(), &list)
        },
        None => false,
    }
}

/// The first media file of a directory listing, by its position in the listing.
pub fn find_media_file(paths: &Vec<String>) -> (r: Option<usize>)
    ensures
        match r {
            Some(i) => i < paths@.len() && is_media_path(paths@[i as int]@) && forall|k: int|
                0 <= k < i ==> !is_media_path(#[trigger] paths@[k]@),
            None => forall|k: int| 0 <= k < paths@.len() ==> !is_media_path(#[trigger] paths@[k]@),
        },
{
    let mut i: usize = 0;
    while i < paths.len()
        invariant
            i <= paths@.len(),
            forall|k: int| 0 <= k < i ==> !is_media_path(#[trigger] paths@[k]@),
        decreases paths@.len() - i,
    {
        if is_media_file(paths[i].as_str()) {
            return Some(i);
        }
        i = i + 1;
    }
    None
}

/// The pattern of a yt-dlp format code before the extension (`.f401.mp4`).
pub open spec fn format_code_pattern() -> Seq<char> {
    "\\.f\\d+\\.(\\w+)$"@
}

/// Extensions of the separate streams a merge looks for, in lower case.
pub open spec fn is_stream_ext(e: Seq<char>) -> bool {
    seq![
        "mp4"@, "mkv"@, "webm"@, "avi"@, "mov"@, "m4a"@, "mp3"@, "aac"@, "ogg"@, "opus"@,
        "flac"@, "wav"@,
    ].contains(lower_seq(e))
}

/// A file yt-dlp left as a separate stream: its name carries a format code and its
/// extension is a media one.
pub open spec fn is_format_coded_path(p: Seq<char>) -> bool {
    match path_file_name(p) {
        Some(n) => regex_match(format_code_pattern(), n) == Some(true) && is_stream_ext(
            match path_extension(p) {
                Some(e) => e,
                None => Seq::<char>::empty(),
            },
        ),
        None => false,
    }
}

/// Whether a file is one of the separate streams of a download that yt-dlp did not
/// merge.
pub fn is_format_coded_media(path: &str) -> (r: bool)
    ensures
        r == is_format_coded_path(path@),
{
    let name = match file_name_of(path) {
        Some(n) => n,
        None => return false,
    };
    let matched = regex_is_match("\\.f\\d+\\.(\\w+)$", name.as_str());
    match matched {
        Some(true) => {},
        _ => return false,
    }
    let ext = match extension_of(path) {
        Some(e) => lower_string(e.as_str()),
        None => String::new(),
    };
    let list = ["mp4", "mkv", "webm", "avi", "mov", "m4a", "mp3", "aac", "ogg", "opus", "flac", "wav"];
    proof {
        assert(strs_view(list@) =~= seq![
            "mp4"@,
            "mkv"@,
            "webm"@,
            "avi"@,
            "mov"@,
            "m4a"@,
            "mp3"@,
            "aac"@,
            "ogg"@,
            "opus"@,
            "flac"@,
            "wav"@,
        ]);
        assert(lower_seq(Seq::<char>::empty()) =~= Seq::<char>::empty());
    }
    one_of(ext.as_str(), &list)
}

/// The separate streams of a directory listing, in listing order.
pub open spec fn format_coded_of(paths: Seq<Seq<char>>) -> Seq<Seq<char>>
    decreases paths.len(),
{
    if paths.len() == 0 {
        Seq::<Seq<char>>::empty()
    } else if is_format_coded_path(paths.last()) {
        format_coded_of(paths.drop_last()).push(paths.last())
    } else {
        format_coded_of(paths.drop_last())
    }
}

/// The two separate streams to merge, where a directory listing holds exactly two;
/// `None` otherwise, and no merge is attempted.
pub fn merge_candidates(paths: &Vec<String>) -> (r: Option<(String, String)>)
    ensures
        match r {
            Some((a, b)) => format_coded_of(strings_view(paths@)) == seq![a@, b@],
            None => format_coded_of(strings_view(paths@)).len() != 2,
        },
{
    let ghost ps = strings_view(paths@);
    let mut found: Vec<String> = Vec::new();
    let mut i: usize = 0;
    while i < paths.len()
        invariant
            i <= paths@.len(),
            ps == strings_view(paths@),
            strings_view(found@) == format_coded_of(ps.take(i as int)),
        decreases paths@.len() - i,
    {
        proof {
            assert(ps.take(i as int + 1).drop_last() =~= ps.take(i as int));
            assert(ps.take(i as int + 1).last() == paths@[i as int]@);
        }
        if is_format_coded_media(paths[i].as_str()) {
            let ghost before = strings_view(found@);
            found.push(paths[i].clone());
            assert(strings_view(found@) =~= before.push(paths@[i as int]@));
        }
        i = i + 1;
    }
    assert(ps.take(paths@.len() as int) =~= ps);
    if found.len() != 2 {
        return None;
    }
    let b = found.pop().unwrap();
    let a = found.pop().unwrap();
    proof {
        assert(strings_view(seq![a, b]) =~= seq![a@, b@]);
    }
    Some((a, b))
}

/// Which stream is the video and which the audio, from whether each has a video
/// stream, in order: the first file with video is the video and the first without is
/// the audio; a second file with video stops the merge.
pub open spec fn av_roles_of(has_video: Seq<bool>) -> (Option<int>, Option<int>, bool)
    decreases has_video.len(),
{
    if has_video.len() == 0 {
        (None, None, false)
    } else {
        let (v, a, stop) = av_roles_of(has_video.drop_last());
        let i = has_video.len() - 1;
        if stop {
            (v, a, stop)
        } else if has_video.last() && v is None {
            (Some(i), a, false)
        } else if !has_video.last() && a is None {
            (v, Some(i), false)
        } else if has_video.last() {
            (v, a, true)
        } else {
            (v, a, false)
        }
    }
}

pub open spec fn av_pair(has_video: Seq<bool>) -> Option<(int, int)> {
    let (v, a, stop) = av_roles_of(has_video);
    if stop {
        None
    } else {
        match (v, a) {
            (Some(vi), Some(ai)) => Some((vi, ai)),
            _ => None,
        }
    }
}

/// The positions of the video and the audio stream to merge; `None` where the probes
/// do not show one of each; see [`av_roles_of`].
pub fn av_merge_roles(has_video: &Vec<bool>) -> (r: Option<(usize, usize)>)
    ensures
        match r {
            Some((v, a)) => av_pair(has_video@) == Some((v as int, a as int)),
            None => av_pair(has_video@) is None,
        },
{
    let mut video: Option<usize> = None;
    let mut audio: Option<usize> = None;
    let mut i: usize = 0;
    while i < has_video.len()
        invariant
            i <= has_video@.len(),
            av_roles_of(has_video@.take(i as int)) == (
                match video {
                    Some(v) => Some(v as int),
                    None => None,
                },
                match audio {
                    Some(a) => Some(a as int),
                    None => None,
                },
                false,
            ),
        decreases has_video@.len() - i,
    {
        proof {
            assert(has_video@.take(i as int + 1).drop_last() =~= has_video@.take(i as int));
        }
        let hv = has_video[i];
        if hv && video.is_none() {
            video = Some(i);
        } else if !hv && audio.is_none() {
            audio = Some(i);
        } else if hv && video.is_some() {
            proof {
                lemma_av_roles_stop_persists(has_video@, i as int + 1);
            }
            return None;
        }
        i = i + 1;
    }
    assert(has_video@.take(has_video@.len() as int) =~= has_video@);
    match (video, audio) {
        (Some(v), Some(a)) => Some((v, a)),
        _ => None,
    }
}

proof fn lemma_av_roles_stop_persists(s: Seq<bool>, k: int)
    requires
        0 <= k <= s.len(),
        av_roles_of(s.take(k)).2,
    ensures
        av_roles_of(s).2,
    decreases s.len() - k,
{
    if k < s.len() {
        assert(s.take(k + 1).drop_last() =~= s.take(k));
        lemma_av_roles_stop_persists(s, k + 1);
    } else {
        assert(s.take(k) =~= s);
    }
}

pub open spec fn merged_output_of(staging_dir: Seq<char>, video: Seq<char>) -> Option<Seq<char>> {
    let name = match path_file_name(video) {
        Some(n) => n,
        None => "merged.mp4"@,
    };
    match regex_replaced(format_code_pattern(), name, ".mp4"@) {
        Some(merged) => Some(path_join(staging_dir, merged)),
        None => None,
    }
}

/// Where the merged file goes: the video's name with its format code and extension
/// replaced by `.mp4`, in the staging directory.
pub fn merged_output_path(staging_dir: &str, video_path: &str) -> (r: Option<String>)
    ensures
        opt_view(r) == merged_output_of(staging_dir@, video_path@),
{
    let name = match file_name_of(video_path) {
        Some(n) => n,
        None => String::from_str("merged.mp4"),
    };
    match regex_replace_first("\\.f\\d+\\.(\\w+)$", name.as_str(), ".mp4") {
        Some(merged) => Some(join_path(staging_dir, merged.as_str())),
        None => None,
    }
}

pub open spec fn conversion_needed(media: Seq<char>, target: Seq<char>) -> bool {
    lower_seq(
        match path_extension(media) {
            Some(e) => e,
            None => Seq::<char>::empty(),
        },
    ) != target
}

/// Whether a downloaded audio file needs converting to `target_format`: its extension,
/// in lower case, differs from it.
pub fn needs_audio_conversion(media_path: &str, target_format: &str) -> (r: bool)
    ensures
        r == conversion_needed(media_path@, target_format@),
{
    let ext = match extension_of(media_path) {
        Some(e) => lower_string(e.as_str()),
        None => String::new(),
    };
    proof {
        assert(lower_seq(Seq::<char>::empty()) =~= Seq::<char>::empty());
    }
    !crate::text::str_eq(ext.as_str(), target_format)
}

/// The file an audio conversion writes: the media path with the target extension,
/// which must hold no path separator.
pub fn audio_conversion_output(media_path: &str, target_format: &str) -> (r: String)
    requires
        separator_free(target_format@),
    ensures
        r@ == path_with_extension(media_path@, target_format@),
{
    with_extension(media_path, target_format)
}

/// The music metadata of an audio download: the task's fields, then its raw metadata.
pub open spec fn download_music_of(r: CreateTaskRequest) -> MusicMetadataView {
    merged(
        MusicMetadataView {
            title: opt_view(r.metadata.track_title),
            artist: opt_view(r.metadata.artist),
            album_artist: opt_view(r.metadata.album_artist),
            album: opt_view(r.metadata.album),
            track_number: r.metadata.track_number,
            disc_number: r.metadata.disc_number,
            genre: opt_view(r.metadata.genre),
            release_date: opt_view(r.metadata.release_date),
        },
        music_metadata_of(r.metadata.raw_metadata),
    )
}

/// The tags embedded into an audio download: its music metadata, with the track
/// title (else media title, else title) and the artist (else uploader) of the task as
/// fallbacks.
pub fn audio_download_tags(request: &CreateTaskRequest) -> (r: Vec<(String, String)>)
    requires
        raw_sliceable(request.metadata.raw_metadata),
    ensures
        pairs_view(r@) == audio_pairs(
            download_music_of(*request),
            or_else(
                or_else(opt_view(request.metadata.track_title), opt_view(request.metadata.media_title)),
                opt_view(request.metadata.title),
            ),
            or_else(opt_view(request.metadata.artist), opt_view(request.metadata.uploader)),
        ),
{
    let task_music = music_metadata_from_task(&request.metadata);
    let raw = match &request.metadata.raw_metadata {
        Some(v) => Some(v),
        None => None,
    };
    let raw_music = extract_music_metadata(raw);
    let music = task_music.merge_with(&raw_music);
    let fallback_title: Option<&str> = match &request.metadata.track_title {
        Some(t) => Some(t.as_str()),
        None => match &request.metadata.media_title {
            Some(t) => Some(t.as_str()),
            None => match &request.metadata.title {
                Some(t) => Some(t.as_str()),
                None => None,
            },
        },
    };
    let fallback_artist: Option<&str> = match &request.metadata.artist {
        Some(a) => Some(a.as_str()),
        None => match &request.metadata.uploader {
            Some(u) => Some(u.as_str()),
            None => None,
        },
    };
    build_audio_metadata_pairs(&music, fallback_title, fallback_artist)
}

pub open spec fn is_mp4_path(p: Seq<char>) -> bool {
    match path_extension(p) {
        Some(e) => eq_ignore_case(e, "mp4"@) || eq_ignore_case(e, "m4v"@),
        None => false,
    }
}

/// Whether a downloaded video is an MP4 (`mp4` or `m4v`, any case), which gets the
/// faststart layout.
pub fn is_mp4_file(path: &str) -> (r: bool)
    ensures
        r == is_mp4_path(path@),
{
    match extension_of(path) {
        Some(e) => {
            let ev = chars_of(e.as_str());
            let mp4 = chars_of("mp4");
            let m4v = chars_of("m4v");
            eq_ignore_case_chars(&ev, &mp4) || eq_ignore_case_chars(&ev, &m4v)
        },
        None => false,
    }
}

} // verus!
