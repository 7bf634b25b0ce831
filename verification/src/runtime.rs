//! Where a finished download goes and what is written beside it: directory and file
//! names under the target folder, the `.nfo` sidecar and the manifest.
use vstd::prelude::*;
use crate::format::{cleaned_name, cleaned_name_chars, lemma_cleaned_name_safe, no_unsafe_chars};
use crate::json::{JsonValue, json_str_field, str_field};
use crate::json::{JsonView, clone_json};
use crate::models::{
    AnalyzeOnlineMediaResponse, BatchCreateTasksRequest, CreateTaskRequest, Manifest, OutputFile,
    TargetFolderConfigSnapshot, TaskAuthInput, TaskMetadataInput,
};
use crate::music::{
    MusicMetadata, MusicMetadataView, extract_music_metadata, is_music, is_music_content_type,
    merged, music_metadata_from_analysis, music_metadata_from_task, music_metadata_of, or_else,
    raw_sliceable,
};
use crate::paths::{
    extension_of, file_name_of, file_stem_of, join_path, path_eq, path_extension,
    path_file_name, path_file_stem, path_join, path_with_file_name, paths_equal, with_file_name,
};
use crate::task_manager::clone_opt;
use crate::text::{
    all_digit_chars, all_digits, byte_prefix, chars_of, decimal, decimal_chars, is_digit_char, lower_seq,
    lower_string, one_of, opt_view, push_all, push_str, string_of, strs_view, sub_chars, trim,
    trim_chars,
};

verus! {

/// The cleaned name, or `online-media` where nothing is left of it.
pub open spec fn sanitized_component(s: Seq<char>) -> Seq<char> {
    if cleaned_name(s).len() == 0 {
        "online-media"@
    } else {
        cleaned_name(s)
    }
}

pub open spec fn opt_sanitized(o: Option<Seq<char>>) -> Option<Seq<char>> {
    match o {
        Some(s) => Some(sanitized_component(s)),
        None => None,
    }
}

pub open spec fn opt_str_view(o: Option<&str>) -> Option<Seq<char>> {
    match o {
        Some(s) => Some(s@),
        None => None,
    }
}

/// A path component safe on common file systems: unsafe characters become `_` and
/// white space and dots are trimmed from both ends; nothing left gives `online-media`.
pub fn sanitize_path_component(value: &str) -> (r: String)
    ensures
        r@ == sanitized_component(value@),
        r@.len() > 0,
        no_unsafe_chars(r@),
{
    let cleaned = cleaned_name_chars(value);
    if cleaned.len() == 0 {
        let d = String::from_str("online-media");
        proof {
            reveal_strlit("online-media");
            assert(no_unsafe_chars(d@));
        }
        d
    } else {
        proof {
            lemma_cleaned_name_safe(value@);
        }
        string_of(&cleaned)
    }
}

fn sanitize_opt(o: &Option<String>) -> (r: Option<String>)
    ensures
        opt_view(r) == opt_sanitized(opt_view(*o)),
{
    match o {
        Some(s) => Some(sanitize_path_component(s.as_str())),
        None => None,
    }
}

/// The title a download directory is named after: the media title, else the title,
/// else the record id.
pub open spec fn import_title(m: TaskMetadataInput, record_id: Seq<char>) -> Seq<char> {
    match or_else(opt_view(m.media_title), opt_view(m.title)) {
        Some(t) => t,
        None => record_id,
    }
}

pub open spec fn import_dir_name(r: CreateTaskRequest) -> Seq<char> {
    let title = sanitized_component(import_title(r.metadata, r.record_id@));
    match r.metadata.external_id {
        Some(e) => title + " ["@ + sanitized_component(e@) + "]"@,
        None => title,
    }
}

/// The directory name of a non-music download: the sanitised title, followed by the
/// sanitised external id in brackets where there is one.
pub fn build_import_dir_name(request: &CreateTaskRequest) -> (r: String)
    ensures
        r@ == import_dir_name(*request),
{
    let title_src: &String = match &request.metadata.media_title {
        Some(t) => t,
        None => match &request.metadata.title {
            Some(t) => t,
            None => &request.record_id,
        },
    };
    let title = sanitize_path_component(title_src.as_str());
    match &request.metadata.external_id {
        Some(e) => {
            let ext = sanitize_path_component(e.as_str());
            let mut buf: Vec<char> = Vec::new();
            push_str(&mut buf, title.as_str());
            push_str(&mut buf, " [");
            push_str(&mut buf, ext.as_str());
            push_str(&mut buf, "]");
            string_of(&buf)
        },
        None => title,
    }
}

/// The sanitised source site, where the task names one.
pub fn build_source_site_dir_name(request: &CreateTaskRequest) -> (r: Option<String>)
    ensures
        opt_view(r) == opt_sanitized(opt_view(request.metadata.source_site)),
{
    sanitize_opt(&request.metadata.source_site)
}

/// The sanitised source id, else the sanitised external id.
pub fn build_source_id_dir_name(request: &CreateTaskRequest) -> (r: Option<String>)
    ensures
        opt_view(r) == opt_sanitized(
            or_else(opt_view(request.metadata.source_id), opt_view(request.metadata.external_id)),
        ),
{
    match &request.metadata.source_id {
        Some(s) => Some(sanitize_path_component(s.as_str())),
        None => sanitize_opt(&request.metadata.external_id),
    }
}

pub open spec fn is_music_req(r: CreateTaskRequest) -> bool {
    is_music(r.target_folder_config_snapshot.content_type@)
}

/// Whether the task imports into a music folder.
pub fn is_music_request(request: &CreateTaskRequest) -> (r: bool)
    ensures
        r == is_music_req(*request),
{
    is_music_content_type(request.target_folder_config_snapshot.content_type.as_str())
}

/// Audio extensions, compared in lower case.
pub open spec fn is_music_file_ext(e: Seq<char>) -> bool {
    seq!["m4a"@, "mp3"@, "flac"@, "ogg"@, "opus"@, "wav"@, "aac"@, "wma"@, "ape"@].contains(
        lower_seq(e),
    )
}

/// Whether an extension, in any ASCII case, is one of the audio extensions that a music
/// import renames.
pub fn is_music_file_extension(extension: &str) -> (r: bool)
    ensures
        r == is_music_file_ext(extension@),
{
    let lower = lower_string(extension);
    let list = ["m4a", "mp3", "flac", "ogg", "opus", "wav", "aac", "wma", "ape"];
    proof {
        assert(strs_view(list@) =~= seq![
            "m4a"@,
            "mp3"@,
            "flac"@,
            "ogg"@,
            "opus"@,
            "wav"@,
            "aac"@,
            "wma"@,
            "ape"@,
        ]);
    }
    one_of(lower.as_str(), &list)
}

pub open spec fn renames_music_output(p: Seq<char>) -> bool {
    match path_extension(p) {
        Some(e) => is_music_file_ext(e),
        None => false,
    }
}

/// Whether a downloaded file is an audio file that a music import renames.
pub fn should_rename_music_output(path: &str) -> (r: bool)
    ensures
        r == renames_music_output(path@),
{
    match extension_of(path) {
        Some(e) => is_music_file_extension(e.as_str()),
        None => false,
    }
}

/// The music metadata of a task: the task's own fields, then the analysis, then what
/// the raw metadata gives.
pub open spec fn merged_music_of(r: CreateTaskRequest, a: AnalyzeOnlineMediaResponse) -> MusicMetadataView {
    merged(
        merged(
            MusicMetadataView {
                title: opt_view(r.metadata.track_title),
                artist: opt_view(r.metadata.artist),
                album_artist: opt_view(r.metadata.album_artist),
                album: opt_view(r.metadata.album),
                track_number: r.metadata.track_number,
                disc_number: r.metadata.disc_number,
                genre: opt_view(r.metadata.genre),
                release_date: opt_view(r.metadata.release_date),
            },
            MusicMetadataView {
                title: opt_view(a.track_title),
                artist: opt_view(a.artist),
                album_artist: opt_view(a.album_artist),
                album: opt_view(a.album),
                track_number: a.track_number,
                disc_number: a.disc_number,
                genre: opt_view(a.genre),
                release_date: opt_view(a.release_date),
            },
        ),
        music_metadata_of(raw_of(r, a)),
    )
}

/// The raw metadata of the task, else that of the analysis.
pub open spec fn raw_of(r: CreateTaskRequest, a: AnalyzeOnlineMediaResponse) -> Option<JsonValue> {
    or_else(r.metadata.raw_metadata, a.raw_metadata)
}

/// The release dates in the raw metadata of a task can be cut where the
/// metadata extraction cuts them (elsewhere that extraction panics).
pub open spec fn task_raw_sliceable(r: CreateTaskRequest, a: AnalyzeOnlineMediaResponse) -> bool {
    raw_sliceable(raw_of(r, a))
}

fn raw_ref<'a>(request: &'a CreateTaskRequest, analyze: &'a AnalyzeOnlineMediaResponse) -> (r:
    Option<&'a JsonValue>)
    ensures
        (match r {
            Some(v) => Some(*v),
            None => None,
        }) == raw_of(*request, *analyze),
{
    match &request.metadata.raw_metadata {
        Some(v) => Some(v),
        None => match &analyze.raw_metadata {
            Some(v) => Some(v),
            None => None,
        },
    }
}

/// The task's music metadata merged with the analysis and the raw metadata.
pub fn merged_music_metadata(request: &CreateTaskRequest, analyze: &AnalyzeOnlineMediaResponse) -> (r:
    MusicMetadata)
    requires
        task_raw_sliceable(*request, *analyze),
    ensures
        r@ == merged_music_of(*request, *analyze),
{
    let task_metadata = music_metadata_from_task(&request.metadata);
    let analyze_metadata = music_metadata_from_analysis(analyze);
    let raw_metadata = extract_music_metadata(raw_ref(request, analyze));
    task_metadata.merge_with(&analyze_metadata).merge_with(&raw_metadata)
}

/// `n` with at least two digits (`{:02}`).
pub open spec fn two_digits(n: nat) -> Seq<char> {
    if n < 10 {
        seq!['0'] + decimal(n)
    } else {
        decimal(n)
    }
}

pub open spec fn music_target_dir(
    root: Seq<char>,
    base: Seq<char>,
    m: MusicMetadataView,
    fallback_artist: Option<Seq<char>>,
) -> Seq<char> {
    let artist = opt_sanitized(or_else(or_else(m.album_artist, m.artist), fallback_artist));
    let album = opt_sanitized(m.album);
    let year = match m.release_date {
        Some(d) => byte_prefix(d, 4),
        None => None,
    };
    match (artist, album) {
        (Some(ar), Some(al)) => match year {
            Some(y) => path_join(path_join(root, ar), al + " ("@ + y + ")"@),
            None => path_join(path_join(root, ar), al),
        },
        (Some(ar), None) => path_join(root, ar),
        (None, Some(al)) => path_join(root, al),
        (None, None) => path_join(root, base),
    }
}

/// The folder of a music import: `artist/album (year)` under the target root, with
/// the parts that are known (the album artist, else the artist, else the fallback);
/// the base name where neither artist nor album is known.
pub fn build_music_target_dir(
    target_root: &str,
    base_name: &str,
    music_metadata: &MusicMetadata,
    fallback_artist: Option<&str>,
) -> (r: String)
    ensures
        r@ == music_target_dir(target_root@, base_name@, music_metadata@, opt_str_view(fallback_artist)),
{
    let artist_src: Option<&str> = match &music_metadata.album_artist {
        Some(a) => Some(a.as_str()),
        None => match &music_metadata.artist {
            Some(a) => Some(a.as_str()),
            None => fallback_artist,
        },
    };
    let artist = match artist_src {
        Some(a) => Some(sanitize_path_component(a)),
        None => None,
    };
    let album = sanitize_opt(&music_metadata.album);
    let year = music_metadata.year();
    match (artist, album) {
        (Some(ar), Some(al)) => {
            let dir = join_path(target_root, ar.as_str());
            match year {
                Some(y) => {
                    let mut buf: Vec<char> = Vec::new();
                    push_str(&mut buf, al.as_str());
                    push_str(&mut buf, " (");
                    push_str(&mut buf, y.as_str());
                    push_str(&mut buf, ")");
                    let name = string_of(&buf);
                    join_path(dir.as_str(), name.as_str())
                },
                None => join_path(dir.as_str(), al.as_str()),
            }
        },
        (Some(ar), None) => join_path(target_root, ar.as_str()),
        (None, Some(al)) => join_path(target_root, al.as_str()),
        (None, None) => join_path(target_root, base_name),
    }
}

/// `{:02}` of a track number.
pub fn two_digit_string(n: u32) -> (r: Vec<char>)
    ensures
        r@ == two_digits(n as nat),
{
    let d = decimal_chars(n as u64);
    if n < 10 {
        let mut r: Vec<char> = Vec::new();
        r.push('0');
        push_all(&mut r, &d);
        r
    } else {
        d
    }
}

pub open spec fn music_output_name(p: Seq<char>, m: MusicMetadataView) -> Option<Seq<char>> {
    if !renames_music_output(p) {
        None
    } else {
        match (path_extension(p), m.title) {
            (Some(e), Some(t)) => {
                let title = sanitized_component(t);
                let stem = match m.track_number {
                    Some(n) => two_digits(n as nat) + ". "@ + title,
                    None => title,
                };
                Some(stem + "."@ + e)
            },
            _ => None,
        }
    }
}

/// The name an audio file gets in a music import: `NN. Title.ext` (or `Title.ext`
/// without a track number); `None` for other files or without a title.
pub fn build_music_output_name(path: &str, music_metadata: &MusicMetadata) -> (r: Option<String>)
    ensures
        opt_view(r) == music_output_name(path@, music_metadata@),
{
    if !should_rename_music_output(path) {
        return None;
    }
    let extension = match extension_of(path) {
        Some(e) => e,
        None => return None,
    };
    let title = match &music_metadata.title {
        Some(t) => sanitize_path_component(t.as_str()),
        None => return None,
    };
    let mut buf: Vec<char> = Vec::new();
    match music_metadata.track_number {
        Some(n) => {
            let digits = two_digit_string(n);
            push_all(&mut buf, &digits);
            push_str(&mut buf, ". ");
            push_str(&mut buf, title.as_str());
        },
        None => {
            push_str(&mut buf, title.as_str());
        },
    }
    push_str(&mut buf, ".");
    push_str(&mut buf, extension.as_str());
    Some(string_of(&buf))
}

pub open spec fn record_id_suffixed(p: Seq<char>, record_id: Seq<char>) -> Seq<char> {
    let stem = match path_file_stem(p) {
        Some(s) => s,
        None => "output"@,
    };
    let suffix = stem + " ["@ + sanitized_component(record_id) + "]"@;
    match path_extension(p) {
        Some(e) => path_with_file_name(p, suffix + "."@ + e),
        None => path_with_file_name(p, suffix),
    }
}

/// `path` with ` [record id]` added to its file stem, which avoids overwriting a file
/// of the same name.
pub fn with_record_id_suffix(path: &str, record_id: &str) -> (r: String)
    ensures
        r@ == record_id_suffixed(path@, record_id@),
{
    let stem = match file_stem_of(path) {
        Some(s) => s,
        None => String::from_str("output"),
    };
    let rid = sanitize_path_component(record_id);
    let mut buf: Vec<char> = Vec::new();
    push_str(&mut buf, stem.as_str());
    push_str(&mut buf, " [");
    push_str(&mut buf, rid.as_str());
    push_str(&mut buf, "]");
    match extension_of(path) {
        Some(e) => {
            push_str(&mut buf, ".");
            push_str(&mut buf, e.as_str());
            let name = string_of(&buf);
            with_file_name(path, name.as_str())
        },
        None => {
            let name = string_of(&buf);
            with_file_name(path, name.as_str())
        },
    }
}


/// The XML entity for a markup character, or the character itself.
pub open spec fn xml_escape_char(c: char) -> Seq<char> {
    if c == '&' {
        "&amp;"@
    } else if c == '<' {
        "&lt;"@
    } else if c == '>' {
        "&gt;"@
    } else if c == '"' {
        "&quot;"@
    } else if c == '\'' {
        "&apos;"@
    } else {
        seq![c]
    }
}

/// `s` with each of `& < > " '` replaced by its XML entity.
pub open spec fn xml_escaped(s: Seq<char>) -> Seq<char>
    decreases s.len(),
{
    if s.len() == 0 {
        Seq::<char>::empty()
    } else {
        xml_escaped(s.drop_last()) + xml_escape_char(s.last())
    }
}

/// None of `< > " '` occurs in `s`.
pub open spec fn free_of_markup(s: Seq<char>) -> bool {
    forall|i: int|
        0 <= i < s.len() ==> #[trigger] s[i] != '<' && s[i] != '>' && s[i] != '"' && s[i] != '\''
}

/// Text escaped for XML: `&`, `<`, `>`, `"` and `'` become `&amp;`, `&lt;`, `&gt;`,
/// `&quot;` and `&apos;`, so that no markup character is left in it.
pub fn escape_xml(value: &str) -> (r: String)
    ensures
        r@ == xml_escaped(value@),
        free_of_markup(r@),
{
    let v = chars_of(value);
    let mut buf: Vec<char> = Vec::new();
    let mut i: usize = 0;
    proof {
        reveal_strlit("&amp;");
        reveal_strlit("&lt;");
        reveal_strlit("&gt;");
        reveal_strlit("&quot;");
        reveal_strlit("&apos;");
    }
    while i < v.len()
        invariant
            i <= v@.len(),
            v@ == value@,
            buf@ == xml_escaped(v@.take(i as int)),
            free_of_markup(buf@),
            "&amp;"@ == seq!['&', 'a', 'm', 'p', ';'],
            "&lt;"@ == seq!['&', 'l', 't', ';'],
            "&gt;"@ == seq!['&', 'g', 't', ';'],
            "&quot;"@ == seq!['&', 'q', 'u', 'o', 't', ';'],
            "&apos;"@ == seq!['&', 'a', 'p', 'o', 's', ';'],
        decreases v@.len() - i,
    {
        let c = v[i];
        let ghost before = buf@;
        proof {
            assert(v@.take(i as int + 1).drop_last() =~= v@.take(i as int));
        }
        if c == '&' {
            push_str(&mut buf, "&amp;");
        } else if c == '<' {
            push_str(&mut buf, "&lt;");
        } else if c == '>' {
            push_str(&mut buf, "&gt;");
        } else if c == '"' {
            push_str(&mut buf, "&quot;");
        } else if c == '\'' {
            push_str(&mut buf, "&apos;");
        } else {
            buf.push(c);
        }
        proof {
            assert(buf@ == before + xml_escape_char(c));
            assert forall|k: int| 0 <= k < buf@.len() implies #[trigger] buf@[k] != '<' && buf@[k]
                != '>' && buf@[k] != '"' && buf@[k] != '\'' by {
                if k >= before.len() {
                    assert(buf@[k] == xml_escape_char(c)[k - before.len()]);
                }
            }
        }
        i = i + 1;
    }
    assert(v@.take(v@.len() as int) =~= v@);
    string_of(&buf)
}

/// `  <name>value</name>`, with the value trimmed and escaped; `None` for a missing or
/// blank value.
pub open spec fn xml_tag_line(name: Seq<char>, value: Option<Seq<char>>) -> Option<Seq<char>> {
    match value {
        Some(v) => if trim(v).len() == 0 {
            None
        } else {
            Some("  <"@ + name + ">"@ + xml_escaped(trim(v)) + "</"@ + name + ">"@)
        },
        None => None,
    }
}

/// An XML element line for a text value; see [`xml_tag_line`].
pub fn xml_tag(name: &str, value: Option<&str>) -> (r: Option<String>)
    ensures
        opt_view(r) == xml_tag_line(name@, opt_str_view(value)),
{
    let v = match value {
        Some(v) => v,
        None => return None,
    };
    let cv = chars_of(v);
    let t = trim_chars(&cv);
    if t.len() == 0 {
        return None;
    }
    let ts = string_of(&t);
    let escaped = escape_xml(ts.as_str());
    Some(element_line(name, escaped.as_str()))
}

fn element_line(name: &str, escaped: &str) -> (r: String)
    ensures
        r@ == "  <"@ + name@ + ">"@ + escaped@ + "</"@ + name@ + ">"@,
{
    let mut buf: Vec<char> = Vec::new();
    push_str(&mut buf, "  <");
    push_str(&mut buf, name);
    push_str(&mut buf, ">");
    push_str(&mut buf, escaped);
    push_str(&mut buf, "</");
    push_str(&mut buf, name);
    push_str(&mut buf, ">");
    string_of(&buf)
}

pub open spec fn xml_number_line(name: Seq<char>, value: Option<u64>) -> Option<Seq<char>> {
    match value {
        Some(n) => Some("  <"@ + name + ">"@ + xml_escaped(decimal(n as nat)) + "</"@ + name + ">"@),
        None => None,
    }
}

/// An XML element line for a number, written in decimal.
pub fn xml_tag_number(name: &str, value: Option<u64>) -> (r: Option<String>)
    ensures
        opt_view(r) == xml_number_line(name@, value),
{
    match value {
        Some(n) => {
            let d = crate::text::decimal_string(n);
            let escaped = escape_xml(d.as_str());
            Some(element_line(name, escaped.as_str()))
        },
        None => None,
    }
}

/// `YYYYMMDD` as `YYYY-MM-DD`; `None` for anything but eight ASCII digits.
pub open spec fn release_date_from_upload(d: Seq<char>) -> Option<Seq<char>> {
    if d.len() == 8 && all_digits(d) {
        Some(d.take(4) + "-"@ + d.subrange(4, 6) + "-"@ + d.subrange(6, 8))
    } else {
        None
    }
}

pub open spec fn raw_release_date(raw: Option<JsonValue>) -> Option<Seq<char>> {
    match raw {
        Some(v) => match json_str_field(v, "upload_date"@) {
            Some(d) => release_date_from_upload(d),
            None => None,
        },
        None => None,
    }
}

/// The release date that the raw metadata's `upload_date` gives.
pub fn metadata_release_date(raw_metadata: Option<&JsonValue>) -> (r: Option<String>)
    ensures
        opt_view(r) == raw_release_date(match raw_metadata {
            Some(v) => Some(*v),
            None => None,
        }),
{
    let raw = match raw_metadata {
        Some(v) => v,
        None => return None,
    };
    let upload = match str_field(raw, "upload_date") {
        Some(u) => u,
        None => return None,
    };
    let d = chars_of(upload);
    if d.len() != 8 {
        return None;
    }
    if !all_digit_chars(&d) {
        return None;
    }
    let mut buf = sub_chars(&d, 0, 4);
    buf.push('-');
    let mm = sub_chars(&d, 4, 6);
    push_all(&mut buf, &mm);
    buf.push('-');
    let dd = sub_chars(&d, 6, 8);
    push_all(&mut buf, &dd);
    proof {
        reveal_strlit("-");
        assert(buf@ =~= d@.take(4) + "-"@ + d@.subrange(4, 6) + "-"@ + d@.subrange(6, 8));
    }
    Some(string_of(&buf))
}


pub open spec fn opt_line(o: Option<Seq<char>>) -> Seq<Seq<char>> {
    match o {
        Some(l) => seq![l],
        None => Seq::<Seq<char>>::empty(),
    }
}

/// Lines joined with `\n` between them.
pub open spec fn joined_lines(ls: Seq<Seq<char>>) -> Seq<char>
    decreases ls.len(),
{
    if ls.len() == 0 {
        Seq::<char>::empty()
    } else if ls.len() == 1 {
        ls[0]
    } else {
        joined_lines(ls.drop_last()) + seq!['\n'] + ls.last()
    }
}

pub open spec fn nfo_title(r: CreateTaskRequest, a: AnalyzeOnlineMediaResponse) -> Seq<char> {
    match or_else(
        or_else(opt_view(r.metadata.media_title), opt_view(r.metadata.title)),
        opt_view(a.title),
    ) {
        Some(t) => t,
        None => "Online Media"@,
    }
}

pub open spec fn nfo_plot(raw: Option<JsonValue>) -> Option<Seq<char>> {
    match raw {
        Some(v) => or_else(json_str_field(v, "description"@), json_str_field(v, "fulltitle"@)),
        None => None,
    }
}

pub open spec fn nfo_year(r: CreateTaskRequest, a: AnalyzeOnlineMediaResponse) -> Option<Seq<char>> {
    match r.metadata.media_year {
        Some(y) => Some(y@),
        None => match raw_release_date(raw_of(r, a)) {
            Some(d) => Some(d.take(4)),
            None => None,
        },
    }
}

pub open spec fn nfo_source_id(r: CreateTaskRequest, a: AnalyzeOnlineMediaResponse) -> Option<Seq<char>> {
    or_else(
        or_else(
            or_else(opt_view(r.metadata.source_id), opt_view(a.source_id)),
            opt_view(r.metadata.external_id),
        ),
        opt_view(a.external_id),
    )
}

pub open spec fn nfo_external_id(r: CreateTaskRequest, a: AnalyzeOnlineMediaResponse) -> Option<
    Seq<char>,
> {
    or_else(opt_view(r.metadata.external_id), opt_view(a.external_id))
}

pub open spec fn wrapped(prefix: Seq<char>, v: Option<Seq<char>>, suffix: Seq<char>) -> Option<
    Seq<char>,
> {
    match v {
        Some(t) => Some(prefix + xml_escaped(t) + suffix),
        None => None,
    }
}

/// The lines of the `.nfo` document of a download.
pub open spec fn nfo_lines(r: CreateTaskRequest, a: AnalyzeOnlineMediaResponse) -> Seq<Seq<char>> {
    let title = nfo_title(r, a);
    let release = raw_release_date(raw_of(r, a));
    seq![
        "<?xml version=\"1.0\" encoding=\"UTF-8\" standalone=\"yes\"?>"@,
        "<movie>"@,
        "  <title>"@ + xml_escaped(title) + "</title>"@,
    ] + opt_line(
        xml_tag_line("originaltitle"@, or_else(opt_view(r.metadata.title), opt_view(a.title))),
    ) + opt_line(xml_tag_line("sorttitle"@, Some(title))) + opt_line(
        match nfo_plot(raw_of(r, a)) {
            Some(p) => Some("  <plot><![CDATA["@ + p + "]]></plot>"@),
            None => None,
        },
    ) + opt_line(
        xml_tag_line("studio"@, or_else(opt_view(r.metadata.source_site), opt_view(a.source_site))),
    ) + opt_line(
        xml_tag_line("director"@, or_else(opt_view(r.metadata.uploader), opt_view(a.uploader))),
    ) + opt_line(
        xml_number_line("runtime"@, or_else(r.metadata.duration_seconds, a.duration_seconds)),
    ) + opt_line(
        match nfo_year(r, a) {
            Some(y) => xml_tag_line("year"@, Some(y)),
            None => None,
        },
    ) + opt_line(
        match release {
            Some(d) => xml_tag_line("premiered"@, Some(d)),
            None => None,
        },
    ) + opt_line(
        wrapped(
            "  <uniqueid type=\"provider\" default=\"true\">"@,
            opt_view(r.provider_id),
            "</uniqueid>"@,
        ),
    ) + opt_line(
        match nfo_source_id(r, a) {
            Some(s) => Some(
                "  <uniqueid type=\""@ + xml_escaped(
                    match r.provider_id {
                        Some(p) => p@,
                        None => "source"@,
                    },
                ) + "\">"@ + xml_escaped(s) + "</uniqueid>"@,
            ),
            None => None,
        },
    ) + opt_line(
        match nfo_external_id(r, a) {
            Some(e) => if Some(e) != nfo_source_id(r, a) {
                Some("  <uniqueid type=\"external\">"@ + xml_escaped(e) + "</uniqueid>"@)
            } else {
                None
            },
            None => None,
        },
    ) + opt_line(xml_tag_line("sourceurl"@, Some(r.url@))) + opt_line(
        wrapped(
            "  <thumb aspect=\"poster\">"@,
            or_else(opt_view(r.metadata.thumbnail_url), opt_view(a.thumbnail_url)),
            "</thumb>"@,
        ),
    ) + seq!["</movie>"@]
}

pub open spec fn nfo_content(r: CreateTaskRequest, a: AnalyzeOnlineMediaResponse) -> Seq<char> {
    joined_lines(nfo_lines(r, a)) + seq!['\n']
}

fn concat3(a: &str, b: &str, c: &str) -> (r: String)
    ensures
        r@ == a@ + b@ + c@,
{
    let mut buf: Vec<char> = Vec::new();
    push_str(&mut buf, a);
    push_str(&mut buf, b);
    push_str(&mut buf, c);
    string_of(&buf)
}

fn push_line(lines: &mut Vec<String>, o: Option<String>)
    ensures
        crate::text::strings_view(final(lines)@) == crate::text::strings_view(old(lines)@)
            + opt_line(opt_view(o)),
{
    let ghost before = lines@;
    match o {
        Some(l) => {
            lines.push(l);
            assert(crate::text::strings_view(lines@) =~= crate::text::strings_view(before)
                + opt_line(opt_view(o)));
        },
        None => {
            assert(crate::text::strings_view(lines@) =~= crate::text::strings_view(before)
                + opt_line(opt_view(o)));
        },
    }
}

fn wrap_escaped(prefix: &str, v: Option<&str>, suffix: &str) -> (r: Option<String>)
    ensures
        opt_view(r) == wrapped(prefix@, opt_str_view(v), suffix@),
{
    match v {
        Some(t) => {
            let e = escape_xml(t);
            Some(concat3(prefix, e.as_str(), suffix))
        },
        None => None,
    }
}

/// Lines joined with `\n`, and a final `\n`.
pub fn join_lines(lines: &Vec<String>) -> (r: String)
    ensures
        r@ == joined_lines(crate::text::strings_view(lines@)) + seq!['\n'],
{
    let ghost ls = crate::text::strings_view(lines@);
    let mut buf: Vec<char> = Vec::new();
    let mut i: usize = 0;
    while i < lines.len()
        invariant
            i <= lines@.len(),
            ls == crate::text::strings_view(lines@),
            buf@ == joined_lines(ls.take(i as int)),
        decreases lines@.len() - i,
    {
        proof {
            assert(ls.take(i as int + 1).drop_last() =~= ls.take(i as int));
            assert(ls.take(i as int + 1).last() == lines@[i as int]@);
            if i == 0 {
                assert(ls.take(1)[0] == lines@[0]@);
            }
        }
        if i > 0 {
            buf.push('\n');
        }
        push_str(&mut buf, lines[i].as_str());
        i = i + 1;
    }
    assert(ls.take(lines@.len() as int) =~= ls);
    buf.push('\n');
    string_of(&buf)
}

fn opt_as_str<'a>(o: &'a Option<String>) -> (r: Option<&'a str>)
    ensures
        opt_str_view(r) == opt_view(*o),
{
    match o {
        Some(s) => Some(s.as_str()),
        None => None,
    }
}

fn first_str<'a>(a: Option<&'a str>, b: Option<&'a str>) -> (r: Option<&'a str>)
    ensures
        opt_str_view(r) == or_else(opt_str_view(a), opt_str_view(b)),
{
    match a {
        Some(x) => Some(x),
        None => b,
    }
}

/// The `.nfo` document (Kodi movie format) for a download: title, original and sort
/// title, plot, studio, director, runtime, year, premiere date, unique ids, source
/// URL and poster, each from the task where it gives one and else from the analysis.
pub fn build_online_media_nfo_content(
    request: &CreateTaskRequest,
    analyze: &AnalyzeOnlineMediaResponse,
) -> (r: String)
    ensures
        r@ == nfo_content(*request, *analyze),
{
    let raw = raw_ref(request, analyze);
    let title: &str = match first_str(
        first_str(opt_as_str(&request.metadata.media_title), opt_as_str(&request.metadata.title)),
        opt_as_str(&analyze.title),
    ) {
        Some(t) => t,
        None => "Online Media",
    };
    let original_title = first_str(opt_as_str(&request.metadata.title), opt_as_str(&analyze.title));
    let plot: Option<&str> = match raw {
        Some(v) => first_str(str_field(v, "description"), str_field(v, "fulltitle")),
        None => None,
    };
    let release_date = metadata_release_date(raw);
    let year: Option<String> = match &request.metadata.media_year {
        Some(y) => Some(y.clone()),
        None => match &release_date {
            Some(d) => {
                let dv = chars_of(d.as_str());
                let y = sub_chars(&dv, 0, 4);
                Some(string_of(&y))
            },
            None => None,
        },
    };
    let thumbnail_url = first_str(
        opt_as_str(&request.metadata.thumbnail_url),
        opt_as_str(&analyze.thumbnail_url),
    );
    let source_site = first_str(
        opt_as_str(&request.metadata.source_site),
        opt_as_str(&analyze.source_site),
    );
    let source_id = first_str(
        first_str(
            first_str(opt_as_str(&request.metadata.source_id), opt_as_str(&analyze.source_id)),
            opt_as_str(&request.metadata.external_id),
        ),
        opt_as_str(&analyze.external_id),
    );
    let uploader = first_str(opt_as_str(&request.metadata.uploader), opt_as_str(&analyze.uploader));
    let external_id = first_str(
        opt_as_str(&request.metadata.external_id),
        opt_as_str(&analyze.external_id),
    );
    let runtime = match request.metadata.duration_seconds {
        Some(d) => Some(d),
        None => analyze.duration_seconds,
    };

    let mut lines: Vec<String> = Vec::new();
    lines.push(String::from_str("<?xml version=\"1.0\" encoding=\"UTF-8\" standalone=\"yes\"?>"));
    lines.push(String::from_str("<movie>"));
    let escaped_title = escape_xml(title);
    lines.push(concat3("  <title>", escaped_title.as_str(), "</title>"));
    let ghost ls0 = crate::text::strings_view(lines@);
    proof {
        assert(ls0 =~= seq![
            "<?xml version=\"1.0\" encoding=\"UTF-8\" standalone=\"yes\"?>"@,
            "<movie>"@,
            "  <title>"@ + xml_escaped(nfo_title(*request, *analyze)) + "</title>"@,
        ]);
    }
    push_line(&mut lines, xml_tag("originaltitle", original_title));
    push_line(&mut lines, xml_tag("sorttitle", Some(title)));
    let plot_line = match plot {
        Some(p) => Some(concat3("  <plot><![CDATA[", p, "]]></plot>")),
        None => None,
    };
    push_line(&mut lines, plot_line);
    push_line(&mut lines, xml_tag("studio", source_site));
    push_line(&mut lines, xml_tag("director", uploader));
    push_line(&mut lines, xml_tag_number("runtime", runtime));
    let year_line = match &year {
        Some(y) => xml_tag("year", Some(y.as_str())),
        None => None,
    };
    push_line(&mut lines, year_line);
    let premiered_line = match &release_date {
        Some(d) => xml_tag("premiered", Some(d.as_str())),
        None => None,
    };
    push_line(&mut lines, premiered_line);
    let provider_id = opt_as_str(&request.provider_id);
    push_line(
        &mut lines,
        wrap_escaped("  <uniqueid type=\"provider\" default=\"true\">", provider_id, "</uniqueid>"),
    );
    let source_line = match source_id {
        Some(sid) => {
            let is_bilibili = match provider_id {
                Some(p) => crate::text::str_eq(p, "bilibili"),
                None => false,
            };
            let unique_id_type: &str = if is_bilibili {
                "bilibili"
            } else {
                match provider_id {
                    Some(p) => p,
                    None => "source",
                }
            };
            let t = escape_xml(unique_id_type);
            let v = escape_xml(sid);
            let head = concat3("  <uniqueid type=\"", t.as_str(), "\">");
            Some(concat3(head.as_str(), v.as_str(), "</uniqueid>"))
        },
        None => None,
    };
    push_line(&mut lines, source_line);
    let external_line = match external_id {
        Some(e) => {
            let same = match source_id {
                Some(sid) => crate::text::str_eq(e, sid),
                None => false,
            };
            if same {
                None
            } else {
                wrap_escaped("  <uniqueid type=\"external\">", Some(e), "</uniqueid>")
            }
        },
        None => None,
    };
    push_line(&mut lines, external_line);
    push_line(&mut lines, xml_tag("sourceurl", Some(request.url.as_str())));
    push_line(&mut lines, wrap_escaped("  <thumb aspect=\"poster\">", thumbnail_url, "</thumb>"));
    let ghost before_end = crate::text::strings_view(lines@);
    lines.push(String::from_str("</movie>"));
    proof {
        assert(crate::text::strings_view(lines@) =~= before_end + seq!["</movie>"@]);
        assert(crate::text::strings_view(lines@) =~= nfo_lines(*request, *analyze));
    }
    join_lines(&lines)
}

/// Whether a download gets a `.nfo` sidecar: not for music, and otherwise as the task
/// asks (yes unless it says no).
pub fn should_generate_nfo(request: &CreateTaskRequest) -> (r: bool)
    ensures
        r == (!is_music_req(*request) && match request.metadata.generate_nfo {
            Some(b) => b,
            None => true,
        }),
{
    if is_music_request(request) {
        return false;
    }
    match request.metadata.generate_nfo {
        Some(b) => b,
        None => true,
    }
}

/// Extensions of files that get no sidecar, compared in lower case.
pub open spec fn is_bookkeeping_ext(e: Seq<char>) -> bool {
    seq!["json"@, "nfo"@, "part"@, "tmp"@, "ytdl"@].contains(lower_seq(e))
}

pub open spec fn emits_sidecar_nfo(p: Seq<char>) -> bool {
    match path_extension(p) {
        Some(e) => !is_bookkeeping_ext(e),
        None => false,
    }
}

fn is_bookkeeping_extension(extension: &str) -> (r: bool)
    ensures
        r == is_bookkeeping_ext(extension@),
{
    let lower = lower_string(extension);
    let list = ["json", "nfo", "part", "tmp", "ytdl"];
    proof {
        assert(strs_view(list@) =~= seq!["json"@, "nfo"@, "part"@, "tmp"@, "ytdl"@]);
    }
    one_of(lower.as_str(), &list)
}

/// Whether an imported file gets a `.nfo` sidecar: a file with an extension that is not
/// one of the bookkeeping ones (`json`, `nfo`, `part`, `tmp`, `ytdl`).
pub fn should_emit_sidecar_nfo(path: &str) -> (r: bool)
    ensures
        r == emits_sidecar_nfo(path@),
{
    match extension_of(path) {
        Some(e) => !is_bookkeeping_extension(e.as_str()),
        None => false,
    }
}

/// The local directory a task downloads into: `staging_root/record_id/task_id`.
pub fn build_download_workspace_dir(staging_root: &str, record_id: &str, task_id: &str) -> (r:
    String)
    ensures
        r@ == path_join(path_join(staging_root@, record_id@), task_id@),
{
    let dir = join_path(staging_root, record_id);
    join_path(dir.as_str(), task_id)
}


/// Where an import goes: `dir`, or `fallback_if_exists` where that is given and `dir`
/// already exists.
pub struct ImportTarget {
    pub dir: String,
    pub fallback_if_exists: Option<String>,
}

pub open spec fn import_root(r: CreateTaskRequest) -> Seq<char> {
    r.target_folder_config_snapshot.target_path@
}

pub open spec fn is_online_video_req(r: CreateTaskRequest) -> bool {
    r.target_folder_config_snapshot.content_type@ == "online_video"@
}

pub open spec fn planned_import_dir(r: CreateTaskRequest, a: AnalyzeOnlineMediaResponse) -> Seq<char> {
    let root = import_root(r);
    let base = import_dir_name(r);
    if is_music_req(r) {
        music_target_dir(
            root,
            base,
            merged_music_of(r, a),
            or_else(opt_view(r.metadata.uploader), opt_view(a.uploader)),
        )
    } else if is_online_video_req(r) {
        match (
            opt_sanitized(opt_view(r.metadata.source_site)),
            opt_sanitized(or_else(opt_view(r.metadata.source_id), opt_view(r.metadata.external_id))),
        ) {
            (Some(site), Some(id)) => path_join(path_join(root, site), id),
            _ => path_join(root, base),
        }
    } else {
        path_join(root, base)
    }
}

/// `base [record id]` under the target root.
pub open spec fn import_fallback_dir(r: CreateTaskRequest) -> Seq<char> {
    path_join(import_root(r), import_dir_name(r) + " ["@ + r.record_id@ + "]"@)
}

pub open spec fn planned_fallback(r: CreateTaskRequest, a: AnalyzeOnlineMediaResponse) -> Option<
    Seq<char>,
> {
    if !is_music_req(r) && !is_online_video_req(r) {
        Some(import_fallback_dir(r))
    } else if is_music_req(r) && path_eq(
        planned_import_dir(r, a),
        path_join(import_root(r), import_dir_name(r)),
    ) {
        Some(import_fallback_dir(r))
    } else {
        None
    }
}

/// The folder an import goes to. Music goes to `artist/album (year)`; an online video
/// with a source site and id to `site/id`; anything else to the import directory name.
/// Where the result names a fallback, an existing folder is not reused: the import goes
/// to `name [record id]` instead.
pub fn plan_import_target(request: &CreateTaskRequest, analyze: &AnalyzeOnlineMediaResponse) -> (r:
    ImportTarget)
    requires
        task_raw_sliceable(*request, *analyze),
    ensures
        r.dir@ == planned_import_dir(*request, *analyze),
        opt_view(r.fallback_if_exists) == planned_fallback(*request, *analyze),
{
    let target_root = request.target_folder_config_snapshot.target_path.as_str();
    let base_name = build_import_dir_name(request);
    let music = is_music_request(request);
    let online_video = crate::text::str_eq(
        request.target_folder_config_snapshot.content_type.as_str(),
        "online_video",
    );
    let dir = if music {
        let music_metadata = merged_music_metadata(request, analyze);
        let fallback_artist = first_str(
            opt_as_str(&request.metadata.uploader),
            opt_as_str(&analyze.uploader),
        );
        build_music_target_dir(target_root, base_name.as_str(), &music_metadata, fallback_artist)
    } else if online_video {
        match (build_source_site_dir_name(request), build_source_id_dir_name(request)) {
            (Some(site), Some(id)) => {
                let d = join_path(target_root, site.as_str());
                join_path(d.as_str(), id.as_str())
            },
            _ => join_path(target_root, base_name.as_str()),
        }
    } else {
        join_path(target_root, base_name.as_str())
    };
    let mut name: Vec<char> = Vec::new();
    push_str(&mut name, base_name.as_str());
    push_str(&mut name, " [");
    push_str(&mut name, request.record_id.as_str());
    push_str(&mut name, "]");
    let fallback_name = string_of(&name);
    let fallback = join_path(target_root, fallback_name.as_str());
    let fallback_if_exists = if !music && !online_video {
        Some(fallback)
    } else if music {
        let base_dir = join_path(target_root, base_name.as_str());
        if paths_equal(dir.as_str(), base_dir.as_str()) {
            Some(fallback)
        } else {
            None
        }
    } else {
        None
    };
    ImportTarget { dir, fallback_if_exists }
}

pub open spec fn import_destination_of(
    r: CreateTaskRequest,
    m: MusicMetadataView,
    target_dir: Seq<char>,
    source: Seq<char>,
) -> Option<Seq<char>> {
    match path_file_name(source) {
        Some(name) => Some(
            if is_music_req(r) {
                path_join(
                    target_dir,
                    match music_output_name(source, m) {
                        Some(n) => n,
                        None => name,
                    },
                )
            } else {
                path_join(target_dir, name)
            },
        ),
        None => None,
    }
}

/// Where a downloaded file is copied: its own name in the target folder, or, for
/// music, its track name where [`build_music_output_name`] gives one. `None` for a
/// path without a file name, which is skipped.
pub fn import_destination(
    request: &CreateTaskRequest,
    music_metadata: &MusicMetadata,
    target_dir: &str,
    source_path: &str,
) -> (r: Option<String>)
    ensures
        opt_view(r) == import_destination_of(*request, music_metadata@, target_dir@, source_path@),
{
    let file_name = match file_name_of(source_path) {
        Some(n) => n,
        None => return None,
    };
    if is_music_request(request) {
        let name = match build_music_output_name(source_path, music_metadata) {
            Some(n) => n,
            None => file_name,
        };
        Some(join_path(target_dir, name.as_str()))
    } else {
        Some(join_path(target_dir, file_name.as_str()))
    }
}

/// The raw metadata a manifest records: the task's or the analysis's, else the
/// analysis warnings and the normalized URL.
pub open spec fn manifest_raw_view(r: CreateTaskRequest, a: AnalyzeOnlineMediaResponse) -> JsonView {
    match raw_of(r, a) {
        Some(v) => v.jview(),
        None => JsonView::Object(
            seq![
                ("warnings"@, JsonView::Array(Seq::new(a.warnings@.len(), |i: int| JsonView::Str(a.warnings@[i]@)))),
                (
                    "normalizedUrl"@,
                    match r.normalized_url {
                        Some(u) => JsonView::Str(u@),
                        None => JsonView::Null,
                    },
                ),
            ],
        ),
    }
}

pub open spec fn manifest_title(r: CreateTaskRequest, a: AnalyzeOnlineMediaResponse) -> Option<Seq<char>> {
    or_else(
        or_else(
            or_else(
                or_else(
                    or_else(opt_view(r.metadata.track_title), merged_music_of(r, a).title),
                    opt_view(r.metadata.media_title),
                ),
                opt_view(r.metadata.title),
            ),
            opt_view(a.track_title),
        ),
        opt_view(a.title),
    )
}

fn first_string_opt(a: &Option<String>, b: &Option<String>) -> (r: Option<String>)
    ensures
        opt_view(r) == or_else(opt_view(*a), opt_view(*b)),
{
    match a {
        Some(s) => Some(s.clone()),
        None => clone_opt(b),
    }
}

fn warnings_json(warnings: &Vec<String>) -> (r: JsonValue)
    ensures
        r.jview() == JsonView::Array(
            Seq::new(warnings@.len(), |i: int| JsonView::Str(warnings@[i]@)),
        ),
{
    let mut items: Vec<JsonValue> = Vec::new();
    let mut i: usize = 0;
    while i < warnings.len()
        invariant
            i <= warnings@.len(),
            items@.len() == i,
            forall|k: int| 0 <= k < i ==> (#[trigger] items@[k]).jview() == JsonView::Str(warnings@[k]@),
        decreases warnings@.len() - i,
    {
        items.push(JsonValue::Str(warnings[i].clone()));
        i = i + 1;
    }
    let r = JsonValue::Array(items);
    assert(r.jview()->Array_0 =~= Seq::new(warnings@.len(), |i: int| JsonView::Str(warnings@[i]@)));
    r
}

/// The manifest of a finished download: where it came from, what it is, the music
/// metadata, and the files it produced.
pub fn build_manifest(
    request: &CreateTaskRequest,
    analyze: &AnalyzeOnlineMediaResponse,
    output_files: Vec<OutputFile>,
) -> (r: Manifest)
    requires
        task_raw_sliceable(*request, *analyze),
    ensures
        r.source_url@ == request.url@,
        r.provider_id@ == (match request.provider_id {
            Some(p) => p@,
            None => "unknown"@,
        }),
        opt_view(r.source_site) == or_else(
            opt_view(request.metadata.source_site),
            opt_view(analyze.source_site),
        ),
        opt_view(r.source_id) == nfo_source_id(*request, *analyze),
        opt_view(r.title) == manifest_title(*request, *analyze),
        opt_view(r.original_title) == or_else(opt_view(request.metadata.title), opt_view(analyze.title)),
        opt_view(r.thumbnail_url) == or_else(
            opt_view(request.metadata.thumbnail_url),
            opt_view(analyze.thumbnail_url),
        ),
        opt_view(r.description) == (match raw_of(*request, *analyze) {
            Some(v) => json_str_field(v, "description"@),
            None => None,
        }),
        r.duration_seconds == or_else(request.metadata.duration_seconds, analyze.duration_seconds),
        opt_view(r.uploader) == or_else(opt_view(request.metadata.uploader), opt_view(analyze.uploader)),
        opt_view(r.artist) == merged_music_of(*request, *analyze).artist,
        opt_view(r.album_artist) == merged_music_of(*request, *analyze).album_artist,
        opt_view(r.album) == merged_music_of(*request, *analyze).album,
        opt_view(r.track_title) == merged_music_of(*request, *analyze).title,
        r.track_number == merged_music_of(*request, *analyze).track_number,
        r.disc_number == merged_music_of(*request, *analyze).disc_number,
        opt_view(r.genre) == merged_music_of(*request, *analyze).genre,
        opt_view(r.release_date) == or_else(
            merged_music_of(*request, *analyze).release_date,
            raw_release_date(raw_of(*request, *analyze)),
        ),
        opt_view(r.content_type) == Some(request.target_folder_config_snapshot.content_type@),
        opt_view(r.external_id) == nfo_external_id(*request, *analyze),
        r.output_files == output_files,
        r.artifacts@.len() == 0,
        r.raw_metadata is Some,
        r.raw_metadata->0.jview() == manifest_raw_view(*request, *analyze),
{
    let raw = raw_ref(request, analyze);
    let music = merged_music_metadata(request, analyze);
    let title = match &request.metadata.track_title {
        Some(t) => Some(t.clone()),
        None => match &music.title {
            Some(t) => Some(t.clone()),
            None => first_string_opt(
                &first_string_opt(&request.metadata.media_title, &request.metadata.title),
                &first_string_opt(&analyze.track_title, &analyze.title),
            ),
        },
    };
    let description = match raw {
        Some(v) => match str_field(v, "description") {
            Some(d) => Some(String::from_str(d)),
            None => None,
        },
        None => None,
    };
    let release_date = match &music.release_date {
        Some(d) => Some(d.clone()),
        None => metadata_release_date(raw),
    };
    let raw_metadata = match raw {
        Some(v) => clone_json(v),
        None => {
            let normalized = match &request.normalized_url {
                Some(u) => JsonValue::Str(u.clone()),
                None => JsonValue::Null,
            };
            let wk = String::from_str("warnings");
            let wv = warnings_json(&analyze.warnings);
            let nk = String::from_str("normalizedUrl");
            let ghost wvv = wv.jview();
            let ghost nvv = normalized.jview();
            let mut entries: Vec<(String, JsonValue)> = Vec::new();
            entries.push((wk, wv));
            entries.push((nk, normalized));
            let obj = JsonValue::Object(entries);
            proof {
                assert(raw_of(*request, *analyze) is None);
                let expected = manifest_raw_view(*request, *analyze)->Object_0;
                assert(expected[0] == ("warnings"@, wvv));
                assert(expected[1] == ("normalizedUrl"@, nvv));
                assert(obj.jview()->Object_0[0] == (entries@[0].0@, entries@[0].1.jview()));
                assert(obj.jview()->Object_0[1] == (entries@[1].0@, entries@[1].1.jview()));
                assert(obj.jview()->Object_0 =~= expected);
            }
            obj
        },
    };
    let source_id = match first_str(
        first_str(
            first_str(opt_as_str(&request.metadata.source_id), opt_as_str(&analyze.source_id)),
            opt_as_str(&request.metadata.external_id),
        ),
        opt_as_str(&analyze.external_id),
    ) {
        Some(s) => Some(String::from_str(s)),
        None => None,
    };
    Manifest {
        source_url: request.url.clone(),
        provider_id: match &request.provider_id {
            Some(p) => p.clone(),
            None => String::from_str("unknown"),
        },
        source_site: first_string_opt(&request.metadata.source_site, &analyze.source_site),
        source_id,
        title,
        original_title: first_string_opt(&request.metadata.title, &analyze.title),
        thumbnail_url: first_string_opt(&request.metadata.thumbnail_url, &analyze.thumbnail_url),
        description,
        duration_seconds: match request.metadata.duration_seconds {
            Some(d) => Some(d),
            None => analyze.duration_seconds,
        },
        uploader: first_string_opt(&request.metadata.uploader, &analyze.uploader),
        artist: clone_opt(&music.artist),
        album_artist: clone_opt(&music.album_artist),
        album: clone_opt(&music.album),
        track_title: clone_opt(&music.title),
        track_number: music.track_number,
        disc_number: music.disc_number,
        genre: clone_opt(&music.genre),
        release_date,
        content_type: Some(request.target_folder_config_snapshot.content_type.clone()),
        external_id: first_string_opt(&request.metadata.external_id, &analyze.external_id),
        output_files,
        artifacts: Vec::new(),
        raw_metadata: Some(raw_metadata),
    }
}

/// The file names that get a `.nfo` sidecar, in the order of `files`.
pub open spec fn sidecar_nfo_paths_of(files: Seq<OutputFile>, target_dir: Seq<char>) -> Seq<Seq<char>>
    decreases files.len(),
{
    if files.len() == 0 {
        Seq::<Seq<char>>::empty()
    } else {
        let rest = sidecar_nfo_paths_of(files.drop_last(), target_dir);
        let p = files.last().path@;
        if emits_sidecar_nfo(p) {
            match path_file_stem(p) {
                Some(stem) => rest.push(path_join(target_dir, stem + ".nfo"@)),
                None => rest,
            }
        } else {
            rest
        }
    }
}

/// The `.nfo` files to write beside the imported media: `stem.nfo` in the target
/// folder for each file that [`should_emit_sidecar_nfo`] accepts.
pub fn sidecar_nfo_paths(files: &Vec<OutputFile>, target_dir: &str) -> (r: Vec<String>)
    ensures
        crate::text::strings_view(r@) == sidecar_nfo_paths_of(files@, target_dir@),
{
    let mut out: Vec<String> = Vec::new();
    let mut i: usize = 0;
    while i < files.len()
        invariant
            i <= files@.len(),
            crate::text::strings_view(out@) == sidecar_nfo_paths_of(files@.take(i as int), target_dir@),
        decreases files@.len() - i,
    {
        let ghost before = out@;
        proof {
            assert(files@.take(i as int + 1).drop_last() =~= files@.take(i as int));
        }
        let path = files[i].path.as_str();
        if should_emit_sidecar_nfo(path) {
            match file_stem_of(path) {
                Some(stem) => {
                    let mut name: Vec<char> = Vec::new();
                    push_str(&mut name, stem.as_str());
                    push_str(&mut name, ".nfo");
                    let n = string_of(&name);
                    out.push(join_path(target_dir, n.as_str()));
                    assert(crate::text::strings_view(out@) =~= crate::text::strings_view(before).push(
                        out@.last()@,
                    ));
                },
                None => {},
            }
        }
        i = i + 1;
    }
    assert(files@.take(files@.len() as int) =~= files@);
    out
}


/// The steps of a download task, in the order they run.
#[derive(Debug, Clone, Copy, PartialEq, Eq, Structural)]
pub enum TaskStep {
    CreateWorkspace,
    Analyze,
    Download,
    FetchThumbnail,
    CollectOutputs,
    Import,
    ThumbnailSidecars,
    NfoSidecars,
    WriteManifest,
}

/// What a task does after a step.
#[derive(Debug)]
pub enum TaskNext {
    /// Run this step next.
    Run(TaskStep),
    /// The task fails with this error.
    Fail(String),
    /// The task is complete.
    Complete,
}

pub open spec fn step_after(step: TaskStep) -> Option<TaskStep> {
    match step {
        TaskStep::CreateWorkspace => Some(TaskStep::Analyze),
        TaskStep::Analyze => Some(TaskStep::Download),
        TaskStep::Download => Some(TaskStep::FetchThumbnail),
        TaskStep::FetchThumbnail => Some(TaskStep::CollectOutputs),
        TaskStep::CollectOutputs => Some(TaskStep::Import),
        TaskStep::Import => Some(TaskStep::ThumbnailSidecars),
        TaskStep::ThumbnailSidecars => Some(TaskStep::NfoSidecars),
        TaskStep::NfoSidecars => Some(TaskStep::WriteManifest),
        TaskStep::WriteManifest => None,
    }
}

/// The stage a task reports as a step begins, with its progress in percent.
pub open spec fn stage_before_spec(step: TaskStep) -> Option<(Seq<char>, u64)> {
    match step {
        TaskStep::CreateWorkspace => Some(("preparing"@, 5)),
        TaskStep::Analyze => Some(("analyzing"@, 15)),
        TaskStep::Download => Some(("downloading"@, 0)),
        TaskStep::Import => Some(("importing"@, 92)),
        _ => None,
    }
}

/// The stage a task reports as a step begins, with its progress in percent.
pub fn stage_before(step: TaskStep) -> (r: Option<(&'static str, u64)>)
    ensures
        match r {
            Some((s, p)) => stage_before_spec(step) == Some((s@, p)),
            None => stage_before_spec(step) is None,
        },
{
    match step {
        TaskStep::CreateWorkspace => Some(("preparing", 5)),
        TaskStep::Analyze => Some(("analyzing", 15)),
        TaskStep::Download => Some(("downloading", 0)),
        TaskStep::Import => Some(("importing", 92)),
        _ => None,
    }
}

/// The stage a task reports after a download succeeds: `packaging` at 85%.
pub fn stage_after_download() -> (r: (&'static str, u64))
    ensures
        r.0@ == "packaging"@,
        r.1 == 85,
{
    ("packaging", 85)
}

/// What follows a step: its error fails the task, except a failed thumbnail download,
/// which is passed over; after success the next step runs, and after the manifest the
/// task is complete.
pub fn next_after(step: TaskStep, outcome: Result<(), String>) -> (r: TaskNext)
    ensures
        match outcome {
            Err(e) => if step == TaskStep::FetchThumbnail {
                r == TaskNext::Run(TaskStep::CollectOutputs)
            } else {
                r matches TaskNext::Fail(m) && m == e
            },
            Ok(()) => match step_after(step) {
                Some(next) => r == TaskNext::Run(next),
                None => r == TaskNext::Complete,
            },
        },
{
    match outcome {
        Err(e) => {
            if step == TaskStep::FetchThumbnail {
                TaskNext::Run(TaskStep::CollectOutputs)
            } else {
                TaskNext::Fail(e)
            }
        },
        Ok(()) => match step {
            TaskStep::CreateWorkspace => TaskNext::Run(TaskStep::Analyze),
            TaskStep::Analyze => TaskNext::Run(TaskStep::Download),
            TaskStep::Download => TaskNext::Run(TaskStep::FetchThumbnail),
            TaskStep::FetchThumbnail => TaskNext::Run(TaskStep::CollectOutputs),
            TaskStep::CollectOutputs => TaskNext::Run(TaskStep::Import),
            TaskStep::Import => TaskNext::Run(TaskStep::ThumbnailSidecars),
            TaskStep::ThumbnailSidecars => TaskNext::Run(TaskStep::NfoSidecars),
            TaskStep::NfoSidecars => TaskNext::Run(TaskStep::WriteManifest),
            TaskStep::WriteManifest => TaskNext::Complete,
        },
    }
}

/// The error of a workspace that could not be created.
pub fn workspace_error(staging_dir: &str, err: &str) -> (r: String)
    ensures
        r@ == "failed to create download workspace "@ + staging_dir@ + ": "@ + err@,
{
    let mut m: Vec<char> = Vec::new();
    push_str(&mut m, "failed to create download workspace ");
    push_str(&mut m, staging_dir);
    push_str(&mut m, ": ");
    push_str(&mut m, err);
    string_of(&m)
}


/// `a` sorts no later than `b`: character by character by code point, a prefix first
/// (the order of `String`'s `cmp`, UTF-8 keeping the order of code points).
pub open spec fn text_le(a: Seq<char>, b: Seq<char>) -> bool
    decreases a.len(),
{
    if a.len() == 0 {
        true
    } else if b.len() == 0 {
        false
    } else if a[0] != b[0] {
        a[0] < b[0]
    } else {
        text_le(a.drop_first(), b.drop_first())
    }
}

pub open spec fn text_lt(a: Seq<char>, b: Seq<char>) -> bool {
    !text_le(b, a)
}

/// The position at which `x` goes among `s` (from `k` on): before the first file whose
/// path sorts after `x`'s, so that files with equal paths keep their order.
pub open spec fn insert_position(s: Seq<OutputFile>, x: OutputFile, k: int) -> int
    decreases s.len() - k,
{
    if k >= s.len() || k < 0 {
        s.len() as int
    } else if text_lt(x.path@, s[k].path@) {
        k
    } else {
        insert_position(s, x, k + 1)
    }
}

/// Files in order of their paths, files with equal paths in their original order
/// (what a stable sort by path gives).
pub open spec fn sorted_by_path(s: Seq<OutputFile>) -> Seq<OutputFile>
    decreases s.len(),
{
    if s.len() == 0 {
        s
    } else {
        let rest = sorted_by_path(s.drop_last());
        rest.insert(insert_position(rest, s.last(), 0), s.last())
    }
}

fn text_le_exec(a: &str, b: &str) -> (r: bool)
    ensures
        r == text_le(a@, b@),
{
    let av = chars_of(a);
    let bv = chars_of(b);
    let mut i: usize = 0;
    assert(av@.skip(0) =~= av@);
    assert(bv@.skip(0) =~= bv@);
    while i < av.len() && i < bv.len() && av[i] == bv[i]
        invariant
            i <= av@.len(),
            i <= bv@.len(),
            av@ == a@,
            bv@ == b@,
            text_le(a@, b@) == text_le(av@.skip(i as int), bv@.skip(i as int)),
        decreases av@.len() - i,
    {
        proof {
            assert(av@.skip(i as int).drop_first() =~= av@.skip(i as int + 1));
            assert(bv@.skip(i as int).drop_first() =~= bv@.skip(i as int + 1));
        }
        i = i + 1;
    }
    if i == av.len() {
        return true;
    }
    if i == bv.len() {
        return false;
    }
    proof {
        assert(av@.skip(i as int)[0] == av@[i as int]);
        assert(bv@.skip(i as int)[0] == bv@[i as int]);
    }
    av[i] < bv[i]
}

/// Sorts imported files by path, keeping files with equal paths in their order (a
/// stable sort, as `sort_by` on the path is).
pub fn sort_output_files(files: &mut Vec<OutputFile>)
    ensures
        final(files)@ == sorted_by_path(old(files)@),
{
    let ghost input = files@;
    let mut out: Vec<OutputFile> = Vec::new();
    let mut i: usize = 0;
    let n = files.len();
    while files.len() > 0
        invariant
            files@ == input.skip(i as int),
            i <= n == input.len(),
            out@ == sorted_by_path(input.take(i as int)),
        decreases files@.len(),
    {
        let x = files.remove(0);
        proof {
            assert(input.take(i as int + 1).drop_last() =~= input.take(i as int));
            assert(input.take(i as int + 1).last() == x);
            assert(files@ =~= input.skip(i as int + 1));
        }
        let mut k: usize = 0;
        while k < out.len() && !text_lt_exec(x.path.as_str(), out[k].path.as_str())
            invariant
                k <= out@.len(),
                insert_position(out@, x, 0) == insert_position(out@, x, k as int),
            decreases out@.len() - k,
        {
            k = k + 1;
        }
        proof {
            if k < out@.len() {
                assert(insert_position(out@, x, k as int) == k);
            }
        }
        out.insert(k, x);
        i = i + 1;
    }
    proof {
        assert(input.take(n as int) =~= input);
    }
    *files = out;
}

fn text_lt_exec(a: &str, b: &str) -> (r: bool)
    ensures
        r == text_lt(a@, b@),
{
    !text_le_exec(b, a)
}


proof fn lemma_text_le_total(a: Seq<char>, b: Seq<char>)
    ensures
        text_le(a, b) || text_le(b, a),
    decreases a.len(),
{
    if a.len() > 0 && b.len() > 0 && a[0] == b[0] {
        lemma_text_le_total(a.drop_first(), b.drop_first());
    }
}

proof fn lemma_text_le_trans(a: Seq<char>, b: Seq<char>, c: Seq<char>)
    requires
        text_le(a, b),
        text_le(b, c),
    ensures
        text_le(a, c),
    decreases a.len(),
{
    if a.len() > 0 && b.len() > 0 && c.len() > 0 && a[0] == b[0] && b[0] == c[0] {
        lemma_text_le_trans(a.drop_first(), b.drop_first(), c.drop_first());
    }
}

/// Files whose paths are in order.
pub open spec fn paths_sorted(s: Seq<OutputFile>) -> bool {
    forall|i: int, j: int| 0 <= i < j < s.len() ==> text_le(#[trigger] s[i].path@, #[trigger] s[j].path@)
}

proof fn lemma_insert_position(s: Seq<OutputFile>, x: OutputFile, k: int)
    requires
        0 <= k <= s.len(),
        forall|i: int| 0 <= i < k ==> !text_lt(x.path@, #[trigger] s[i].path@),
    ensures
        k <= insert_position(s, x, k) <= s.len(),
        forall|i: int| 0 <= i < insert_position(s, x, k) ==> !text_lt(x.path@, #[trigger] s[i].path@),
        insert_position(s, x, k) < s.len() ==> text_lt(x.path@, s[insert_position(s, x, k)].path@),
    decreases s.len() - k,
{
    if k < s.len() && !text_lt(x.path@, s[k].path@) {
        lemma_insert_position(s, x, k + 1);
    }
}

/// Sorting keeps the files (as a multiset) and puts their paths in order.
pub proof fn law_sorted_by_path(s: Seq<OutputFile>)
    ensures
        sorted_by_path(s).to_multiset() == s.to_multiset(),
        paths_sorted(sorted_by_path(s)),
    decreases s.len(),
{
    broadcast use vstd::seq_lib::to_multiset_insert, vstd::seq_lib::to_multiset_build;

    if s.len() > 0 {
        let rest = sorted_by_path(s.drop_last());
        let x = s.last();
        law_sorted_by_path(s.drop_last());
        lemma_insert_position(rest, x, 0);
        let k = insert_position(rest, x, 0);
        let r = rest.insert(k, x);
        assert(s.drop_last().push(x) =~= s);
        assert(r.to_multiset() == rest.to_multiset().insert(x));
        assert forall|i: int, j: int| 0 <= i < j < r.len() implies text_le(
            #[trigger] r[i].path@,
            #[trigger] r[j].path@,
        ) by {
            if j < k {
                assert(r[i] == rest[i] && r[j] == rest[j]);
            } else if j == k {
                assert(r[i] == rest[i]);
                assert(!text_lt(x.path@, rest[i].path@));
            } else if i < k {
                assert(r[i] == rest[i] && r[j] == rest[j - 1]);
            } else if i == k {
                assert(r[j] == rest[j - 1]);
                assert(text_lt(x.path@, rest[k].path@));
                lemma_text_le_total(x.path@, rest[k].path@);
                if k < j - 1 {
                    lemma_text_le_trans(x.path@, rest[k].path@, rest[j - 1].path@);
                }
            } else {
                assert(r[i] == rest[i - 1] && r[j] == rest[j - 1]);
            }
        }
    }
}


pub open spec fn opt_json_view(o: Option<JsonValue>) -> Option<JsonView> {
    match o {
        Some(v) => Some(v.jview()),
        None => None,
    }
}

/// The same task metadata: equal fields, the raw metadata as the same document.
pub open spec fn same_metadata(a: TaskMetadataInput, b: TaskMetadataInput) -> bool {
    &&& a.title == b.title
    &&& a.media_title == b.media_title
    &&& a.media_year == b.media_year
    &&& a.thumbnail_url == b.thumbnail_url
    &&& a.duration_seconds == b.duration_seconds
    &&& a.uploader == b.uploader
    &&& a.artist == b.artist
    &&& a.album_artist == b.album_artist
    &&& a.album == b.album
    &&& a.track_title == b.track_title
    &&& a.track_number == b.track_number
    &&& a.disc_number == b.disc_number
    &&& a.genre == b.genre
    &&& a.release_date == b.release_date
    &&& a.source_id == b.source_id
    &&& a.external_id == b.external_id
    &&& a.source_site == b.source_site
    &&& a.generate_nfo == b.generate_nfo
    &&& opt_json_view(a.raw_metadata) == opt_json_view(b.raw_metadata)
}

fn clone_metadata(m: &TaskMetadataInput) -> (r: TaskMetadataInput)
    ensures
        same_metadata(r, *m),
{
    TaskMetadataInput {
        title: clone_opt(&m.title),
        media_title: clone_opt(&m.media_title),
        media_year: clone_opt(&m.media_year),
        thumbnail_url: clone_opt(&m.thumbnail_url),
        duration_seconds: m.duration_seconds,
        uploader: clone_opt(&m.uploader),
        artist: clone_opt(&m.artist),
        album_artist: clone_opt(&m.album_artist),
        album: clone_opt(&m.album),
        track_title: clone_opt(&m.track_title),
        track_number: m.track_number,
        disc_number: m.disc_number,
        genre: clone_opt(&m.genre),
        release_date: clone_opt(&m.release_date),
        source_id: clone_opt(&m.source_id),
        external_id: clone_opt(&m.external_id),
        source_site: clone_opt(&m.source_site),
        generate_nfo: m.generate_nfo,
        raw_metadata: match &m.raw_metadata {
            Some(v) => Some(clone_json(v)),
            None => None,
        },
    }
}

fn clone_snapshot(s: &TargetFolderConfigSnapshot) -> (r: TargetFolderConfigSnapshot)
    ensures
        r == *s,
{
    TargetFolderConfigSnapshot {
        id: s.id.clone(),
        content_type: s.content_type.clone(),
        download_path: s.download_path.clone(),
        target_path: s.target_path.clone(),
        link_mode: s.link_mode.clone(),
        organize_lang: clone_opt(&s.organize_lang),
    }
}

fn clone_auth(a: &Option<TaskAuthInput>) -> (r: Option<TaskAuthInput>)
    ensures
        r == *a,
{
    match a {
        Some(x) => Some(TaskAuthInput { cookie_header: clone_opt(&x.cookie_header) }),
        None => None,
    }
}

/// The task a batch item makes: the item's URL, provider, metadata, record id and
/// audio choices, with the batch's library, folder and cookies, and no normalized URL.
pub open spec fn batch_task_of(b: BatchCreateTasksRequest, i: int, r: CreateTaskRequest) -> bool {
    let item = b.items@[i];
    &&& r.record_id == item.record_id
    &&& r.url == item.url
    &&& r.normalized_url is None
    &&& r.provider_id == item.provider_id
    &&& r.auth == b.auth
    &&& r.audio_only == item.audio_only
    &&& r.audio_container == item.audio_container
    &&& r.target_library_id == b.target_library_id
    &&& r.target_folder_config_snapshot == b.target_folder_config_snapshot
    &&& same_metadata(r.metadata, item.metadata)
}

/// The tasks of a batch request, one per item, in order; see [`batch_task_of`].
pub fn batch_task_requests(input: &BatchCreateTasksRequest) -> (r: Vec<CreateTaskRequest>)
    ensures
        r@.len() == input.items@.len(),
        forall|i: int| 0 <= i < r@.len() ==> batch_task_of(*input, i, #[trigger] r@[i]),
{
    let mut out: Vec<CreateTaskRequest> = Vec::new();
    let mut i: usize = 0;
    while i < input.items.len()
        invariant
            i <= input.items@.len(),
            out@.len() == i,
            forall|k: int| 0 <= k < i ==> batch_task_of(*input, k, #[trigger] out@[k]),
        decreases input.items@.len() - i,
    {
        let item = &input.items[i];
        out.push(
            CreateTaskRequest {
                record_id: item.record_id.clone(),
                url: item.url.clone(),
                normalized_url: None,
                provider_id: clone_opt(&item.provider_id),
                auth: clone_auth(&input.auth),
                audio_only: item.audio_only,
                audio_container: clone_opt(&item.audio_container),
                target_library_id: input.target_library_id.clone(),
                target_folder_config_snapshot: clone_snapshot(&input.target_folder_config_snapshot),
                metadata: clone_metadata(&item.metadata),
            },
        );
        i = i + 1;
    }
    out
}


/// Where the metadata has an album artist, the music folder lies under the sanitised
/// album artist, right below the target root, whatever the track artist and the
/// fallback are: the album's folder inside it where there is an album, else that
/// folder itself.
pub proof fn law_album_artist_names_the_folder(
    root: Seq<char>,
    base: Seq<char>,
    m: MusicMetadataView,
    fallback_artist: Option<Seq<char>>,
    album_artist: Seq<char>,
)
    requires
        m.album_artist == Some(album_artist),
    ensures
        m.album is None ==> music_target_dir(root, base, m, fallback_artist) == path_join(
            root,
            sanitized_component(album_artist),
        ),
        m.album is Some ==> exists|tail: Seq<char>|
            music_target_dir(root, base, m, fallback_artist) == path_join(
                path_join(root, sanitized_component(album_artist)),
                tail,
            ),
{
    let dir = path_join(root, sanitized_component(album_artist));
    let r = music_target_dir(root, base, m, fallback_artist);
    if let Some(al) = m.album {
        let album = sanitized_component(al);
        let tail = match m.release_date {
            Some(d) => match byte_prefix(d, 4) {
                Some(y) => album + " ("@ + y + ")"@,
                None => album,
            },
            None => album,
        };
        assert(r == path_join(dir, tail));
    }
}

} // verus!
