//! Subtitles from assrt: how a language or format label is read, how a file is scored
//! against the wanted language, how archives are named and recognised, the download
//! links of a detail page, and the search results of a result page.
use vstd::prelude::*;
use crate::models::{SubtitleDownloadRequest, SubtitleSearchRequest, SubtitleSearchResult};
use crate::html::{
    HtmlPage, css_error, css_parse_error, html_inner_attrs, html_inner_texts, html_matches,
    nested_opts_view, nested_strings_view, parse_page, select_inner_attrs, select_inner_texts,
    select_markup,
};
use crate::paths::{join_path, path_join};
use crate::regexes::{
    groups_view, matches_view, regex_all_captures, regex_captures_all, regex_captures_first,
    regex_first_captures,
};
use crate::urls::{form_encode, form_encoded, url_extended, url_with_segments};
use crate::text::{
    after_last, after_last_char, chars_of, contains_char, contains_chars, contains_seq, is_ws,
    is_ws_char, lower_chars, lower_seq, lower_string, opt_view, push_all, push_str, str_eq,
    string_of, strings_view, sub_chars, trim, trim_chars,
};

verus! {

/// `s` without its white space (`split_whitespace().collect()`).
pub open spec fn without_ws(s: Seq<char>) -> Seq<char>
    decreases s.len(),
{
    if s.len() == 0 {
        s
    } else if is_ws(s.last()) {
        without_ws(s.drop_last())
    } else {
        without_ws(s.drop_last()).push(s.last())
    }
}

/// The language code an assrt language label stands for.
pub open spec fn language_code(text: Seq<char>) -> Seq<char> {
    let n = without_ws(text);
    if n.contains('简') {
        "zh-CN"@
    } else if n.contains('繁') {
        "zh-TW"@
    } else if contains_seq(n, "双语"@) || contains_seq(n, "雙語"@) {
        "zh"@
    } else if n.contains('英') {
        "en"@
    } else if n.contains('日') {
        "ja"@
    } else if n.contains('韩') || n.contains('韓') {
        "ko"@
    } else {
        "zh"@
    }
}

fn remove_ws(v: &[char]) -> (r: Vec<char>)
    ensures
        r@ == without_ws(v@),
{
    let mut r: Vec<char> = Vec::new();
    let mut i: usize = 0;
    while i < v.len()
        invariant
            i <= v@.len(),
            r@ == without_ws(v@.take(i as int)),
        decreases v@.len() - i,
    {
        proof {
            assert(v@.take(i as int + 1).drop_last() =~= v@.take(i as int));
        }
        if !is_ws_char(v[i]) {
            r.push(v[i]);
        }
        i = i + 1;
    }
    assert(v@.take(v@.len() as int) =~= v@);
    r
}

/// The language code of an assrt language label: simplified or traditional Chinese,
/// bilingual Chinese, English, Japanese or Korean by the characters it holds, and
/// Chinese otherwise.
pub fn normalize_language(language_text: &str) -> (r: String)
    ensures
        r@ == language_code(language_text@),
{
    let v = chars_of(language_text);
    let n = remove_ws(&v);
    if contains_char(&n, '简') {
        return String::from_str("zh-CN");
    }
    if contains_char(&n, '繁') {
        return String::from_str("zh-TW");
    }
    let shuangyu = chars_of("双语");
    let shuangyu_t = chars_of("雙語");
    if contains_chars(&n, &shuangyu) || contains_chars(&n, &shuangyu_t) {
        return String::from_str("zh");
    }
    if contains_char(&n, '英') {
        return String::from_str("en");
    }
    if contains_char(&n, '日') {
        return String::from_str("ja");
    }
    if contains_char(&n, '韩') || contains_char(&n, '韓') {
        return String::from_str("ko");
    }
    String::from_str("zh")
}

/// The text after the last `.` (all of it without one): `rsplit('.').next()`.
pub open spec fn last_dot_part(s: Seq<char>) -> Seq<char> {
    s.skip(after_last(s, '.'))
}

/// The subtitle format a label or file name names: `srt`, `ass`, `ssa` or `vtt`, by the
/// format's name or by the extension.
pub open spec fn format_code(text: Seq<char>) -> Option<Seq<char>> {
    let l = lower_seq(trim(text));
    if l.len() == 0 {
        None
    } else if contains_seq(l, "subrip"@) || l == "srt"@ {
        Some("srt"@)
    } else if contains_seq(l, "advanced substation alpha"@) || l == "ass"@ {
        Some("ass"@)
    } else if contains_seq(l, "substation alpha"@) || l == "ssa"@ {
        Some("ssa"@)
    } else if contains_seq(l, "webvtt"@) || l == "vtt"@ {
        Some("vtt"@)
    } else if last_dot_part(l) == "srt"@ {
        Some("srt"@)
    } else if last_dot_part(l) == "ass"@ {
        Some("ass"@)
    } else if last_dot_part(l) == "ssa"@ {
        Some("ssa"@)
    } else if last_dot_part(l) == "vtt"@ {
        Some("vtt"@)
    } else {
        None
    }
}

/// The subtitle format of a label or file name; see [`format_code`].
pub fn normalize_format(format_text: &str) -> (r: Option<String>)
    ensures
        opt_view(r) == format_code(format_text@),
{
    let v = chars_of(format_text);
    let t = trim_chars(&v);
    let lv = lower_chars(&t);
    if lv.len() == 0 {
        return None;
    }
    let l = string_of(&lv);
    let ls = l.as_str();
    if crate::text::str_contains(ls, "subrip") || str_eq(ls, "srt") {
        return Some(String::from_str("srt"));
    }
    if crate::text::str_contains(ls, "advanced substation alpha") || str_eq(ls, "ass") {
        return Some(String::from_str("ass"));
    }
    if crate::text::str_contains(ls, "substation alpha") || str_eq(ls, "ssa") {
        return Some(String::from_str("ssa"));
    }
    if crate::text::str_contains(ls, "webvtt") || str_eq(ls, "vtt") {
        return Some(String::from_str("vtt"));
    }
    let k = after_last_char(&lv, '.');
    let last_v = sub_chars(&lv, k, lv.len());
    let last = string_of(&last_v);
    let ext = last.as_str();
    if str_eq(ext, "srt") {
        Some(String::from_str("srt"))
    } else if str_eq(ext, "ass") {
        Some(String::from_str("ass"))
    } else if str_eq(ext, "ssa") {
        Some(String::from_str("ssa"))
    } else if str_eq(ext, "vtt") {
        Some(String::from_str("vtt"))
    } else {
        None
    }
}

/// Whether a subtitle language is among the wanted ones: always without a wish;
/// otherwise when listed, and plain Chinese matches any Chinese wish and a Chinese
/// variant matches a plain Chinese wish.
pub open spec fn language_wanted(language: Seq<char>, preferred: Option<Seq<Seq<char>>>) -> bool {
    match preferred {
        None => true,
        Some(ps) => {
            ||| ps.len() == 0
            ||| ps.contains(language)
            ||| (language == "zh"@ && exists|i: int| 0 <= i < ps.len() && "zh"@.is_prefix_of(#[trigger] ps[i]))
            ||| (language != "zh"@ && "zh-"@.is_prefix_of(language) && ps.contains("zh"@))
        },
    }
}

/// Whether a subtitle language is among the wanted ones; see [`language_wanted`].
pub fn matches_preferred_language(language: &str, preferred_languages: Option<&[String]>) -> (r:
    bool)
    ensures
        r == language_wanted(
            language@,
            match preferred_languages {
                Some(p) => Some(strings_view(p@)),
                None => None,
            },
        ),
{
    let preferred = match preferred_languages {
        None => return true,
        Some(p) => p,
    };
    if preferred.len() == 0 {
        return true;
    }
    if contains_string(preferred, language) {
        return true;
    }
    if str_eq(language, "zh") {
        return any_starts_with(preferred, "zh");
    }
    let lang_v = chars_of(language);
    let zh_dash = chars_of("zh-");
    if crate::text::starts_with_chars(&lang_v, &zh_dash) {
        return contains_string(preferred, "zh");
    }
    false
}

fn contains_string(list: &[String], s: &str) -> (r: bool)
    ensures
        r == strings_view(list@).contains(s@),
{
    let ghost ps = strings_view(list@);
    let mut i: usize = 0;
    while i < list.len()
        invariant
            i <= list@.len(),
            ps == strings_view(list@),
            forall|k: int| 0 <= k < i ==> ps[k] != s@,
        decreases list@.len() - i,
    {
        if str_eq(list[i].as_str(), s) {
            proof {
                assert(ps[i as int] == s@);
            }
            return true;
        }
        i = i + 1;
    }
    proof {
        if ps.contains(s@) {
            let k = choose|k: int| 0 <= k < ps.len() && ps[k] == s@;
            assert(ps[k] != s@);
        }
    }
    false
}

fn any_starts_with(list: &[String], prefix: &str) -> (r: bool)
    ensures
        r == exists|i: int|
            0 <= i < list@.len() && prefix@.is_prefix_of(#[trigger] strings_view(list@)[i]),
{
    let ghost ps = strings_view(list@);
    let pv = chars_of(prefix);
    let mut j: usize = 0;
    while j < list.len()
        invariant
            j <= list@.len(),
            ps == strings_view(list@),
            pv@ == prefix@,
            forall|k: int| 0 <= k < j ==> !prefix@.is_prefix_of(#[trigger] ps[k]),
        decreases list@.len() - j,
    {
        let lv = chars_of(list[j].as_str());
        proof {
            assert(ps[j as int] == list@[j as int]@);
        }
        if crate::text::starts_with_chars(&lv, &pv) {
            return true;
        }
        j = j + 1;
    }
    false
}

/// The language part of a subtitle file's score: how well its name fits the wanted
/// language.
pub open spec fn language_score(name: Seq<char>, preferred: Seq<char>) -> int {
    let lower = lower_seq(name);
    let bilingual = contains_seq(name, "双语"@) || contains_seq(name, "雙語"@);
    if preferred == "zh-CN"@ {
        (if contains_seq(lower, "chs"@) || name.contains('简') {
            40int
        } else {
            0int
        }) + (if contains_seq(lower, "eng"@) || bilingual {
            10int
        } else {
            0int
        })
    } else if preferred == "zh-TW"@ {
        (if contains_seq(lower, "cht"@) || name.contains('繁') {
            40int
        } else {
            0int
        }) + (if contains_seq(lower, "eng"@) || bilingual {
            10int
        } else {
            0int
        })
    } else if preferred == "en"@ {
        if contains_seq(lower, "eng"@) || contains_seq(name, "英文"@) {
            40int
        } else {
            0int
        }
    } else if preferred == "ja"@ {
        if contains_seq(lower, "jpn"@) || name.contains('日') {
            40int
        } else {
            0int
        }
    } else if preferred == "ko"@ {
        if contains_seq(lower, "kor"@) || name.contains('韩') || name.contains('韓') {
            40int
        } else {
            0int
        }
    } else if contains_seq(lower, "chs"@) || contains_seq(lower, "cht"@) || bilingual {
        20int
    } else {
        0int
    }
}

/// The format part of a subtitle file's score: SRT first, then ASS, SSA and VTT.
pub open spec fn format_score(format: Seq<char>) -> int {
    if format == "srt"@ {
        8
    } else if format == "ass"@ {
        6
    } else if format == "ssa"@ {
        4
    } else if format == "vtt"@ {
        2
    } else {
        0
    }
}

/// How well a subtitle file fits: its language score plus its format score.
pub fn score_subtitle_name(name: &str, format: &str, preferred_language: &str) -> (r: i32)
    ensures
        r == language_score(name@, preferred_language@) + format_score(format@),
{
    let nv = chars_of(name);
    let lv = lower_chars(&nv);
    let lower = string_of(&lv);
    let l = lower.as_str();
    let bilingual = crate::text::str_contains(name, "双语") || crate::text::str_contains(name, "雙語");
    let mut score: i32 = 0;
    if str_eq(preferred_language, "zh-CN") {
        if crate::text::str_contains(l, "chs") || contains_char(&nv, '简') {
            score = score + 40;
        }
        if crate::text::str_contains(l, "eng") || bilingual {
            score = score + 10;
        }
    } else if str_eq(preferred_language, "zh-TW") {
        if crate::text::str_contains(l, "cht") || contains_char(&nv, '繁') {
            score = score + 40;
        }
        if crate::text::str_contains(l, "eng") || bilingual {
            score = score + 10;
        }
    } else if str_eq(preferred_language, "en") {
        if crate::text::str_contains(l, "eng") || crate::text::str_contains(name, "英文") {
            score = score + 40;
        }
    } else if str_eq(preferred_language, "ja") {
        if crate::text::str_contains(l, "jpn") || contains_char(&nv, '日') {
            score = score + 40;
        }
    } else if str_eq(preferred_language, "ko") {
        if crate::text::str_contains(l, "kor") || contains_char(&nv, '韩') || contains_char(
            &nv,
            '韓',
        ) {
            score = score + 40;
        }
    } else if crate::text::str_contains(l, "chs") || crate::text::str_contains(l, "cht")
        || bilingual {
        score = score + 20;
    }
    let bonus: i32 = if str_eq(format, "srt") {
        8
    } else if str_eq(format, "ass") {
        6
    } else if str_eq(format, "ssa") {
        4
    } else if str_eq(format, "vtt") {
        2
    } else {
        0
    };
    score + bonus
}

/// The last `/`-separated part of a path, or `fallback` where that is empty.
pub open spec fn file_name_part(path: Seq<char>, fallback: Seq<char>) -> Seq<char> {
    let last = path.skip(after_last(path, '/'));
    if last.len() == 0 {
        fallback
    } else {
        last
    }
}

/// The file name at the end of a download path; see [`file_name_part`].
pub fn filename_from_path(path: &str, fallback: &str) -> (r: String)
    ensures
        r@ == file_name_part(path@, fallback@),
{
    let v = chars_of(path);
    let k = after_last_char(&v, '/');
    let last = sub_chars(&v, k, v.len());
    if last.len() == 0 {
        String::from_str(fallback)
    } else {
        string_of(&last)
    }
}

/// The extension of an archive name: the text after its last `.`, where there is a `.`
/// and something after it.
pub open spec fn archive_ext_raw(name: Seq<char>) -> Option<Seq<char>> {
    let k = after_last(name, '.');
    if k > 0 && k < name.len() {
        Some(name.skip(k))
    } else {
        None
    }
}

fn archive_ext_chars(name: &str) -> (r: Option<Vec<char>>)
    ensures
        match r {
            Some(e) => archive_ext_raw(name@) == Some(e@),
            None => archive_ext_raw(name@) is None,
        },
{
    let v = chars_of(name);
    let k = after_last_char(&v, '.');
    if k > 0 && k < v.len() {
        Some(sub_chars(&v, k, v.len()))
    } else {
        None
    }
}

/// The name an archive is stored under while it is extracted: `archive.<ext>`, with
/// `bin` where the name has no extension.
pub fn temporary_archive_name(archive_name: &str) -> (r: String)
    ensures
        r@ == "archive."@ + match archive_ext_raw(archive_name@) {
            Some(e) => e,
            None => "bin"@,
        },
{
    let mut out: Vec<char> = Vec::new();
    push_str(&mut out, "archive.");
    match archive_ext_chars(archive_name) {
        Some(e) => push_all(&mut out, &e),
        None => push_str(&mut out, "bin"),
    }
    string_of(&out)
}

/// The lower-cased extension of an archive name; see [`archive_ext_raw`].
pub fn archive_extension(archive_name: &str) -> (r: Option<String>)
    ensures
        opt_view(r) == match archive_ext_raw(archive_name@) {
            Some(e) => Some(lower_seq(e)),
            None => None,
        },
{
    match archive_ext_chars(archive_name) {
        Some(e) => {
            let l = lower_chars(&e);
            Some(string_of(&l))
        },
        None => None,
    }
}

/// `p` occurs in the bytes `s`.
pub open spec fn bytes_contain(s: Seq<u8>, p: Seq<u8>) -> bool {
    exists|i: int| 0 <= i && i + p.len() <= s.len() && #[trigger] s.subrange(i, i + p.len()) == p
}

/// `<?xml`, `<html>` and `/errpage/40x` in ASCII.
pub open spec fn xml_head() -> Seq<u8> {
    seq![0x3cu8, 0x3fu8, 0x78u8, 0x6du8, 0x6cu8]
}

pub open spec fn html_head() -> Seq<u8> {
    seq![0x3cu8, 0x68u8, 0x74u8, 0x6du8, 0x6cu8, 0x3eu8]
}

pub open spec fn errpage_marker() -> Seq<u8> {
    seq![
        0x2fu8, 0x65u8, 0x72u8, 0x72u8, 0x70u8, 0x61u8, 0x67u8, 0x65u8, 0x2fu8, 0x34u8, 0x30u8,
        0x78u8,
    ]
}

/// Whether a downloaded body is assrt's block page rather than a file: it begins with
/// `<?xml` or `<html>`, or holds `/errpage/40x` (an ASCII text is found in the bytes
/// exactly where it is found in their lossy UTF-8 decoding).
pub open spec fn is_block_page(content: Seq<u8>) -> bool {
    xml_head().is_prefix_of(content) || html_head().is_prefix_of(content) || bytes_contain(
        content,
        errpage_marker(),
    )
}

fn bytes_start_with(s: &[u8], p: &[u8]) -> (r: bool)
    ensures
        r == p@.is_prefix_of(s@),
{
    if p.len() > s.len() {
        return false;
    }
    let mut i: usize = 0;
    while i < p.len()
        invariant
            i <= p@.len() <= s@.len(),
            forall|k: int| 0 <= k < i ==> s@[k] == p@[k],
        decreases p@.len() - i,
    {
        if s[i] != p[i] {
            return false;
        }
        i = i + 1;
    }
    true
}

fn bytes_contain_exec(s: &[u8], p: &[u8]) -> (r: bool)
    ensures
        r == bytes_contain(s@, p@),
{
    if p.len() > s.len() {
        return false;
    }
    let n = s.len();
    let limit = n - p.len();
    let mut i: usize = 0;
    while i <= limit
        invariant
            p@.len() <= s@.len(),
            n == s@.len(),
            limit == s@.len() - p@.len(),
            i <= limit + 1,
            forall|k: int| 0 <= k < i ==> #[trigger] s@.subrange(k, k + p@.len()) != p@,
        decreases limit + 1 - i,
    {
        let mut j: usize = 0;
        let mut same = true;
        while j < p.len()
            invariant
                j <= p@.len(),
                n == s@.len(),
                i + p@.len() <= s@.len(),
                same == forall|k: int| 0 <= k < j ==> s@[i + k] == p@[k],
            decreases p@.len() - j,
        {
            if s[i + j] != p[j] {
                same = false;
            }
            j = j + 1;
        }
        if same {
            assert(s@.subrange(i as int, i + p@.len()) =~= p@);
            return true;
        }
        proof {
            let k0 = choose|k: int| 0 <= k < p@.len() && s@[i + k] != p@[k];
            assert(s@.subrange(i as int, i + p@.len())[k0] != p@[k0]);
        }
        if i == limit {
            proof {
                assert forall|k: int| 0 <= k && k + p@.len() <= s@.len() implies #[trigger] s@.subrange(
                    k,
                    k + p@.len(),
                ) != p@ by {
                    assert(k <= i);
                }
            }
            return false;
        }
        i = i + 1;
    }
    false
}

/// Whether a downloaded body is assrt's block page; see [`is_block_page`].
pub fn is_assrt_block_page(content: &[u8]) -> (r: bool)
    ensures
        r == is_block_page(content@),
{
    let xml: [u8; 5] = [0x3c, 0x3f, 0x78, 0x6d, 0x6c];
    let html: [u8; 6] = [0x3c, 0x68, 0x74, 0x6d, 0x6c, 0x3e];
    let marker: [u8; 12] = [0x2f, 0x65, 0x72, 0x72, 0x70, 0x61, 0x67, 0x65, 0x2f, 0x34, 0x30, 0x78];
    assert(xml@ =~= xml_head());
    assert(html@ =~= html_head());
    assert(marker@ =~= errpage_marker());
    bytes_start_with(content, &xml) || bytes_start_with(content, &html) || bytes_contain_exec(
        content,
        &marker,
    )
}

/// The position of the best score, the last of equal ones (`max_by_key`).
pub open spec fn is_best_index(scores: Seq<i32>, i: int) -> bool {
    &&& 0 <= i < scores.len()
    &&& forall|k: int| 0 <= k < scores.len() ==> scores[k] <= scores[i]
    &&& forall|k: int| i < k < scores.len() ==> scores[k] < scores[i]
}

/// The position of the highest score, the last one among equals; `None` for no scores.
pub fn best_score_index(scores: &Vec<i32>) -> (r: Option<usize>)
    ensures
        match r {
            Some(i) => is_best_index(scores@, i as int),
            None => scores@.len() == 0,
        },
{
    if scores.len() == 0 {
        return None;
    }
    let mut best: usize = 0;
    let mut i: usize = 1;
    while i < scores.len()
        invariant
            1 <= i <= scores@.len(),
            best < i,
            forall|k: int| 0 <= k < i ==> scores@[k] <= scores@[best as int],
            forall|k: int| best < k < i ==> scores@[k] < scores@[best as int],
        decreases scores@.len() - i,
    {
        if scores[i] >= scores[best] {
            best = i;
        }
        i = i + 1;
    }
    Some(best)
}

/// How an archive is unpacked.
#[derive(Debug, Clone, Copy, PartialEq, Eq, Structural)]
pub enum ArchiveKind {
    Rar,
    Zip,
    SevenZip,
}

pub open spec fn archive_kind_of(is_rar: bool, name: Seq<char>) -> Result<ArchiveKind, Seq<char>> {
    if is_rar {
        Ok(ArchiveKind::Rar)
    } else {
        match archive_ext_raw(name) {
            Some(e) => if lower_seq(e) == "zip"@ {
                Ok(ArchiveKind::Zip)
            } else if lower_seq(e) == "7z"@ {
                Ok(ArchiveKind::SevenZip)
            } else {
                Err("暂不支持解压 "@ + lower_seq(e) + " 格式的 assrt 字幕包"@)
            },
            None => Err("无法识别 assrt 字幕压缩包格式"@),
        }
    }
}

/// How a downloaded archive is unpacked: as RAR where its content is one, else by its
/// extension (`zip` or `7z`); any other extension, or none, is an error.
pub fn archive_kind(is_rar: bool, archive_name: &str) -> (r: Result<ArchiveKind, String>)
    ensures
        match r {
            Ok(k) => archive_kind_of(is_rar, archive_name@) == Ok::<ArchiveKind, Seq<char>>(k),
            Err(e) => archive_kind_of(is_rar, archive_name@) == Err::<ArchiveKind, Seq<char>>(e@),
        },
{
    if is_rar {
        return Ok(ArchiveKind::Rar);
    }
    match archive_extension(archive_name) {
        Some(e) => {
            if str_eq(e.as_str(), "zip") {
                Ok(ArchiveKind::Zip)
            } else if str_eq(e.as_str(), "7z") {
                Ok(ArchiveKind::SevenZip)
            } else {
                let mut m: Vec<char> = Vec::new();
                push_str(&mut m, "暂不支持解压 ");
                push_str(&mut m, e.as_str());
                push_str(&mut m, " 格式的 assrt 字幕包");
                Err(string_of(&m))
            }
        },
        None => Err(String::from_str("无法识别 assrt 字幕压缩包格式")),
    }
}


/// A subtitle file offered on a detail page.
#[derive(Debug)]
pub struct DetailSubtitleFile {
    pub name: String,
    pub format: String,
    pub url: String,
}

pub struct DetailFileView {
    pub name: Seq<char>,
    pub format: Seq<char>,
    pub url: Seq<char>,
}

impl View for DetailSubtitleFile {
    type V = DetailFileView;

    open spec fn view(&self) -> DetailFileView {
        DetailFileView { name: self.name@, format: self.format@, url: self.url@ }
    }
}

pub open spec fn detail_files_view(v: Seq<DetailSubtitleFile>) -> Seq<DetailFileView> {
    Seq::new(v.len(), |i: int| v[i]@)
}

/// The `onthefly("id","index","name")` calls of a detail page.
pub open spec fn onthefly_pattern() -> Seq<char> {
    "onthefly\\(\"(\\d+)\",\"(\\d+)\",\"([^\"]+)\"\\)"@
}

/// The files the `onthefly` calls of a detail page offer, in order: each call with a
/// subtitle file name gets a download URL under `base`
/// (`download/<id>/-/<index>/<name>`); `None` where such a URL cannot be made.
pub open spec fn detail_files_of(matches: Seq<Seq<Option<Seq<char>>>>, base: Seq<char>) -> Option<
    Seq<DetailFileView>,
>
    decreases matches.len(),
{
    if matches.len() == 0 {
        Some(Seq::<DetailFileView>::empty())
    } else {
        match detail_files_of(matches.drop_last(), base) {
            None => None,
            Some(files) => {
                let g = matches.last();
                if g.len() < 3 || g[0] is None || g[1] is None || g[2] is None {
                    Some(files)
                } else {
                    let name = trim(g[2]->0);
                    match format_code(name) {
                        None => Some(files),
                        Some(f) => match url_extended(
                            base,
                            seq!["download"@, g[0]->0, "-"@, g[1]->0, name],
                        ) {
                            None => None,
                            Some(u) => Some(files.push(DetailFileView { name, format: f, url: u })),
                        },
                    }
                }
            },
        }
    }
}

pub open spec fn detail_files_result(html: Seq<char>, base: Seq<char>) -> Result<Seq<DetailFileView>, Seq<char>> {
    match regex_all_captures(onthefly_pattern(), html) {
        None => Err("detail file regex failed"@),
        Some(ms) => match detail_files_of(ms, base) {
            Some(fs) => Ok(fs),
            None => Err("构造 assrt 下载地址失败"@),
        },
    }
}

/// The subtitle files a detail page offers, with their download URLs under `base_url`;
/// see [`detail_files_of`].
pub fn parse_detail_download_files(detail_html: &str, base_url: &str) -> (r: Result<
    Vec<DetailSubtitleFile>,
    String,
>)
    ensures
        match r {
            Ok(fs) => detail_files_result(detail_html@, base_url@) == Ok::<Seq<DetailFileView>, Seq<char>>(
                detail_files_view(fs@),
            ),
            Err(e) => detail_files_result(detail_html@, base_url@) == Err::<Seq<DetailFileView>, Seq<char>>(
                e@,
            ),
        },
{
    let all = match regex_captures_all(
        "onthefly\\(\"(\\d+)\",\"(\\d+)\",\"([^\"]+)\"\\)",
        detail_html,
    ) {
        Some(m) => m,
        None => return Err(String::from_str("detail file regex failed")),
    };
    let ghost ms = matches_view(all@);
    let mut files: Vec<DetailSubtitleFile> = Vec::new();
    let mut i: usize = 0;
    while i < all.len()
        invariant
            i <= all@.len(),
            ms == matches_view(all@),
            regex_all_captures(onthefly_pattern(), detail_html@) == Some(ms),
            detail_files_of(ms.take(i as int), base_url@) == Some(detail_files_view(files@)),
        decreases all@.len() - i,
    {
        proof {
            assert(ms.take(i as int + 1).drop_last() =~= ms.take(i as int));
            assert(ms.take(i as int + 1).last() == groups_view(all@[i as int]@));
        }
        let groups = &all[i];
        if groups.len() >= 3 {
            match (&groups[0], &groups[1], &groups[2]) {
                (Some(id), Some(index), Some(raw_name)) => {
                    let nv = chars_of(raw_name.as_str());
                    let tv = trim_chars(&nv);
                    let name = string_of(&tv);
                    match normalize_format(name.as_str()) {
                        Some(format) => {
                            let mut segs: Vec<String> = Vec::new();
                            segs.push(String::from_str("download"));
                            segs.push(id.clone());
                            segs.push(String::from_str("-"));
                            segs.push(index.clone());
                            segs.push(name.clone());
                            proof {
                                assert(strings_view(segs@) =~= seq![
                                    "download"@,
                                    id@,
                                    "-"@,
                                    index@,
                                    name@,
                                ]);
                            }
                            match url_with_segments(base_url, &segs) {
                                Some(url) => {
                                    let ghost before = detail_files_view(files@);
                                    files.push(DetailSubtitleFile { format, name, url });
                                    assert(detail_files_view(files@) =~= before.push(files@.last()@));
                                },
                                None => {
                                    proof {
                                        lemma_detail_files_none_persists(ms, i as int + 1, base_url@);
                                    }
                                    return Err(String::from_str("构造 assrt 下载地址失败"));
                                },
                            }
                        },
                        None => {},
                    }
                },
                _ => {},
            }
        }
        i = i + 1;
    }
    assert(ms.take(all@.len() as int) =~= ms);
    Ok(files)
}

proof fn lemma_detail_files_none_persists(ms: Seq<Seq<Option<Seq<char>>>>, k: int, base: Seq<char>)
    requires
        0 <= k <= ms.len(),
        detail_files_of(ms.take(k), base) is None,
    ensures
        detail_files_of(ms, base) is None,
    decreases ms.len() - k,
{
    if k < ms.len() {
        assert(ms.take(k + 1).drop_last() =~= ms.take(k));
        lemma_detail_files_none_persists(ms, k + 1, base);
    } else {
        assert(ms.take(k) =~= ms);
    }
}

/// The cookie jar of the assrt session: `assrt-subtitles/cookies.txt` under the
/// staging root.
pub fn assrt_cookie_jar_path(staging_root: &str) -> (r: String)
    ensures
        r@ == path_join(path_join(staging_root@, "assrt-subtitles"@), "cookies.txt"@),
{
    let dir = join_path(staging_root, "assrt-subtitles");
    join_path(dir.as_str(), "cookies.txt")
}

/// The `Accept` header of a page request.
pub open spec fn accept_html() -> Seq<char> {
    "Accept: text/html,application/xhtml+xml,application/xml;q=0.9,*/*;q=0.8"@
}

/// The `curl` arguments that open an assrt session: fetch the home page, keeping its
/// cookies.
pub fn curl_warmup_args(user_agent: &str, cookie_jar: &str, base_url: &str) -> (r: Vec<String>)
    ensures
        strings_view(r@) == seq![
            "-sSL"@,
            "-A"@,
            user_agent@,
            "-H"@,
            accept_html(),
            "-b"@,
            cookie_jar@,
            "-c"@,
            cookie_jar@,
            "-o"@,
            "/dev/null"@,
            base_url@,
        ],
{
    let mut a: Vec<String> = Vec::new();
    a.push(String::from_str("-sSL"));
    a.push(String::from_str("-A"));
    a.push(String::from_str(user_agent));
    a.push(String::from_str("-H"));
    a.push(String::from_str("Accept: text/html,application/xhtml+xml,application/xml;q=0.9,*/*;q=0.8"));
    a.push(String::from_str("-b"));
    a.push(String::from_str(cookie_jar));
    a.push(String::from_str("-c"));
    a.push(String::from_str(cookie_jar));
    a.push(String::from_str("-o"));
    a.push(String::from_str("/dev/null"));
    a.push(String::from_str(base_url));
    assert(strings_view(a@) =~= seq![
        "-sSL"@,
        "-A"@,
        user_agent@,
        "-H"@,
        accept_html(),
        "-b"@,
        cookie_jar@,
        "-c"@,
        cookie_jar@,
        "-o"@,
        "/dev/null"@,
        base_url@,
    ]);
    a
}

/// The `curl` arguments that fetch a detail page within the session, with the home
/// page as referer.
pub fn curl_detail_args(user_agent: &str, cookie_jar: &str, base_url: &str, detail_url: &str) -> (r: Vec<
    String,
>)
    ensures
        strings_view(r@) == seq![
            "-sSL"@,
            "-A"@,
            user_agent@,
            "-H"@,
            accept_html(),
            "-b"@,
            cookie_jar@,
            "-c"@,
            cookie_jar@,
            "-e"@,
            base_url@,
            detail_url@,
        ],
{
    let mut a: Vec<String> = Vec::new();
    a.push(String::from_str("-sSL"));
    a.push(String::from_str("-A"));
    a.push(String::from_str(user_agent));
    a.push(String::from_str("-H"));
    a.push(String::from_str("Accept: text/html,application/xhtml+xml,application/xml;q=0.9,*/*;q=0.8"));
    a.push(String::from_str("-b"));
    a.push(String::from_str(cookie_jar));
    a.push(String::from_str("-c"));
    a.push(String::from_str(cookie_jar));
    a.push(String::from_str("-e"));
    a.push(String::from_str(base_url));
    a.push(String::from_str(detail_url));
    assert(strings_view(a@) =~= seq![
        "-sSL"@,
        "-A"@,
        user_agent@,
        "-H"@,
        accept_html(),
        "-b"@,
        cookie_jar@,
        "-c"@,
        cookie_jar@,
        "-e"@,
        base_url@,
        detail_url@,
    ]);
    a
}

/// The `curl` arguments that download a subtitle file within the session, with its
/// detail page as referer.
pub fn curl_file_args(user_agent: &str, cookie_jar: &str, detail_url: &str, file_url: &str) -> (r: Vec<
    String,
>)
    ensures
        strings_view(r@) == seq![
            "-sSL"@,
            "-A"@,
            user_agent@,
            "-H"@,
            "Accept: */*"@,
            "-b"@,
            cookie_jar@,
            "-c"@,
            cookie_jar@,
            "-e"@,
            detail_url@,
            file_url@,
        ],
{
    let mut a: Vec<String> = Vec::new();
    a.push(String::from_str("-sSL"));
    a.push(String::from_str("-A"));
    a.push(String::from_str(user_agent));
    a.push(String::from_str("-H"));
    a.push(String::from_str("Accept: */*"));
    a.push(String::from_str("-b"));
    a.push(String::from_str(cookie_jar));
    a.push(String::from_str("-c"));
    a.push(String::from_str(cookie_jar));
    a.push(String::from_str("-e"));
    a.push(String::from_str(detail_url));
    a.push(String::from_str(file_url));
    assert(strings_view(a@) =~= seq![
        "-sSL"@,
        "-A"@,
        user_agent@,
        "-H"@,
        "Accept: */*"@,
        "-b"@,
        cookie_jar@,
        "-c"@,
        cookie_jar@,
        "-e"@,
        detail_url@,
        file_url@,
    ]);
    a
}

/// Whether a detail page is assrt's error page, which a fresh session may get past.
pub fn is_assrt_error_page(html: &str) -> (r: bool)
    ensures
        r == contains_seq(html@, "/errpage/40x"@),
{
    crate::text::str_contains(html, "/errpage/40x")
}


/// The title link of an assrt result row, as the page has it.
#[derive(Debug)]
pub struct AssrtAnchor {
    /// Its `href`.
    pub href: Option<String>,
    /// Its text, joined from its text nodes.
    pub text: String,
    /// Its `title` attribute.
    pub title: Option<String>,
}

/// What an assrt result row holds, as the page has it: the title link, the texts of
/// the metadata spans, the text of the version element, the label (`alt`, else
/// `title`) of the rating image, and the row's HTML.
#[derive(Debug)]
pub struct AssrtRow {
    pub anchor: Option<AssrtAnchor>,
    pub span_texts: Vec<String>,
    pub version_text: Option<String>,
    pub rating_label: Option<String>,
    pub html: String,
}

/// The view of an [`AssrtAnchor`].
pub struct AssrtAnchorView {
    pub href: Option<Seq<char>>,
    pub text: Seq<char>,
    pub title: Option<Seq<char>>,
}

/// The view of an [`AssrtRow`].
pub struct AssrtRowView {
    pub anchor: Option<AssrtAnchorView>,
    pub span_texts: Seq<Seq<char>>,
    pub version_text: Option<Seq<char>>,
    pub rating_label: Option<Seq<char>>,
    pub html: Seq<char>,
}

impl View for AssrtAnchor {
    type V = AssrtAnchorView;

    open spec fn view(&self) -> AssrtAnchorView {
        AssrtAnchorView { href: opt_view(self.href), text: self.text@, title: opt_view(self.title) }
    }
}

impl View for AssrtRow {
    type V = AssrtRowView;

    open spec fn view(&self) -> AssrtRowView {
        AssrtRowView {
            anchor: match self.anchor {
                Some(a) => Some(a@),
                None => None,
            },
            span_texts: strings_view(self.span_texts@),
            version_text: opt_view(self.version_text),
            rating_label: opt_view(self.rating_label),
            html: self.html@,
        }
    }
}

/// The views of `rows`.
pub open spec fn rows_view(rows: Seq<AssrtRow>) -> Seq<AssrtRowView> {
    Seq::new(rows.len(), |i: int| rows[i]@)
}

/// Element text as the page shows it: no-break spaces made spaces, then trimmed.
pub open spec fn clean_text(s: Seq<char>) -> Seq<char> {
    trim(Seq::new(s.len(), |i: int| if s[i] == '\u{a0}' { ' ' } else { s[i] }))
}

fn clean_text_exec(s: &str) -> (r: String)
    ensures
        r@ == clean_text(s@),
{
    let v = chars_of(s);
    let mut m: Vec<char> = Vec::new();
    let mut i: usize = 0;
    while i < v.len()
        invariant
            i <= v@.len(),
            m@ =~= Seq::new(i as nat, |k: int| if v@[k] == '\u{a0}' { ' ' } else { v@[k] }),
        decreases v@.len() - i,
    {
        if v[i] == '\u{a0}' {
            m.push(' ');
        } else {
            m.push(v[i]);
        }
        i = i + 1;
    }
    let t = trim_chars(&m);
    string_of(&t)
}

/// The rest of the first text that begins with `prefix`.
pub open spec fn after_first_prefix(texts: Seq<Seq<char>>, prefix: Seq<char>) -> Option<Seq<char>>
    decreases texts.len(),
{
    if texts.len() == 0 {
        None
    } else if prefix.is_prefix_of(texts[0]) {
        Some(texts[0].skip(prefix.len() as int))
    } else {
        after_first_prefix(texts.drop_first(), prefix)
    }
}

fn after_first_prefix_exec(texts: &Vec<String>, prefix: &str) -> (r: Option<String>)
    ensures
        opt_view(r) == after_first_prefix(strings_view(texts@), prefix@),
{
    let ghost ts = strings_view(texts@);
    let pv = chars_of(prefix);
    let mut i: usize = 0;
    assert(ts.skip(0) =~= ts);
    while i < texts.len()
        invariant
            i <= texts@.len(),
            ts == strings_view(texts@),
            pv@ == prefix@,
            after_first_prefix(ts, prefix@) == after_first_prefix(ts.skip(i as int), prefix@),
        decreases texts@.len() - i,
    {
        proof {
            assert(ts.skip(i as int)[0] == texts@[i as int]@);
            assert(ts.skip(i as int).drop_first() =~= ts.skip(i as int + 1));
        }
        let tv = chars_of(texts[i].as_str());
        if crate::text::starts_with_chars(&tv, &pv) {
            let rest = sub_chars(&tv, pv.len(), tv.len());
            return Some(string_of(&rest));
        }
        i = i + 1;
    }
    None
}

/// The first capture group, where there is one.
pub open spec fn group1(g: Seq<Option<Seq<char>>>) -> Option<Seq<char>> {
    if g.len() > 0 {
        g[0]
    } else {
        None
    }
}

/// The capture groups of the first text that `pattern` matches.
pub open spec fn first_captures_in(texts: Seq<Seq<char>>, pattern: Seq<char>) -> Option<
    Seq<Option<Seq<char>>>,
>
    decreases texts.len(),
{
    if texts.len() == 0 {
        None
    } else {
        match regex_first_captures(pattern, texts[0]) {
            Some(Some(g)) => Some(g),
            _ => first_captures_in(texts.drop_first(), pattern),
        }
    }
}

fn group1_exec(g: &Vec<Option<String>>) -> (r: Option<String>)
    ensures
        opt_view(r) == group1(groups_view(g@)),
{
    if g.len() > 0 {
        match &g[0] {
            Some(s) => Some(s.clone()),
            None => None,
        }
    } else {
        None
    }
}

fn first_captures_in_exec(texts: &Vec<String>, pattern: &str) -> (r: Option<Vec<Option<String>>>)
    ensures
        match r {
            Some(g) => first_captures_in(strings_view(texts@), pattern@) == Some(groups_view(g@)),
            None => first_captures_in(strings_view(texts@), pattern@) is None,
        },
{
    let ghost ts = strings_view(texts@);
    let mut i: usize = 0;
    assert(ts.skip(0) =~= ts);
    while i < texts.len()
        invariant
            i <= texts@.len(),
            ts == strings_view(texts@),
            first_captures_in(ts, pattern@) == first_captures_in(ts.skip(i as int), pattern@),
        decreases texts@.len() - i,
    {
        proof {
            assert(ts.skip(i as int)[0] == texts@[i as int]@);
            assert(ts.skip(i as int).drop_first() =~= ts.skip(i as int + 1));
        }
        match regex_captures_first(pattern, texts[i].as_str()) {
            Some(Some(g)) => return Some(g),
            _ => {},
        }
        i = i + 1;
    }
    None
}

fn captures_group1(pattern: &str, text: &str) -> (r: Option<String>)
    ensures
        opt_view(r) == match regex_first_captures(pattern@, text@) {
            Some(Some(g)) => group1(g),
            _ => None,
        },
{
    match regex_captures_first(pattern, text) {
        Some(Some(g)) => group1_exec(&g),
        _ => None,
    }
}

/// What a search result says, as text.
pub struct SubtitleSearchResultView {
    pub id: Seq<char>,
    pub name: Seq<char>,
    pub language: Seq<char>,
    pub language_name: Seq<char>,
    pub format: Seq<char>,
    pub provider: Seq<char>,
    pub detail_path: Option<Seq<char>>,
    pub download_path: Option<Seq<char>>,
    pub download_count: Option<u64>,
    pub rating: Option<Seq<char>>,
    pub movie_name: Option<Seq<char>>,
    pub release_group: Option<Seq<char>>,
}

impl View for SubtitleSearchResult {
    type V = SubtitleSearchResultView;

    open spec fn view(&self) -> SubtitleSearchResultView {
        SubtitleSearchResultView {
            id: self.id@,
            name: self.name@,
            language: self.language@,
            language_name: self.language_name@,
            format: self.format@,
            provider: self.provider@,
            detail_path: opt_view(self.detail_path),
            download_path: opt_view(self.download_path),
            download_count: self.download_count,
            rating: opt_view(self.rating),
            movie_name: opt_view(self.movie_name),
            release_group: opt_view(self.release_group),
        }
    }
}

pub open spec fn detail_id_pattern() -> Seq<char> {
    "/(\\d+)\\.xml$"@
}

pub open spec fn download_path_pattern() -> Seq<char> {
    "location\\.href='([^']+)'"@
}

pub open spec fn number_pattern() -> Seq<char> {
    "([\\d.]+)"@
}

pub open spec fn download_count_pattern() -> Seq<char> {
    "下载次数：\\s*(\\d+)"@
}

/// The search result an assrt result row gives for `query`: rows without a title link
/// with an id, without a known format, or in an unwanted language give none.
pub open spec fn row_result_of(row: AssrtRowView, query: Seq<char>, languages: Option<Seq<Seq<char>>>) -> Option<
    SubtitleSearchResultView,
> {
    match row.anchor {
        None => None,
        Some(a) => match a.href {
            None => None,
            Some(href) => match regex_first_captures(detail_id_pattern(), href) {
                Some(Some(g)) => match group1(g) {
                    None => None,
                    Some(id) => {
                        let spans = Seq::new(row.span_texts.len(), |i: int| clean_text(row.span_texts[i]));
                        let format_text = match after_first_prefix(spans, "格式："@) {
                            Some(t) => trim(t),
                            None => Seq::<char>::empty(),
                        };
                        match format_code(format_text) {
                            None => None,
                            Some(format) => {
                                let language_text = match after_first_prefix(spans, "语言："@) {
                                    Some(t) => trim(t),
                                    None => "未知"@,
                                };
                                let version = match row.version_text {
                                    Some(v) => clean_text(v),
                                    None => Seq::<char>::empty(),
                                };
                                let language = language_code(language_text);
                                if !language_wanted(language, languages) {
                                    None
                                } else {
                                    let title = clean_text(a.text);
                                    Some(
                                        SubtitleSearchResultView {
                                            id,
                                            name: if title.len() > 0 {
                                                title
                                            } else if version.len() > 0 {
                                                version
                                            } else {
                                                query
                                            },
                                            language,
                                            language_name: language_text,
                                            format,
                                            provider: "assrt"@,
                                            detail_path: Some(href),
                                            download_path: match regex_first_captures(
                                                download_path_pattern(),
                                                row.html,
                                            ) {
                                                Some(Some(g)) => group1(g),
                                                _ => None,
                                            },
                                            download_count: match first_captures_in(
                                                spans,
                                                download_count_pattern(),
                                            ) {
                                                Some(g) => match group1(g) {
                                                    Some(d) => crate::text::std_u64(d),
                                                    None => None,
                                                },
                                                None => None,
                                            },
                                            rating: match row.rating_label {
                                                Some(l) => match regex_first_captures(number_pattern(), l) {
                                                    Some(Some(g)) => group1(g),
                                                    _ => None,
                                                },
                                                None => None,
                                            },
                                            movie_name: match a.title {
                                                Some(t) => Some(trim(t)),
                                                None => None,
                                            },
                                            release_group: if version.len() > 0 {
                                                Some(version)
                                            } else {
                                                None
                                            },
                                        },
                                    )
                                }
                            },
                        }
                    },
                },
                _ => None,
            },
        },
    }
}

fn trimmed(s: &str) -> (r: String)
    ensures
        r@ == trim(s@),
{
    let v = chars_of(s);
    let t = trim_chars(&v);
    string_of(&t)
}

/// The search result of one assrt result row; see [`row_result_of`].
pub fn search_row_result(row: &AssrtRow, query: &str, languages: Option<&[String]>) -> (r: Option<
    SubtitleSearchResult,
>)
    ensures
        match r {
            Some(res) => row_result_of(
                row@,
                query@,
                match languages {
                    Some(l) => Some(strings_view(l@)),
                    None => None,
                },
            ) == Some(res@),
            None => row_result_of(
                row@,
                query@,
                match languages {
                    Some(l) => Some(strings_view(l@)),
                    None => None,
                },
            ) is None,
        },
{
    let anchor = match &row.anchor {
        Some(a) => a,
        None => return None,
    };
    let href = match &anchor.href {
        Some(h) => h,
        None => return None,
    };
    let id = match captures_group1("/(\\d+)\\.xml$", href.as_str()) {
        Some(id) => id,
        None => return None,
    };
    let mut spans: Vec<String> = Vec::new();
    let mut i: usize = 0;
    while i < row.span_texts.len()
        invariant
            i <= row.span_texts@.len(),
            spans@.len() == i,
            forall|k: int| 0 <= k < i ==> (#[trigger] spans@[k])@ == clean_text(row.span_texts@[k]@),
        decreases row.span_texts@.len() - i,
    {
        spans.push(clean_text_exec(row.span_texts[i].as_str()));
        i = i + 1;
    }
    let ghost sv = Seq::new(row.span_texts@.len(), |i: int| clean_text(row.span_texts@[i]@));
    assert(strings_view(spans@) =~= sv);
    assert(sv =~= Seq::new(row@.span_texts.len(), |i: int| clean_text(row@.span_texts[i])));
    let format_text = match after_first_prefix_exec(&spans, "格式：") {
        Some(t) => trimmed(t.as_str()),
        None => String::new(),
    };
    let format = match normalize_format(format_text.as_str()) {
        Some(f) => f,
        None => return None,
    };
    let language_text = match after_first_prefix_exec(&spans, "语言：") {
        Some(t) => trimmed(t.as_str()),
        None => String::from_str("未知"),
    };
    let version = match &row.version_text {
        Some(v) => clean_text_exec(v.as_str()),
        None => String::new(),
    };
    let language = normalize_language(language_text.as_str());
    if !matches_preferred_language(language.as_str(), languages) {
        return None;
    }
    let title = clean_text_exec(anchor.text.as_str());
    let name = if !title.as_str().is_empty() {
        title
    } else if !version.as_str().is_empty() {
        version.clone()
    } else {
        String::from_str(query)
    };
    let download_path = captures_group1("location\\.href='([^']+)'", row.html.as_str());
    let download_count = match first_captures_in_exec(&spans, "下载次数：\\s*(\\d+)") {
        Some(g) => match group1_exec(&g) {
            Some(d) => crate::text::parse_u64_text(d.as_str()),
            None => None,
        },
        None => None,
    };
    let rating = match &row.rating_label {
        Some(l) => captures_group1("([\\d.]+)", l.as_str()),
        None => None,
    };
    let movie_name = match &anchor.title {
        Some(t) => Some(trimmed(t.as_str())),
        None => None,
    };
    let release_group = if !version.as_str().is_empty() {
        Some(version)
    } else {
        None
    };
    Some(
        SubtitleSearchResult {
            id,
            name,
            language,
            language_name: language_text,
            format,
            provider: String::from_str("assrt"),
            detail_path: Some(href.clone()),
            download_path,
            download_count,
            rating,
            movie_name,
            release_group,
        },
    )
}

/// The query of a search: trimmed, and required.
pub fn search_query(request: &SubtitleSearchRequest) -> (r: Result<String, String>)
    ensures
        match r {
            Ok(q) => q@ == trim(match request.query {
                Some(q) => q@,
                None => Seq::<char>::empty(),
            }) && q@.len() > 0,
            Err(e) => trim(match request.query {
                Some(q) => q@,
                None => Seq::<char>::empty(),
            }).len() == 0 && e@ == "请输入片名或文件名后再搜索 assrt 字幕"@,
        },
{
    let q = match &request.query {
        Some(q) => trimmed(q.as_str()),
        None => {
            let e = String::new();
            trimmed(e.as_str())
        },
    };
    if q.as_str().is_empty() {
        return Err(String::from_str("请输入片名或文件名后再搜索 assrt 字幕"));
    }
    Ok(q)
}

/// The result page of a search under `base_url`: the form-encoded query, ranked, with
/// no redirect.
pub fn search_url(base_url: &str, query: &str) -> (r: String)
    ensures
        r@ == base_url@ + "/sub/?searchword="@ + form_encoded(query@) + "&sort=rank&no_redir=1"@,
{
    let encoded = form_encode(query);
    let mut out: Vec<char> = Vec::new();
    push_str(&mut out, base_url);
    push_str(&mut out, "/sub/?searchword=");
    push_str(&mut out, encoded.as_str());
    push_str(&mut out, "&sort=rank&no_redir=1");
    string_of(&out)
}

/// The search results of an assrt result page, in row order.
pub fn search_results(rows: &Vec<AssrtRow>, query: &str, languages: Option<&[String]>) -> (r: Vec<
    SubtitleSearchResult,
>)
    ensures
        Seq::new(r@.len(), |i: int| r@[i]@) == crate::subtitles::rows_results_of(
            rows_view(rows@),
            query@,
            match languages {
                Some(l) => Some(strings_view(l@)),
                None => None,
            },
        ),
{
    let ghost langs = match languages {
        Some(l) => Some(strings_view(l@)),
        None => None,
    };
    let mut out: Vec<SubtitleSearchResult> = Vec::new();
    let mut i: usize = 0;
    while i < rows.len()
        invariant
            i <= rows@.len(),
            langs == match languages {
                Some(l) => Some(strings_view(l@)),
                None => None::<Seq<Seq<char>>>,
            },
            Seq::new(out@.len(), |k: int| out@[k]@) == rows_results_of(rows_view(rows@).take(i as int), query@, langs),
        decreases rows@.len() - i,
    {
        proof {
            assert(rows_view(rows@).take(i as int + 1).drop_last() =~= rows_view(rows@).take(i as int));
        }
        let ghost before = Seq::new(out@.len(), |k: int| out@[k]@);
        match search_row_result(&rows[i], query, languages) {
            Some(res) => {
                out.push(res);
                assert(Seq::new(out@.len(), |k: int| out@[k]@) =~= before.push(out@.last()@));
            },
            None => {},
        }
        i = i + 1;
    }
    assert(rows_view(rows@).take(rows@.len() as int) =~= rows_view(rows@));
    out
}

/// The results of the rows, in order.
pub open spec fn rows_results_of(rows: Seq<AssrtRowView>, query: Seq<char>, languages: Option<Seq<Seq<char>>>) -> Seq<
    SubtitleSearchResultView,
>
    decreases rows.len(),
{
    if rows.len() == 0 {
        Seq::<SubtitleSearchResultView>::empty()
    } else {
        match row_result_of(rows.last(), query, languages) {
            Some(r) => rows_results_of(rows.drop_last(), query, languages).push(r),
            None => rows_results_of(rows.drop_last(), query, languages),
        }
    }
}


/// A subtitle file that was downloaded.
/// The selector of the result rows of an assrt search page.
pub open spec fn row_css() -> Seq<char> {
    ".resultcard .subitem"@
}

/// The selector of a row's title link.
pub open spec fn title_css() -> Seq<char> {
    ".introtitle"@
}

/// The selector of a row's metadata spans.
pub open spec fn spans_css() -> Seq<char> {
    "#sublist_div span"@
}

/// The selector of a row's version element.
pub open spec fn version_css() -> Seq<char> {
    "#meta_top b"@
}

/// The selector of a row's rating image.
pub open spec fn rating_css() -> Seq<char> {
    "img[alt*=\"用户评分\"], img[title*=\"用户评分\"]"@
}

/// The error for a selector that does not parse: `what`, then the parser's message.
pub open spec fn selector_failure(css: Seq<char>, what: Seq<char>) -> Option<Seq<char>> {
    match css_parse_error(css) {
        Some(e) => Some(what + ": "@ + e),
        None => None,
    }
}

/// The error of the first of the search page's selectors that does not parse.
pub open spec fn search_selectors_failure() -> Option<Seq<char>> {
    match selector_failure(row_css(), "解析 assrt 搜索选择器失败"@) {
        Some(e) => Some(e),
        None => match selector_failure(title_css(), "解析 assrt 标题选择器失败"@) {
            Some(e) => Some(e),
            None => match selector_failure(spans_css(), "解析 assrt 元数据选择器失败"@) {
                Some(e) => Some(e),
                None => match selector_failure(version_css(), "解析 assrt 版本选择器失败"@) {
                    Some(e) => Some(e),
                    None => selector_failure(rating_css(), "解析 assrt 评分选择器失败"@),
                },
            },
        },
    }
}

/// The `k`-th list of `s`, or an empty one past its end.
pub open spec fn list_at<T>(s: Seq<Seq<T>>, k: int) -> Seq<T> {
    if 0 <= k < s.len() {
        s[k]
    } else {
        Seq::<T>::empty()
    }
}

/// The first item of `s`, where it has one.
pub open spec fn first_of<T>(s: Seq<T>) -> Option<T> {
    if s.len() > 0 {
        Some(s[0])
    } else {
        None
    }
}

/// The value inside two options.
pub open spec fn flat<T>(o: Option<Option<T>>) -> Option<T> {
    match o {
        Some(Some(v)) => Some(v),
        _ => None,
    }
}

/// The `k`-th result row of the search page `page`: its first title link (with its
/// `href`, text and `title`), the texts of its metadata spans, the text of its first
/// version element, the label of its first rating image (`alt`, else `title`), and
/// its markup.
pub open spec fn search_row_at(page: Seq<char>, k: int) -> AssrtRowView {
    let titles = list_at(html_inner_texts(page, row_css(), title_css()), k);
    let alt = flat(first_of(list_at(html_inner_attrs(page, row_css(), rating_css(), "alt"@), k)));
    AssrtRowView {
        anchor: if titles.len() > 0 {
            Some(
                AssrtAnchorView {
                    href: flat(first_of(list_at(html_inner_attrs(page, row_css(), title_css(), "href"@), k))),
                    text: titles[0],
                    title: flat(first_of(list_at(html_inner_attrs(page, row_css(), title_css(), "title"@), k))),
                },
            )
        } else {
            None
        },
        span_texts: list_at(html_inner_texts(page, row_css(), spans_css()), k),
        version_text: first_of(list_at(html_inner_texts(page, row_css(), version_css()), k)),
        rating_label: match alt {
            Some(a) => Some(a),
            None => flat(first_of(list_at(html_inner_attrs(page, row_css(), rating_css(), "title"@), k))),
        },
        html: html_matches(page, row_css())[k],
    }
}

/// The result rows of the assrt search page `page`, or the error of a selector that
/// does not parse.
pub open spec fn search_page_rows(page: Seq<char>) -> Result<Seq<AssrtRowView>, Seq<char>> {
    match search_selectors_failure() {
        Some(e) => Err(e),
        None => Ok(Seq::new(html_matches(page, row_css()).len(), |k: int| search_row_at(page, k))),
    }
}

fn check_selector(css: &str, what: &str) -> (r: Result<(), String>)
    ensures
        match r {
            Ok(()) => selector_failure(css@, what@) is None,
            Err(e) => selector_failure(css@, what@) == Some(e@),
        },
{
    match css_error(css) {
        Some(e) => {
            let mut m: Vec<char> = Vec::new();
            push_str(&mut m, what);
            push_str(&mut m, ": ");
            push_str(&mut m, e.as_str());
            Err(string_of(&m))
        },
        None => Ok(()),
    }
}

fn copy_strings(v: &Vec<String>) -> (r: Vec<String>)
    ensures
        strings_view(r@) == strings_view(v@),
{
    let mut r: Vec<String> = Vec::new();
    let mut i: usize = 0;
    while i < v.len()
        invariant
            i <= v@.len(),
            r@ == v@.take(i as int),
        decreases v@.len() - i,
    {
        r.push(v[i].clone());
        assert(r@ =~= v@.take(i as int + 1));
        i = i + 1;
    }
    assert(v@.take(v@.len() as int) =~= v@);
    r
}

fn texts_at(v: &Vec<Vec<String>>, k: usize) -> (r: Vec<String>)
    ensures
        strings_view(r@) == list_at(nested_strings_view(v@), k as int),
{
    if k < v.len() {
        copy_strings(&v[k])
    } else {
        let r: Vec<String> = Vec::new();
        assert(strings_view(r@) =~= Seq::<Seq<char>>::empty());
        r
    }
}

fn first_text_at(v: &Vec<Vec<String>>, k: usize) -> (r: Option<String>)
    ensures
        opt_view(r) == first_of(list_at(nested_strings_view(v@), k as int)),
{
    if k < v.len() && v[k].len() > 0 {
        Some(v[k][0].clone())
    } else {
        None
    }
}

fn first_attr_at(v: &Vec<Vec<Option<String>>>, k: usize) -> (r: Option<String>)
    ensures
        opt_view(r) == flat(first_of(list_at(nested_opts_view(v@), k as int))),
{
    if k < v.len() && v[k].len() > 0 {
        match &v[k][0] {
            Some(a) => Some(a.clone()),
            None => None,
        }
    } else {
        None
    }
}

/// Reads the result rows of an assrt search page; see [`search_page_rows`].
pub fn read_search_rows(html: &str) -> (r: Result<Vec<AssrtRow>, String>)
    ensures
        match search_page_rows(html@) {
            Ok(rows) => r matches Ok(v) && rows_view(v@) == rows,
            Err(e) => r matches Err(m) && m@ == e,
        },
{
    let row = ".resultcard .subitem";
    let title = ".introtitle";
    let spans = "#sublist_div span";
    let version = "#meta_top b";
    let rating = "img[alt*=\"用户评分\"], img[title*=\"用户评分\"]";
    check_selector(row, "解析 assrt 搜索选择器失败")?;
    check_selector(title, "解析 assrt 标题选择器失败")?;
    check_selector(spans, "解析 assrt 元数据选择器失败")?;
    check_selector(version, "解析 assrt 版本选择器失败")?;
    check_selector(rating, "解析 assrt 评分选择器失败")?;
    let page = parse_page(html);
    let markup = select_markup(&page, row).unwrap();
    let title_texts = select_inner_texts(&page, row, title).unwrap();
    let hrefs = select_inner_attrs(&page, row, title, "href").unwrap();
    let title_attrs = select_inner_attrs(&page, row, title, "title").unwrap();
    let span_texts = select_inner_texts(&page, row, spans).unwrap();
    let versions = select_inner_texts(&page, row, version).unwrap();
    let alts = select_inner_attrs(&page, row, rating, "alt").unwrap();
    let rating_titles = select_inner_attrs(&page, row, rating, "title").unwrap();
    let ghost p = html@;
    let mut rows: Vec<AssrtRow> = Vec::new();
    let mut k: usize = 0;
    while k < markup.len()
        invariant
            k <= markup@.len(),
            page@ == p,
            strings_view(markup@) == html_matches(p, row_css()),
            nested_strings_view(title_texts@) == html_inner_texts(p, row_css(), title_css()),
            nested_opts_view(hrefs@) == html_inner_attrs(p, row_css(), title_css(), "href"@),
            nested_opts_view(title_attrs@) == html_inner_attrs(p, row_css(), title_css(), "title"@),
            nested_strings_view(span_texts@) == html_inner_texts(p, row_css(), spans_css()),
            nested_strings_view(versions@) == html_inner_texts(p, row_css(), version_css()),
            nested_opts_view(alts@) == html_inner_attrs(p, row_css(), rating_css(), "alt"@),
            nested_opts_view(rating_titles@) == html_inner_attrs(p, row_css(), rating_css(), "title"@),
            rows_view(rows@) == Seq::new(k as nat, |j: int| search_row_at(p, j)),
        decreases markup@.len() - k,
    {
        let titles_k = texts_at(&title_texts, k);
        let anchor = if titles_k.len() > 0 {
            Some(
                AssrtAnchor {
                    href: first_attr_at(&hrefs, k),
                    text: titles_k[0].clone(),
                    title: first_attr_at(&title_attrs, k),
                },
            )
        } else {
            None
        };
        let rating_label = match first_attr_at(&alts, k) {
            Some(a) => Some(a),
            None => first_attr_at(&rating_titles, k),
        };
        let r = AssrtRow {
            anchor,
            span_texts: texts_at(&span_texts, k),
            version_text: first_text_at(&versions, k),
            rating_label,
            html: markup[k].clone(),
        };
        proof {
            assert(strings_view(markup@)[k as int] == markup@[k as int]@);
        }
        let ghost before = rows_view(rows@);
        rows.push(r);
        assert(rows_view(rows@) =~= before.push(r@));
        assert(r@ == search_row_at(p, k as int));
        assert(rows_view(rows@) =~= Seq::new(k as nat + 1, |j: int| search_row_at(p, j)));
        k = k + 1;
    }
    Ok(rows)
}

/// The search results of an assrt search page for `query`: the rows that
/// [`read_search_rows`] reads, taken as [`search_results`] takes them.
pub fn search_page_results(html: &str, query: &str, languages: Option<&[String]>) -> (r: Result<
    Vec<SubtitleSearchResult>,
    String,
>)
    ensures
        match search_page_rows(html@) {
            Ok(rows) => r matches Ok(v) && Seq::new(v@.len(), |i: int| v@[i]@) == rows_results_of(
                rows,
                query@,
                match languages {
                    Some(l) => Some(strings_view(l@)),
                    None => None,
                },
            ),
            Err(e) => r matches Err(m) && m@ == e,
        },
{
    let rows = read_search_rows(html)?;
    Ok(search_results(&rows, query, languages))
}

/// Where a subtitle download through its detail page stands: the detail page, or the
/// chosen subtitle file, was fetched, after a fresh session where `retried`.
#[derive(Debug, Clone, Copy, PartialEq, Eq, Structural)]
pub enum DetailState {
    DetailPage { retried: bool },
    SubtitleFile { retried: bool },
}

/// What a download through a detail page does after a fetch.
#[derive(Debug)]
pub enum DetailAction {
    /// Use what was fetched.
    Proceed,
    /// Warm the session again, fetch the same thing once more, and go on from the
    /// given state.
    Retry(DetailState),
    /// Give up with this error.
    Fail(String),
}

/// The error once a fetch was refused after a retry: the detail page's, or the file's
/// with its URL.
pub open spec fn detail_refused_message(state: DetailState, file_url: Seq<char>) -> Seq<char> {
    match state {
        DetailState::DetailPage { .. } => "assrt 详情页请求失败: 493"@,
        DetailState::SubtitleFile { .. } => "assrt 单文件下载失败: 493 ("@ + file_url + ")"@,
    }
}

/// The step after a fetch in `state`: where the site answered with its error or block
/// page (`refused`), a first fetch is retried after warming the session and a retried
/// one fails; otherwise what was fetched is used. `file_url` is the subtitle file's URL.
pub fn detail_download_next(state: DetailState, refused: bool, file_url: &str) -> (r: DetailAction)
    ensures
        match r {
            DetailAction::Proceed => !refused,
            DetailAction::Retry(next) => refused && match state {
                DetailState::DetailPage { retried } => !retried && next == (DetailState::DetailPage {
                    retried: true,
                }),
                DetailState::SubtitleFile { retried } => !retried && next == (DetailState::SubtitleFile {
                    retried: true,
                }),
            },
            DetailAction::Fail(e) => refused && match state {
                DetailState::DetailPage { retried } => retried,
                DetailState::SubtitleFile { retried } => retried,
            } && e@ == detail_refused_message(state, file_url@),
        },
{
    if !refused {
        return DetailAction::Proceed;
    }
    match state {
        DetailState::DetailPage { retried } => {
            if retried {
                DetailAction::Fail(String::from_str("assrt 详情页请求失败: 493"))
            } else {
                DetailAction::Retry(DetailState::DetailPage { retried: true })
            }
        },
        DetailState::SubtitleFile { retried } => {
            if retried {
                let mut m: Vec<char> = Vec::new();
                push_str(&mut m, "assrt 单文件下载失败: 493 (");
                push_str(&mut m, file_url);
                push_str(&mut m, ")");
                DetailAction::Fail(string_of(&m))
            } else {
                DetailAction::Retry(DetailState::SubtitleFile { retried: true })
            }
        },
    }
}

/// A curl run of a subtitle download.
#[derive(Debug, Clone, Copy, PartialEq, Eq, Structural)]
pub enum CurlRun {
    /// Warming the session.
    Warmup,
    /// Fetching the detail page.
    DetailPage,
    /// Fetching the subtitle file, again where `retried`.
    SubtitleFile { retried: bool },
}

/// The error of a curl run that could not start (`started` false) or ended in failure:
/// what the run was, then `detail` (the start error, or curl's trimmed error output).
pub open spec fn curl_failure_text(run: CurlRun, started: bool, detail: Seq<char>) -> Seq<char> {
    let what = match run {
        CurlRun::Warmup => "curl 预热 assrt 会话失败"@,
        CurlRun::DetailPage => "curl 获取 assrt 详情页失败"@,
        CurlRun::SubtitleFile { retried } => if retried {
            "curl 重试下载 assrt 字幕失败"@
        } else {
            "curl 下载 assrt 字幕失败"@
        },
    };
    (if started {
        what
    } else {
        "调用 "@ + what
    }) + ": "@ + detail
}

/// The error of a failed curl run; see [`curl_failure_text`].
pub fn curl_failure_message(run: CurlRun, started: bool, detail: &str) -> (r: String)
    ensures
        r@ == curl_failure_text(run, started, detail@),
{
    let mut m: Vec<char> = Vec::new();
    if !started {
        push_str(&mut m, "调用 ");
    }
    match run {
        CurlRun::Warmup => push_str(&mut m, "curl 预热 assrt 会话失败"),
        CurlRun::DetailPage => push_str(&mut m, "curl 获取 assrt 详情页失败"),
        CurlRun::SubtitleFile { retried } => {
            if retried {
                push_str(&mut m, "curl 重试下载 assrt 字幕失败");
            } else {
                push_str(&mut m, "curl 下载 assrt 字幕失败");
            }
        },
    }
    push_str(&mut m, ": ");
    push_str(&mut m, detail);
    string_of(&m)
}

#[derive(Debug)]
pub struct DownloadedSubtitle {
    pub name: String,
    pub format: String,
    pub content: Vec<u8>,
}

/// The scores of candidate files, each a `(name, format)` pair, for a wanted language.
pub open spec fn candidate_scores(files: Seq<(String, String)>, preferred: Seq<char>) -> Seq<int> {
    Seq::new(files.len(), |i: int| language_score(files[i].0@, preferred) + format_score(files[i].1@))
}

/// The candidate file that fits the wanted language best (the last of equally good
/// ones); `None` without candidates.
pub fn select_subtitle(files: &Vec<(String, String)>, preferred_language: &str) -> (r: Option<usize>)
    ensures
        match r {
            Some(i) => {
                &&& 0 <= i < files@.len()
                &&& forall|k: int|
                    0 <= k < files@.len() ==> #[trigger] candidate_scores(files@, preferred_language@)[k]
                        <= candidate_scores(files@, preferred_language@)[i as int]
                &&& forall|k: int|
                    i < k < files@.len() ==> #[trigger] candidate_scores(files@, preferred_language@)[k]
                        < candidate_scores(files@, preferred_language@)[i as int]
            },
            None => files@.len() == 0,
        },
{
    let mut scores: Vec<i32> = Vec::new();
    let mut i: usize = 0;
    while i < files.len()
        invariant
            i <= files@.len(),
            scores@.len() == i,
            forall|k: int|
                0 <= k < i ==> (#[trigger] scores@[k]) as int == candidate_scores(files@, preferred_language@)[k],
        decreases files@.len() - i,
    {
        scores.push(score_subtitle_name(files[i].0.as_str(), files[i].1.as_str(), preferred_language));
        i = i + 1;
    }
    let r = best_score_index(&scores);
    proof {
        let c = candidate_scores(files@, preferred_language@);
        if let Some(b) = r {
            assert(scores@[b as int] as int == c[b as int]);
            assert forall|k: int| 0 <= k < files@.len() implies #[trigger] c[k] <= c[b as int] by {
                assert(scores@[k] as int == c[k]);
            }
            assert forall|k: int| b < k < files@.len() implies #[trigger] c[k] < c[b as int] by {
                assert(scores@[k] as int == c[k]);
            }
        }
    }
    r
}

/// What a download by archive link is: the archive's file name (from the link, else
/// the subtitle id), the name the subtitle is given (the requested one, else the file
/// name), and the format where the file is a subtitle itself rather than an archive.
pub struct ArchiveDownload {
    pub download_path: String,
    pub file_name: String,
    pub subtitle_name: String,
    pub format: Option<String>,
}

/// How a subtitle is downloaded by its archive link; an error where the search result
/// carried none.
pub fn plan_archive_download(request: &SubtitleDownloadRequest) -> (r: Result<ArchiveDownload, String>)
    ensures
        match r {
            Ok(plan) => {
                &&& request.download_path matches Some(p) && plan.download_path@ == p@
                &&& plan.file_name@ == file_name_part(plan.download_path@, request.subtitle_id@)
                &&& plan.subtitle_name@ == match request.name {
                    Some(n) => n@,
                    None => plan.file_name@,
                }
                &&& opt_view(plan.format) == format_code(plan.file_name@)
            },
            Err(e) => request.download_path is None && e@ == "assrt 搜索结果缺少下载地址"@,
        },
{
    let download_path = match &request.download_path {
        Some(p) => p.clone(),
        None => return Err(String::from_str("assrt 搜索结果缺少下载地址")),
    };
    let file_name = filename_from_path(download_path.as_str(), request.subtitle_id.as_str());
    let subtitle_name = match &request.name {
        Some(n) => n.clone(),
        None => file_name.clone(),
    };
    let format = normalize_format(file_name.as_str());
    Ok(ArchiveDownload { download_path, file_name, subtitle_name, format })
}


/// Whether the name of a subtitle file marks it as being in the preferred language:
/// `chs` or 简 for zh-CN, `cht` or 繁 for zh-TW, `eng` or 英文 for en, `jpn` or 日 for
/// ja, `kor`, 韩 or 韓 for ko (the Latin markers in any ASCII case).
pub open spec fn marks_language(name: Seq<char>, preferred: Seq<char>) -> bool {
    let lower = lower_seq(name);
    if preferred == "zh-CN"@ {
        contains_seq(lower, "chs"@) || name.contains('简')
    } else if preferred == "zh-TW"@ {
        contains_seq(lower, "cht"@) || name.contains('繁')
    } else if preferred == "en"@ {
        contains_seq(lower, "eng"@) || contains_seq(name, "英文"@)
    } else if preferred == "ja"@ {
        contains_seq(lower, "jpn"@) || name.contains('日')
    } else if preferred == "ko"@ {
        contains_seq(lower, "kor"@) || name.contains('韩') || name.contains('韓')
    } else {
        false
    }
}

/// For each language with name markers, a file whose name marks the preferred
/// language scores above every file whose name does not, whatever the two formats.
pub proof fn law_language_marker_outranks_format(
    a: Seq<char>,
    format_a: Seq<char>,
    b: Seq<char>,
    format_b: Seq<char>,
    preferred: Seq<char>,
)
    requires
        marks_language(a, preferred),
        !marks_language(b, preferred),
    ensures
        language_score(a, preferred) + format_score(format_a) > language_score(b, preferred)
            + format_score(format_b),
{
    reveal_strlit("zh-CN");
    reveal_strlit("zh-TW");
    reveal_strlit("en");
    reveal_strlit("ja");
    reveal_strlit("ko");
    reveal_strlit("srt");
    reveal_strlit("ass");
    reveal_strlit("ssa");
    reveal_strlit("vtt");
}

} // verus!
