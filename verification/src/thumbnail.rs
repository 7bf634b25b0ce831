//! Thumbnails: which image type a download's poster is, where it is kept, and which
//! imported files get a copy beside them.
use vstd::prelude::*;
use crate::models::{AnalyzeOnlineMediaResponse, CreateTaskRequest, OutputFile};
use crate::music::or_else;
use crate::paths::{extension_of, file_stem_of, join_path, path_eq, path_extension, path_file_stem, path_join, paths_equal};
use crate::task_manager::clone_opt;
use crate::text::{
    chars_of, index_of, index_of_char, lower_seq, lower_string, one_of, opt_view, push_str,
    string_of, strings_view, strs_view, sub_chars, trim, trim_chars,
};
use crate::urls::{url_path, url_path_of};

verus! {

/// A poster saved next to a download.
#[derive(Debug)]
pub struct DownloadedThumbnail {
    pub path: String,
    pub extension: String,
    pub mime_type: String,
}

/// Lower case, with `jpeg` written `jpg`.
pub open spec fn normalized_ext(e: Seq<char>) -> Seq<char> {
    if lower_seq(e) == "jpeg"@ {
        "jpg"@
    } else {
        lower_seq(e)
    }
}

/// An extension in lower case, with `jpeg` written `jpg`.
pub fn normalize_extension(extension: &str) -> (r: String)
    ensures
        r@ == normalized_ext(extension@),
{
    let lower = lower_string(extension);
    if crate::text::str_eq(lower.as_str(), "jpeg") {
        String::from_str("jpg")
    } else {
        lower
    }
}

pub open spec fn is_image_ext(e: Seq<char>) -> bool {
    seq!["jpg"@, "png"@, "webp"@, "gif"@, "bmp"@, "avif"@].contains(normalized_ext(e))
}

/// Whether an extension names an image type: `jpg` (or `jpeg`), `png`, `webp`, `gif`,
/// `bmp` or `avif`, in any ASCII case.
pub fn is_image_extension(extension: &str) -> (r: bool)
    ensures
        r == is_image_ext(extension@),
{
    let n = normalize_extension(extension);
    let list = ["jpg", "png", "webp", "gif", "bmp", "avif"];
    proof {
        assert(strs_view(list@) =~= seq!["jpg"@, "png"@, "webp"@, "gif"@, "bmp"@, "avif"@]);
    }
    one_of(n.as_str(), &list)
}

/// The media type of a `Content-Type` header: the text before the first `;`, trimmed
/// and lower-cased.
pub open spec fn media_type_of(content_type: Seq<char>) -> Seq<char> {
    lower_seq(trim(content_type.take(index_of(content_type, ';'))))
}

pub open spec fn image_ext_for_type(content_type: Seq<char>) -> Option<Seq<char>> {
    let t = media_type_of(content_type);
    if t == "image/jpeg"@ {
        Some("jpg"@)
    } else if t == "image/png"@ {
        Some("png"@)
    } else if t == "image/webp"@ {
        Some("webp"@)
    } else if t == "image/gif"@ {
        Some("gif"@)
    } else if t == "image/bmp"@ {
        Some("bmp"@)
    } else if t == "image/avif"@ {
        Some("avif"@)
    } else {
        None
    }
}

/// The image extension a `Content-Type` header names; `None` for other media types.
pub fn image_extension_from_content_type(content_type: &str) -> (r: Option<&'static str>)
    ensures
        match r {
            Some(e) => image_ext_for_type(content_type@) == Some(e@),
            None => image_ext_for_type(content_type@) is None,
        },
{
    let v = chars_of(content_type);
    let k = index_of_char(&v, ';');
    let head = sub_chars(&v, 0, k);
    let t = trim_chars(&head);
    let ts = string_of(&t);
    let lower = lower_string(ts.as_str());
    let l = lower.as_str();
    if crate::text::str_eq(l, "image/jpeg") {
        Some("jpg")
    } else if crate::text::str_eq(l, "image/png") {
        Some("png")
    } else if crate::text::str_eq(l, "image/webp") {
        Some("webp")
    } else if crate::text::str_eq(l, "image/gif") {
        Some("gif")
    } else if crate::text::str_eq(l, "image/bmp") {
        Some("bmp")
    } else if crate::text::str_eq(l, "image/avif") {
        Some("avif")
    } else {
        None
    }
}

pub open spec fn image_ext_for_url(url: Seq<char>) -> Option<Seq<char>> {
    match url_path_of(url) {
        Some(p) => match path_extension(p) {
            Some(e) => if is_image_ext(normalized_ext(e)) {
                Some(normalized_ext(e))
            } else {
                None
            },
            None => None,
        },
        None => None,
    }
}

/// The image extension at the end of a URL's path, normalised; `None` where it is not
/// an image extension.
pub fn image_extension_from_url(url: &str) -> (r: Option<String>)
    ensures
        opt_view(r) == image_ext_for_url(url@),
{
    let path = match url_path(url) {
        Some(p) => p,
        None => return None,
    };
    let extension = match extension_of(path.as_str()) {
        Some(e) => e,
        None => return None,
    };
    let n = normalize_extension(extension.as_str());
    if is_image_extension(n.as_str()) {
        Some(n)
    } else {
        None
    }
}

pub open spec fn image_mime_for_ext(e: Seq<char>) -> Seq<char> {
    let n = normalized_ext(e);
    if n == "png"@ {
        "image/png"@
    } else if n == "webp"@ {
        "image/webp"@
    } else if n == "gif"@ {
        "image/gif"@
    } else if n == "bmp"@ {
        "image/bmp"@
    } else if n == "avif"@ {
        "image/avif"@
    } else {
        "image/jpeg"@
    }
}

/// The media type of an image extension; `image/jpeg` for anything unknown.
pub fn image_mime_type_from_extension(extension: &str) -> (r: &'static str)
    ensures
        r@ == image_mime_for_ext(extension@),
{
    let n = normalize_extension(extension);
    let s = n.as_str();
    if crate::text::str_eq(s, "png") {
        "image/png"
    } else if crate::text::str_eq(s, "webp") {
        "image/webp"
    } else if crate::text::str_eq(s, "gif") {
        "image/gif"
    } else if crate::text::str_eq(s, "bmp") {
        "image/bmp"
    } else if crate::text::str_eq(s, "avif") {
        "image/avif"
    } else {
        "image/jpeg"
    }
}

pub open spec fn thumbnail_ext(content_type: Option<Seq<char>>, url: Seq<char>) -> Seq<char> {
    let from_type = match content_type {
        Some(t) => image_ext_for_type(t),
        None => None,
    };
    match or_else(from_type, image_ext_for_url(url)) {
        Some(e) => e,
        None => "jpg"@,
    }
}

/// The extension a thumbnail is saved with: the one its `Content-Type` names, else the
/// one its URL ends with, else `jpg`.
pub fn resolve_thumbnail_extension(content_type: Option<&str>, url: &str) -> (r: String)
    ensures
        r@ == thumbnail_ext(
            match content_type {
                Some(t) => Some(t@),
                None => None,
            },
            url@,
        ),
{
    let from_type = match content_type {
        Some(t) => image_extension_from_content_type(t),
        None => None,
    };
    match from_type {
        Some(e) => String::from_str(e),
        None => match image_extension_from_url(url) {
            Some(e) => e,
            None => String::from_str("jpg"),
        },
    }
}

/// The thumbnail URL of a task: its own, else the analysis's.
pub fn resolve_thumbnail_url(request: &CreateTaskRequest, analyze: &AnalyzeOnlineMediaResponse) -> (r:
    Option<String>)
    ensures
        opt_view(r) == or_else(opt_view(request.metadata.thumbnail_url), opt_view(analyze.thumbnail_url)),
{
    match &request.metadata.thumbnail_url {
        Some(t) => Some(t.clone()),
        None => clone_opt(&analyze.thumbnail_url),
    }
}

/// The page a thumbnail request names as its referer: the normalized URL, else the URL.
pub fn thumbnail_referer(request: &CreateTaskRequest) -> (r: &str)
    ensures
        r@ == (match request.normalized_url {
            Some(u) => u@,
            None => request.url@,
        }),
{
    match &request.normalized_url {
        Some(u) => u.as_str(),
        None => request.url.as_str(),
    }
}

pub open spec fn is_sidecar_target(p: Seq<char>) -> bool {
    match path_extension(p) {
        Some(e) => !seq!["json"@, "nfo"@, "part"@, "tmp"@, "ytdl"@].contains(normalized_ext(e))
            && !is_image_ext(normalized_ext(e)),
        None => false,
    }
}

/// Whether an imported file gets a copy of the thumbnail beside it: a file with an
/// extension that is neither a bookkeeping one (`json`, `nfo`, `part`, `tmp`, `ytdl`)
/// nor an image one.
pub fn is_media_sidecar_target(path: &str) -> (r: bool)
    ensures
        r == is_sidecar_target(path@),
{
    let extension = match extension_of(path) {
        Some(e) => e,
        None => return false,
    };
    let n = normalize_extension(extension.as_str());
    let list = ["json", "nfo", "part", "tmp", "ytdl"];
    proof {
        assert(strs_view(list@) =~= seq!["json"@, "nfo"@, "part"@, "tmp"@, "ytdl"@]);
    }
    !one_of(n.as_str(), &list) && !is_image_extension(n.as_str())
}

/// Where a downloaded thumbnail is kept: `.artifacts/thumbnail.<ext>` in the staging
/// directory.
pub fn thumbnail_artifact_path(staging_dir: &str, extension: &str) -> (r: String)
    ensures
        r@ == path_join(path_join(staging_dir@, ".artifacts"@), "thumbnail."@ + extension@),
{
    let dir = join_path(staging_dir, ".artifacts");
    let mut name: Vec<char> = Vec::new();
    push_str(&mut name, "thumbnail.");
    push_str(&mut name, extension);
    let n = string_of(&name);
    join_path(dir.as_str(), n.as_str())
}

/// Whether some path of `ps` equals `p` as paths.
pub open spec fn has_equal_path(ps: Seq<Seq<char>>, p: Seq<char>) -> bool {
    exists|i: int| 0 <= i < ps.len() && path_eq(ps[i], p)
}

/// The copies of a thumbnail to make for the imported files, in order: `stem.<ext>` in
/// the target folder for each media file, each destination once.
pub open spec fn thumbnail_copies_of(files: Seq<OutputFile>, target_dir: Seq<char>, ext: Seq<char>) -> Seq<
    Seq<char>,
>
    decreases files.len(),
{
    if files.len() == 0 {
        Seq::<Seq<char>>::empty()
    } else {
        let rest = thumbnail_copies_of(files.drop_last(), target_dir, ext);
        let p = files.last().path@;
        if is_sidecar_target(p) {
            match path_file_stem(p) {
                Some(stem) => {
                    let dest = path_join(target_dir, stem + "."@ + ext);
                    if has_equal_path(rest, dest) {
                        rest
                    } else {
                        rest.push(dest)
                    }
                },
                None => rest,
            }
        } else {
            rest
        }
    }
}

fn contains_equal_path(ps: &Vec<String>, p: &str) -> (r: bool)
    ensures
        r == has_equal_path(strings_view(ps@), p@),
{
    let mut i: usize = 0;
    while i < ps.len()
        invariant
            i <= ps@.len(),
            forall|k: int| 0 <= k < i ==> !path_eq(#[trigger] strings_view(ps@)[k], p@),
        decreases ps@.len() - i,
    {
        if paths_equal(ps[i].as_str(), p) {
            proof {
                assert(strings_view(ps@)[i as int] == ps@[i as int]@);
            }
            return true;
        }
        proof {
            assert(strings_view(ps@)[i as int] == ps@[i as int]@);
        }
        i = i + 1;
    }
    false
}

/// The thumbnail copies to make beside the imported files; see [`thumbnail_copies_of`].
pub fn thumbnail_sidecar_paths(files: &Vec<OutputFile>, target_dir: &str, extension: &str) -> (r: Vec<
    String,
>)
    ensures
        strings_view(r@) == thumbnail_copies_of(files@, target_dir@, extension@),
{
    let mut out: Vec<String> = Vec::new();
    let mut i: usize = 0;
    while i < files.len()
        invariant
            i <= files@.len(),
            strings_view(out@) == thumbnail_copies_of(files@.take(i as int), target_dir@, extension@),
        decreases files@.len() - i,
    {
        let ghost before = out@;
        proof {
            assert(files@.take(i as int + 1).drop_last() =~= files@.take(i as int));
        }
        let path = files[i].path.as_str();
        if is_media_sidecar_target(path) {
            match file_stem_of(path) {
                Some(stem) => {
                    let mut name: Vec<char> = Vec::new();
                    push_str(&mut name, stem.as_str());
                    push_str(&mut name, ".");
                    push_str(&mut name, extension);
                    let n = string_of(&name);
                    let dest = join_path(target_dir, n.as_str());
                    if !contains_equal_path(&out, dest.as_str()) {
                        out.push(dest);
                        assert(strings_view(out@) =~= strings_view(before).push(out@.last()@));
                    }
                },
                None => {},
            }
        }
        i = i + 1;
    }
    assert(files@.take(files@.len() as int) =~= files@);
    out
}

} // verus!
