//! Matching a URL to a provider, and the analysis of a URL that combines that match with
//! what yt-dlp reports.
use vstd::prelude::*;
use crate::catalog::{
    ProviderCatalogEntry, find_provider_by_host, find_provider_by_id, first_entry_from, host_is,
    id_is,
};
use crate::json::{JsonValue, JsonView, json_get, json_str_field, str_field};
use crate::models::{
    AnalyzeOnlineMediaRequest, AnalyzeOnlineMediaResponse, CollectionItem, OnlineMediaCapability,
    OnlineMediaProvider, ResolveCollectionResponse,
};
use crate::music::{merge_content_types, merged_content_type, or_else};
use crate::paths::{extension_of, path_extension};
use crate::task_manager::clone_opt;
use crate::text::{
    chars_of, eq_ignore_case, eq_ignore_case_chars, lower_seq, lower_string, opt_view, push_str,
    starts_with_chars, string_of, strings_view, trim, trim_chars,
};
use crate::urls::{
    url_host, url_host_of, url_path_segments, url_query_of, url_query_pairs, url_segments_of,
};
use crate::ytdlp::AnalyzeResult;

verus! {

/// The provider a URL was matched to, and what the match says about the URL.
#[derive(Debug)]
pub struct ProviderMatch {
    pub provider: OnlineMediaProvider,
    pub source_site: String,
    pub normalized_url: String,
    pub external_id: Option<String>,
    pub source_id: Option<String>,
    pub content_type: String,
}

/// The first path segment that begins with `BV` after trimming, trimmed.
pub open spec fn bv_in_segments(segs: Seq<Seq<char>>) -> Option<Seq<char>>
    decreases segs.len(),
{
    if segs.len() == 0 {
        None
    } else if "BV"@.is_prefix_of(trim(segs[0])) {
        Some(trim(segs[0]))
    } else {
        bv_in_segments(segs.drop_first())
    }
}

pub open spec fn bilibili_bv_of(url: Seq<char>) -> Option<Seq<char>> {
    match url_segments_of(url) {
        Some(segs) => bv_in_segments(segs),
        None => None,
    }
}

/// The Bilibili video id (`BV…`) among the URL's path segments.
pub fn extract_bilibili_bv_from_url(url: &str) -> (r: Option<String>)
    ensures
        opt_view(r) == bilibili_bv_of(url@),
{
    let segments = match url_path_segments(url) {
        Some(s) => s,
        None => return None,
    };
    let ghost segs = strings_view(segments@);
    let bv = chars_of("BV");
    let mut i: usize = 0;
    assert(segs.skip(0) =~= segs);
    while i < segments.len()
        invariant
            i <= segments@.len(),
            segs == strings_view(segments@),
            bv@ == "BV"@,
            url_segments_of(url@) == Some(segs),
            bv_in_segments(segs) == bv_in_segments(segs.skip(i as int)),
        decreases segments@.len() - i,
    {
        proof {
            assert(segs.skip(i as int)[0] == segments@[i as int]@);
            assert(segs.skip(i as int).drop_first() =~= segs.skip(i as int + 1));
        }
        let sv = chars_of(segments[i].as_str());
        let t = trim_chars(&sv);
        if starts_with_chars(&t, &bv) {
            return Some(string_of(&t));
        }
        i = i + 1;
    }
    None
}

pub open spec fn last_segment(url: Seq<char>) -> Option<Seq<char>> {
    match url_segments_of(url) {
        Some(segs) => if segs.len() > 0 {
            Some(segs.last())
        } else {
            None
        },
        None => None,
    }
}

pub open spec fn stream_url(url: Seq<char>) -> bool {
    match last_segment(url) {
        Some(seg) => match path_extension(lower_seq(seg)) {
            Some(e) => e == "m3u8"@ || e == "mpd"@,
            None => false,
        },
        None => false,
    }
}

fn last_path_segment(url: &str) -> (r: Option<String>)
    ensures
        opt_view(r) == last_segment(url@),
{
    match url_path_segments(url) {
        Some(mut segs) => {
            let ghost all = strings_view(segs@);
            match segs.pop() {
                Some(s) => Some(s),
                None => None,
            }
        },
        None => None,
    }
}

/// Whether the URL points at an HLS or DASH manifest: its last path segment, in lower
/// case, has the extension `m3u8` or `mpd`.
pub fn is_stream_url(url: &str) -> (r: bool)
    ensures
        r == stream_url(url@),
{
    match last_path_segment(url) {
        Some(seg) => {
            let lower = lower_string(seg.as_str());
            match extension_of(lower.as_str()) {
                Some(e) => crate::text::str_eq(e.as_str(), "m3u8") || crate::text::str_eq(
                    e.as_str(),
                    "mpd",
                ),
                None => false,
            }
        },
        None => false,
    }
}

/// The value of the first query pair named `key`.
pub open spec fn query_value(pairs: Seq<(Seq<char>, Seq<char>)>, key: Seq<char>) -> Option<Seq<char>>
    decreases pairs.len(),
{
    if pairs.len() == 0 {
        None
    } else if pairs[0].0 == key {
        Some(pairs[0].1)
    } else {
        query_value(pairs.drop_first(), key)
    }
}

pub open spec fn youtube_id_of(url: Seq<char>) -> Option<Seq<char>> {
    match url_host_of(url) {
        None => None,
        Some(h) => if eq_ignore_case(h, "youtu.be"@) {
            last_segment(url)
        } else {
            query_value(url_query_of(url), "v"@)
        },
    }
}

/// The YouTube video id: the last path segment of a `youtu.be` link, else the `v`
/// query parameter.
pub fn extract_youtube_video_id_from_url(url: &str) -> (r: Option<String>)
    ensures
        opt_view(r) == youtube_id_of(url@),
{
    let host = match url_host(url) {
        Some(h) => h,
        None => return None,
    };
    let hv = chars_of(host.as_str());
    let short = chars_of("youtu.be");
    if eq_ignore_case_chars(&hv, &short) {
        return last_path_segment(url);
    }
    let pairs = url_query_pairs(url);
    let ghost pv = crate::urls::query_view(pairs@);
    let mut i: usize = 0;
    assert(pv.skip(0) =~= pv);
    while i < pairs.len()
        invariant
            i <= pairs@.len(),
            pv == crate::urls::query_view(pairs@),
            pv == url_query_of(url@),
            url_host_of(url@) == Some(host@),
            !eq_ignore_case(host@, "youtu.be"@),
            query_value(pv, "v"@) == query_value(pv.skip(i as int), "v"@),
        decreases pairs@.len() - i,
    {
        proof {
            assert(pv.skip(i as int)[0] == (pairs@[i as int].0@, pairs@[i as int].1@));
            assert(pv.skip(i as int).drop_first() =~= pv.skip(i as int + 1));
        }
        if crate::text::str_eq(pairs[i].0.as_str(), "v") {
            return Some(pairs[i].1.clone());
        }
        i = i + 1;
    }
    None
}

pub open spec fn source_id_for(url: Seq<char>, provider_id: Seq<char>) -> Option<Seq<char>> {
    if provider_id == "youtube"@ {
        youtube_id_of(url)
    } else if provider_id == "bilibili"@ {
        bilibili_bv_of(url)
    } else {
        None
    }
}

/// The source id a provider's URL carries: the YouTube video id or the Bilibili `BV`
/// id; `None` for other providers.
pub fn extract_source_id_from_url(url: &str, provider_id: &str) -> (r: Option<String>)
    ensures
        opt_view(r) == source_id_for(url@, provider_id@),
{
    if crate::text::str_eq(provider_id, "youtube") {
        extract_youtube_video_id_from_url(url)
    } else if crate::text::str_eq(provider_id, "bilibili") {
        extract_bilibili_bv_from_url(url)
    } else {
        None
    }
}

/// A match with catalog entry `entry`.
pub open spec fn matched_with(
    m: ProviderMatch,
    entry: ProviderCatalogEntry,
    normalized_url: Seq<char>,
    external_id: Option<Seq<char>>,
    source_id: Option<Seq<char>>,
    content_type: Option<Seq<char>>,
) -> bool {
    &&& m.provider.id@ == entry.id@
    &&& m.provider.name@ == entry.name@
    &&& m.provider.display_name == Some(entry.display_name)
    &&& m.provider.supported_content_types@ == entry.supported_content_types@
    &&& m.provider.requires_auth == entry.requires_auth
    &&& m.source_site@ == entry.source_site@
    &&& m.normalized_url@ == normalized_url
    &&& opt_view(m.external_id) == external_id
    &&& opt_view(m.source_id) == source_id
    &&& m.content_type@ == match content_type {
        Some(c) => c,
        None => entry.default_content_type@,
    }
}

/// The match of a URL with a catalog entry; the content type is the one given, else
/// the entry's default.
pub fn match_catalog_provider(
    entry: &ProviderCatalogEntry,
    normalized_url: &str,
    external_id: Option<String>,
    source_id: Option<String>,
    content_type: Option<&str>,
) -> (r: ProviderMatch)
    ensures
        matched_with(
            r,
            *entry,
            normalized_url@,
            opt_view(external_id),
            opt_view(source_id),
            match content_type {
                Some(c) => Some(c@),
                None => None,
            },
        ),
{
    ProviderMatch {
        provider: entry.to_provider(),
        source_site: entry.source_site.clone(),
        normalized_url: String::from_str(normalized_url),
        external_id,
        source_id,
        content_type: match content_type {
            Some(c) => String::from_str(c),
            None => entry.default_content_type.clone(),
        },
    }
}

/// The provider a URL matches: the catalog's `stream` entry for an HLS or DASH
/// manifest; otherwise the first entry whose hosts match the URL's lower-cased host,
/// with the source id (and external id) the URL carries for it.
pub open spec fn detected(cat: Seq<ProviderCatalogEntry>, url: Seq<char>, r: Option<ProviderMatch>) -> bool {
    if stream_url(url) {
        match first_entry_from(cat, id_is("stream"@), 0) {
            Some(i) => r matches Some(m) && matched_with(m, cat[i], url, None, None, None),
            None => r is None,
        }
    } else {
        match url_host_of(url) {
            None => r is None,
            Some(h) => match first_entry_from(cat, host_is(lower_seq(h)), 0) {
                None => r is None,
                Some(i) => r matches Some(m) && matched_with(
                    m,
                    cat[i],
                    url,
                    source_id_for(url, cat[i].id@),
                    source_id_for(url, cat[i].id@),
                    None,
                ),
            },
        }
    }
}

/// The provider a URL matches in the catalog; see [`detected`].
pub fn detect_provider(catalog: &[ProviderCatalogEntry], url: &str) -> (r: Option<ProviderMatch>)
    ensures
        detected(catalog@, url@, r),
{
    if is_stream_url(url) {
        return match find_provider_by_id(catalog, "stream") {
            Some(entry) => Some(match_catalog_provider(entry, url, None, None, None)),
            None => None,
        };
    }
    let host = match url_host(url) {
        Some(h) => lower_string(h.as_str()),
        None => return None,
    };
    let entry = match find_provider_by_host(catalog, host.as_str()) {
        Some(e) => e,
        None => return None,
    };
    let source_id = extract_source_id_from_url(url, entry.id.as_str());
    let external_id = clone_opt(&source_id);
    Some(match_catalog_provider(entry, url, external_id, source_id, None))
}

/// `response` updated with what yt-dlp reported: yt-dlp's page URL, title,
/// description, thumbnail, duration, uploader and raw metadata replace the response's;
/// its ids and music fields are taken where it has them; the content types merge; its
/// warnings are added.
pub open spec fn applied_analysis(
    old_r: AnalyzeOnlineMediaResponse,
    new_r: AnalyzeOnlineMediaResponse,
    res: AnalyzeResult,
) -> bool {
    &&& new_r.is_supported == old_r.is_supported
    &&& new_r.provider == old_r.provider
    &&& new_r.capability == old_r.capability
    &&& new_r.source_site == old_r.source_site
    &&& opt_view(new_r.normalized_url) == Some(res.normalized_url@)
    &&& opt_view(new_r.source_id) == or_else(opt_view(res.source_id), opt_view(old_r.source_id))
    &&& opt_view(new_r.external_id) == or_else(opt_view(res.external_id), opt_view(old_r.external_id))
    &&& new_r.title == res.title
    &&& new_r.description == res.description
    &&& new_r.thumbnail_url == res.thumbnail_url
    &&& new_r.duration_seconds == res.duration_seconds
    &&& new_r.uploader == res.uploader
    &&& opt_view(new_r.artist) == or_else(opt_view(res.artist), opt_view(old_r.artist))
    &&& opt_view(new_r.album_artist) == or_else(opt_view(res.album_artist), opt_view(old_r.album_artist))
    &&& opt_view(new_r.album) == or_else(opt_view(res.album), opt_view(old_r.album))
    &&& opt_view(new_r.track_title) == or_else(opt_view(res.track_title), opt_view(old_r.track_title))
    &&& new_r.track_number == or_else(res.track_number, old_r.track_number)
    &&& new_r.disc_number == or_else(res.disc_number, old_r.disc_number)
    &&& opt_view(new_r.genre) == or_else(opt_view(res.genre), opt_view(old_r.genre))
    &&& opt_view(new_r.release_date) == or_else(opt_view(res.release_date), opt_view(old_r.release_date))
    &&& opt_view(new_r.content_type) == merged_content_type(
        opt_view(old_r.content_type),
        opt_view(res.content_type),
    )
    &&& new_r.requires_auth == match res.requires_auth {
        Some(b) => b,
        None => old_r.requires_auth,
    }
    &&& new_r.warnings@ == old_r.warnings@ + res.warnings@
    &&& new_r.raw_metadata == res.raw_metadata
}

fn take_or(a: Option<String>, b: &Option<String>) -> (r: Option<String>)
    ensures
        opt_view(r) == or_else(opt_view(a), opt_view(*b)),
{
    match a {
        Some(s) => Some(s),
        None => clone_opt(b),
    }
}

/// Applies what yt-dlp reported to an analysis; see [`applied_analysis`].
pub fn apply_ytdlp_analysis(response: &mut AnalyzeOnlineMediaResponse, result: AnalyzeResult)
    ensures
        applied_analysis(*old(response), *final(response), result),
{
    let ghost res = result;
    let AnalyzeResult {
        normalized_url,
        source_id,
        external_id,
        title,
        description,
        thumbnail_url,
        duration_seconds,
        uploader,
        artist,
        album_artist,
        album,
        track_title,
        track_number,
        disc_number,
        genre,
        release_date,
        content_type,
        requires_auth,
        warnings,
        raw_metadata,
    } = result;
    response.normalized_url = Some(normalized_url);
    response.source_id = take_or(source_id, &response.source_id);
    response.external_id = take_or(external_id, &response.external_id);
    response.title = title;
    response.description = description;
    response.thumbnail_url = thumbnail_url;
    response.duration_seconds = duration_seconds;
    response.uploader = uploader;
    response.artist = take_or(artist, &response.artist);
    response.album_artist = take_or(album_artist, &response.album_artist);
    response.album = take_or(album, &response.album);
    response.track_title = take_or(track_title, &response.track_title);
    response.track_number = match track_number {
        Some(n) => Some(n),
        None => response.track_number,
    };
    response.disc_number = match disc_number {
        Some(n) => Some(n),
        None => response.disc_number,
    };
    response.genre = take_or(genre, &response.genre);
    response.release_date = take_or(release_date, &response.release_date);
    let existing = clone_opt(&response.content_type);
    response.content_type = merge_content_types(existing, content_type);
    response.requires_auth = match requires_auth {
        Some(b) => b,
        None => response.requires_auth,
    };
    let mut extra = warnings;
    response.warnings.append(&mut extra);
    response.raw_metadata = raw_metadata;
}

/// The capability reported for a matched URL.
pub open spec fn matched_capability(can_download: bool) -> OnlineMediaCapability {
    OnlineMediaCapability {
        can_analyze: true,
        can_download,
        can_import_metadata: true,
        supports_collections: false,
    }
}

/// The analysis of a URL before yt-dlp is asked: what the catalog match says.
pub open spec fn initial_analysis(
    m: Option<ProviderMatch>,
    url: Seq<char>,
    ytdlp_available: bool,
    r: AnalyzeOnlineMediaResponse,
) -> bool {
    &&& r.is_supported == (m is Some)
    &&& match m {
        Some(pm) => {
            &&& r.provider matches Some(p) && same_provider(p, pm.provider)
            &&& r.capability == Some(matched_capability(ytdlp_available))
            &&& opt_view(r.source_site) == Some(pm.source_site@)
            &&& opt_view(r.source_id) == opt_view(pm.source_id)
            &&& opt_view(r.normalized_url) == Some(pm.normalized_url@)
            &&& opt_view(r.external_id) == opt_view(pm.external_id)
            &&& opt_view(r.content_type) == Some(pm.content_type@)
            &&& r.requires_auth == pm.provider.requires_auth
        },
        None => {
            &&& r.provider is None
            &&& r.capability is None
            &&& r.source_site is None
            &&& r.source_id is None
            &&& opt_view(r.normalized_url) == Some(url)
            &&& r.external_id is None
            &&& r.content_type is None
            &&& !r.requires_auth
        },
    }
    &&& r.title is None
    &&& r.description is None
    &&& r.thumbnail_url is None
    &&& r.duration_seconds is None
    &&& r.uploader is None
    &&& r.artist is None
    &&& r.album_artist is None
    &&& r.album is None
    &&& r.track_title is None
    &&& r.track_number is None
    &&& r.disc_number is None
    &&& r.genre is None
    &&& r.release_date is None
    &&& r.warnings@.len() == 0
    &&& r.raw_metadata is None
}

/// The same provider: equal fields, the content types as text.
pub open spec fn same_provider(a: OnlineMediaProvider, b: OnlineMediaProvider) -> bool {
    &&& a.id == b.id
    &&& a.name == b.name
    &&& a.display_name == b.display_name
    &&& a.supported_content_types@ == b.supported_content_types@
    &&& a.requires_auth == b.requires_auth
}

fn clone_provider(p: &OnlineMediaProvider) -> (r: OnlineMediaProvider)
    ensures
        same_provider(r, *p),
{
    let mut types: Vec<String> = Vec::new();
    let mut i: usize = 0;
    while i < p.supported_content_types.len()
        invariant
            i <= p.supported_content_types@.len(),
            types@ == p.supported_content_types@.take(i as int),
        decreases p.supported_content_types@.len() - i,
    {
        types.push(p.supported_content_types[i].clone());
        i = i + 1;
        assert(types@ =~= p.supported_content_types@.take(i as int));
    }
    assert(p.supported_content_types@.take(p.supported_content_types@.len() as int)
        =~= p.supported_content_types@);
    OnlineMediaProvider {
        id: p.id.clone(),
        name: p.name.clone(),
        display_name: clone_opt(&p.display_name),
        supported_content_types: types,
        requires_auth: p.requires_auth,
    }
}

fn initial_response(matched: &Option<ProviderMatch>, url: &str, ytdlp_available: bool) -> (r:
    AnalyzeOnlineMediaResponse)
    ensures
        initial_analysis(*matched, url@, ytdlp_available, r),
{
    match matched {
        Some(m) => AnalyzeOnlineMediaResponse {
            is_supported: true,
            provider: Some(clone_provider(&m.provider)),
            capability: Some(
                OnlineMediaCapability {
                    can_analyze: true,
                    can_download: ytdlp_available,
                    can_import_metadata: true,
                    supports_collections: false,
                },
            ),
            source_site: Some(m.source_site.clone()),
            source_id: clone_opt(&m.source_id),
            normalized_url: Some(m.normalized_url.clone()),
            title: None,
            description: None,
            thumbnail_url: None,
            duration_seconds: None,
            uploader: None,
            artist: None,
            album_artist: None,
            album: None,
            track_title: None,
            track_number: None,
            disc_number: None,
            genre: None,
            release_date: None,
            external_id: clone_opt(&m.external_id),
            content_type: Some(m.content_type.clone()),
            requires_auth: m.provider.requires_auth,
            warnings: Vec::new(),
            raw_metadata: None,
        },
        None => AnalyzeOnlineMediaResponse {
            is_supported: false,
            provider: None,
            capability: None,
            source_site: None,
            source_id: None,
            normalized_url: Some(String::from_str(url)),
            title: None,
            description: None,
            thumbnail_url: None,
            duration_seconds: None,
            uploader: None,
            artist: None,
            album_artist: None,
            album: None,
            track_title: None,
            track_number: None,
            disc_number: None,
            genre: None,
            release_date: None,
            external_id: None,
            content_type: None,
            requires_auth: false,
            warnings: Vec::new(),
            raw_metadata: None,
        },
    }
}

/// The provider reported when only yt-dlp recognises a URL.
pub open spec fn is_ytdlp_provider(p: OnlineMediaProvider) -> bool {
    &&& p.id@ == "ytdlp"@
    &&& p.name@ == "yt-dlp"@
    &&& opt_view(p.display_name) == Some("yt-dlp"@)
    &&& strings_view(p.supported_content_types@) == seq!["online_video"@, "music"@]
    &&& !p.requires_auth
}

/// The analysis of a URL: the catalog match, then yt-dlp's report.
///
/// `ytdlp` is `None` where the yt-dlp binary is not available, else the outcome of
/// asking it. A URL that only yt-dlp recognises is reported as supported by a `ytdlp`
/// provider; a failure of yt-dlp becomes a warning; a URL nobody recognises is warned
/// about as unsupported.
pub fn analyze_url(
    catalog: &[ProviderCatalogEntry],
    input: &AnalyzeOnlineMediaRequest,
    ytdlp: Option<Result<AnalyzeResult, String>>,
) -> (r: AnalyzeOnlineMediaResponse)
    ensures
        exists|m: Option<ProviderMatch>, first: AnalyzeOnlineMediaResponse|
            #![trigger detected(catalog@, input.url@, m), initial_analysis(m, input.url@, ytdlp is Some, first)]
            detected(catalog@, input.url@, m) && initial_analysis(
                m,
                input.url@,
                ytdlp is Some,
                first,
            ) && match ytdlp {
                None => {
                    &&& r == (AnalyzeOnlineMediaResponse {
                        warnings: r.warnings,
                        ..first
                    })
                    &&& strings_view(r.warnings@) == if first.is_supported {
                        seq!["yt-dlp binary not found — download disabled"@]
                    } else {
                        seq!["yt-dlp binary not found — download disabled"@, "unsupported URL"@]
                    }
                },
                Some(Err(e)) => {
                    &&& r == (AnalyzeOnlineMediaResponse {
                        warnings: r.warnings,
                        ..first
                    })
                    &&& strings_view(r.warnings@) == if first.is_supported {
                        seq![e@]
                    } else {
                        seq![e@, "unsupported URL"@]
                    }
                },
                Some(Ok(res)) => {
                    &&& r.is_supported
                    &&& if first.is_supported {
                        applied_analysis(first, r, res)
                    } else {
                        &&& r.provider matches Some(p) && is_ytdlp_provider(p)
                        &&& r.capability == Some(matched_capability(true))
                        &&& applied_analysis(
                            AnalyzeOnlineMediaResponse {
                                is_supported: true,
                                provider: r.provider,
                                capability: r.capability,
                                ..first
                            },
                            r,
                            res,
                        )
                    }
                },
            },
{
    let matched = detect_provider(catalog, input.url.as_str());
    let ghost m = matched;
    let mut response = initial_response(&matched, input.url.as_str(), ytdlp.is_some());
    let ghost first = response;
    match ytdlp {
        Some(Ok(result)) => {
            if !response.is_supported {
                response.is_supported = true;
                let mut types: Vec<String> = Vec::new();
                types.push(String::from_str("online_video"));
                types.push(String::from_str("music"));
                response.provider = Some(
                    OnlineMediaProvider {
                        id: String::from_str("ytdlp"),
                        name: String::from_str("yt-dlp"),
                        display_name: Some(String::from_str("yt-dlp")),
                        supported_content_types: types,
                        requires_auth: false,
                    },
                );
                response.capability = Some(
                    OnlineMediaCapability {
                        can_analyze: true,
                        can_download: true,
                        can_import_metadata: true,
                        supports_collections: false,
                    },
                );
                proof {
                    assert(strings_view(response.provider->0.supported_content_types@) =~= seq![
                        "online_video"@,
                        "music"@,
                    ]);
                }
            }
            let ghost mid = response;
            apply_ytdlp_analysis(&mut response, result);
            proof {
                assert(detected(catalog@, input.url@, m));
            }
        },
        Some(Err(err)) => {
            response.warnings.push(err);
            if !response.is_supported {
                response.warnings.push(String::from_str("unsupported URL"));
            }
            proof {
                assert(detected(catalog@, input.url@, m));
            }
        },
        None => {
            response.warnings.push(String::from_str("yt-dlp binary not found — download disabled"));
            if !response.is_supported {
                response.warnings.push(String::from_str("unsupported URL"));
            }
            proof {
                assert(detected(catalog@, input.url@, m));
            }
        },
    }
    response
}


/// The arguments of `yt-dlp --flat-playlist` for a collection URL, with the cookie file
/// and the item limit where they are given.
pub open spec fn collection_args_of(url: Seq<char>, cookie_file: Option<Seq<char>>, limit: Option<usize>) -> Seq<
    Seq<char>,
> {
    seq!["--flat-playlist"@, "--dump-json"@, "--no-warnings"@, "--ignore-errors"@] + match cookie_file {
        Some(c) => seq!["--cookies"@, c],
        None => Seq::<Seq<char>>::empty(),
    } + match limit {
        Some(n) => seq!["--playlist-end"@, crate::text::decimal(n as nat)],
        None => Seq::<Seq<char>>::empty(),
    } + seq![url]
}

/// The command line that lists a collection's items; see [`collection_args_of`].
pub fn collection_args(url: &str, cookie_file: Option<&str>, limit: Option<usize>) -> (r: Vec<String>)
    ensures
        strings_view(r@) == collection_args_of(
            url@,
            match cookie_file {
                Some(c) => Some(c@),
                None => None,
            },
            limit,
        ),
{
    let mut args: Vec<String> = Vec::new();
    args.push(String::from_str("--flat-playlist"));
    args.push(String::from_str("--dump-json"));
    args.push(String::from_str("--no-warnings"));
    args.push(String::from_str("--ignore-errors"));
    match cookie_file {
        Some(c) => {
            args.push(String::from_str("--cookies"));
            args.push(String::from_str(c));
        },
        None => {},
    }
    match limit {
        Some(n) => {
            args.push(String::from_str("--playlist-end"));
            args.push(crate::text::decimal_string(n as u64));
        },
        None => {},
    }
    args.push(String::from_str(url));
    proof {
        assert(strings_view(args@) =~= collection_args_of(
            url@,
            match cookie_file {
                Some(c) => Some(c@),
                None => None,
            },
            limit,
        ));
    }
    args
}

/// The string member `key` of `v`, else the string member `alt`; a member `key` that
/// is there but no string gives `None`.
pub open spec fn str_member_or(v: JsonValue, key: Seq<char>, alt: Seq<char>) -> Option<Seq<char>> {
    match json_get(v, key) {
        Some(m) => crate::json::json_str(m),
        None => match json_get(v, alt) {
            Some(m) => crate::json::json_str(m),
            None => None,
        },
    }
}

fn str_member_or_exec<'a>(v: &'a JsonValue, key: &str, alt: &str) -> (r: Option<&'a str>)
    ensures
        match r {
            Some(s) => str_member_or(*v, key@, alt@) == Some(s@),
            None => str_member_or(*v, key@, alt@) is None,
        },
{
    match v.get(key) {
        Some(m) => m.as_str(),
        None => match v.get(alt) {
            Some(m) => m.as_str(),
            None => None,
        },
    }
}

/// The URL of the last thumbnail of a playlist entry.
pub open spec fn last_thumbnail(v: JsonValue) -> Option<Seq<char>> {
    match json_get(v, "thumbnails"@) {
        Some(JsonValue::Array(items)) => if items@.len() > 0 {
            json_str_field(items@.last(), "url"@)
        } else {
            None
        },
        _ => None,
    }
}

/// What a collection item says, as text.
pub struct CollectionItemView {
    pub url: Seq<char>,
    pub title: Option<Seq<char>>,
    pub thumbnail_url: Option<Seq<char>>,
    pub duration_seconds: Option<u64>,
    pub index: int,
    pub source_id: Option<Seq<char>>,
}

impl View for CollectionItem {
    type V = CollectionItemView;

    open spec fn view(&self) -> CollectionItemView {
        CollectionItemView {
            url: self.url@,
            title: opt_view(self.title),
            thumbnail_url: opt_view(self.thumbnail_url),
            duration_seconds: self.duration_seconds,
            index: self.index as int,
            source_id: opt_view(self.source_id),
        }
    }
}

pub open spec fn items_view(v: Seq<CollectionItem>) -> Seq<CollectionItemView> {
    Seq::new(v.len(), |i: int| v[i]@)
}

/// The item a playlist entry at line `index` describes; `None` without a URL.
pub open spec fn collection_item_of(v: JsonValue, index: int) -> Option<CollectionItemView> {
    let url = match str_member_or(v, "url"@, "webpage_url"@) {
        Some(u) => u,
        None => Seq::<char>::empty(),
    };
    if url.len() == 0 {
        None
    } else {
        Some(
            CollectionItemView {
                url,
                title: json_str_field(v, "title"@),
                thumbnail_url: last_thumbnail(v),
                duration_seconds: match json_get(v, "duration"@) {
                    Some(JsonValue::Number(n)) => n.as_u64,
                    _ => None,
                },
                index,
                source_id: json_str_field(v, "id"@),
            },
        )
    }
}

/// The collection title and the items that the entries, one per output line (`None`
/// where a line is blank or no JSON), give: the title is the first entry's playlist
/// title that there is, and each entry with a URL is an item.
pub open spec fn collection_of(entries: Seq<Option<JsonValue>>) -> (Option<Seq<char>>, Seq<CollectionItemView>)
    decreases entries.len(),
{
    if entries.len() == 0 {
        (None, Seq::<CollectionItemView>::empty())
    } else {
        let (title, items) = collection_of(entries.drop_last());
        match entries.last() {
            None => (title, items),
            Some(v) => {
                let t = match title {
                    Some(t) => Some(t),
                    None => str_member_or(v, "playlist_title"@, "playlist"@),
                };
                match collection_item_of(v, entries.len() - 1) {
                    Some(item) => (t, items.push(item)),
                    None => (t, items),
                }
            },
        }
    }
}

fn collection_item(v: &JsonValue, index: usize) -> (r: Option<CollectionItem>)
    ensures
        match r {
            Some(item) => collection_item_of(*v, index as int) == Some(item@),
            None => collection_item_of(*v, index as int) is None,
        },
{
    let url = match str_member_or_exec(v, "url", "webpage_url") {
        Some(u) => u,
        None => "",
    };
    proof {
        reveal_strlit("");
    }
    if url.is_empty() {
        return None;
    }
    let thumbnail_url = match v.get("thumbnails") {
        Some(t) => match t.as_array() {
            Some(items) => if items.len() > 0 {
                match str_field(&items[items.len() - 1], "url") {
                    Some(u) => Some(String::from_str(u)),
                    None => None,
                }
            } else {
                None
            },
            None => None,
        },
        None => None,
    };
    let duration = match v.get("duration") {
        Some(JsonValue::Number(n)) => n.as_u64,
        _ => None,
    };
    let title = match str_field(v, "title") {
        Some(t) => Some(String::from_str(t)),
        None => None,
    };
    let source_id = match str_field(v, "id") {
        Some(t) => Some(String::from_str(t)),
        None => None,
    };
    Some(
        CollectionItem {
            url: String::from_str(url),
            title,
            thumbnail_url,
            duration_seconds: duration,
            index,
            source_id,
        },
    )
}

/// The response for a collection URL from yt-dlp's output: an error where it printed
/// nothing, else the collection title, the items with their line numbers, and the
/// provider the URL matches (`ytdlp` where none does).
pub fn resolve_collection_response(
    catalog: &[ProviderCatalogEntry],
    url: &str,
    stdout: &str,
    stderr: &str,
    entries: &Vec<Option<JsonValue>>,
) -> (r: Result<ResolveCollectionResponse, String>)
    ensures
        match r {
            Err(e) => trim(stdout@).len() == 0 && e@ == "yt-dlp returned no results: "@ + stderr@,
            Ok(resp) => {
                &&& trim(stdout@).len() > 0
                &&& opt_view(resp.collection_title) == collection_of(entries@).0
                &&& items_view(resp.items@) == collection_of(entries@).1
                &&& resp.collection_url@ == url@
                &&& resp.total_items == Some(resp.items@.len() as usize)
                &&& resp.next_cursor is None
                &&& exists|m: Option<ProviderMatch>|
                    #[trigger] detected(catalog@, url@, m) && resp.provider_id@ == match m {
                        Some(pm) => pm.provider.id@,
                        None => "ytdlp"@,
                    }
            },
        },
{
    let sv = chars_of(stdout);
    let t = trim_chars(&sv);
    if t.len() == 0 {
        let mut e: Vec<char> = Vec::new();
        push_str(&mut e, "yt-dlp returned no results: ");
        push_str(&mut e, stderr);
        return Err(string_of(&e));
    }
    let mut items: Vec<CollectionItem> = Vec::new();
    let mut title: Option<String> = None;
    let mut i: usize = 0;
    while i < entries.len()
        invariant
            i <= entries@.len(),
            opt_view(title) == collection_of(entries@.take(i as int)).0,
            items_view(items@) == collection_of(entries@.take(i as int)).1,
        decreases entries@.len() - i,
    {
        proof {
            assert(entries@.take(i as int + 1).drop_last() =~= entries@.take(i as int));
            assert(entries@.take(i as int + 1).last() == entries@[i as int]);
        }
        match &entries[i] {
            None => {},
            Some(v) => {
                if title.is_none() {
                    title = match str_member_or_exec(v, "playlist_title", "playlist") {
                        Some(t) => Some(String::from_str(t)),
                        None => None,
                    };
                }
                let ghost before = items_view(items@);
                match collection_item(v, i) {
                    Some(item) => {
                        items.push(item);
                        assert(items_view(items@) =~= before.push(items@.last()@));
                    },
                    None => {},
                }
            },
        }
        i = i + 1;
    }
    assert(entries@.take(entries@.len() as int) =~= entries@);
    let matched = detect_provider(catalog, url);
    let ghost m = matched;
    let provider_id = match matched {
        Some(pm) => pm.provider.id,
        None => String::from_str("ytdlp"),
    };
    let total = items.len();
    proof {
        assert(detected(catalog@, url@, m));
    }
    Ok(
        ResolveCollectionResponse {
            provider_id,
            collection_title: title,
            collection_url: String::from_str(url),
            total_items: Some(total),
            items,
            next_cursor: None,
        },
    )
}

} // verus!
