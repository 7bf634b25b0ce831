//! URL parsing, by the `url` crate.
//!
//! What the parser makes of a URL takes the WHATWG URL standard to state, so each
//! result the library reads is named here and reached through one wrapper: the host,
//! the path, the path segments, the query pairs, and a URL with path segments
//! appended. The form-encoding of a query value is a few lines, and stated.
use vstd::prelude::*;
use crate::text::{opt_view, strings_view};

verus! {

/// The host of `url` (`Url::parse(url)` then `host_str`); `None` where parsing fails
/// or there is no host.
pub uninterp spec fn url_host_of(url: Seq<char>) -> Option<Seq<char>>;

/// The path of `url` (`Url::parse(url)` then `path`); `None` where parsing fails.
pub uninterp spec fn url_path_of(url: Seq<char>) -> Option<Seq<char>>;

/// The path segments of `url` (`Url::parse(url)` then `path_segments`); `None` where
/// parsing fails or the URL cannot be a base.
pub uninterp spec fn url_segments_of(url: Seq<char>) -> Option<Seq<Seq<char>>>;

/// The decoded query pairs of `url` (`Url::parse(url)` then `query_pairs`), in order;
/// empty where parsing fails.
pub uninterp spec fn url_query_of(url: Seq<char>) -> Seq<(Seq<char>, Seq<char>)>;

/// `base` with `segments` appended to its path (`path_segments_mut().extend`), as text;
/// `None` where `base` does not parse or cannot be a base.
pub uninterp spec fn url_extended(base: Seq<char>, segments: Seq<Seq<char>>) -> Option<Seq<char>>;

/// The UTF-8 encoding of `c`.
pub open spec fn utf8_char_bytes(c: char) -> Seq<u8> {
    let v = c as int;
    if v < 0x80 {
        seq![v as u8]
    } else if v < 0x800 {
        seq![(0xC0 + v / 64) as u8, (0x80 + v % 64) as u8]
    } else if v < 0x10000 {
        seq![(0xE0 + v / 4096) as u8, (0x80 + (v / 64) % 64) as u8, (0x80 + v % 64) as u8]
    } else {
        seq![
            (0xF0 + v / 262144) as u8,
            (0x80 + (v / 4096) % 64) as u8,
            (0x80 + (v / 64) % 64) as u8,
            (0x80 + v % 64) as u8,
        ]
    }
}

/// The UTF-8 encoding of `s`.
pub open spec fn utf8_bytes(s: Seq<char>) -> Seq<u8>
    decreases s.len(),
{
    if s.len() == 0 {
        Seq::<u8>::empty()
    } else {
        utf8_bytes(s.drop_last()) + utf8_char_bytes(s.last())
    }
}

/// The bytes that form-encoding keeps as they are: ASCII letters and digits and
/// `*`, `-`, `.`, `_`.
pub open spec fn form_unchanged(b: u8) -> bool {
    b == 0x2A || b == 0x2D || b == 0x2E || b == 0x5F || (0x30 <= b <= 0x39) || (0x41 <= b <= 0x5A)
        || (0x61 <= b <= 0x7A)
}

/// The upper-case hexadecimal digit of `n` (below 16).
pub open spec fn hex_upper(n: int) -> char {
    if n < 10 {
        (0x30 + n) as char
    } else {
        (0x41 + n - 10) as char
    }
}

/// The form-encoding of one byte: kept, `+` for a space, else `%` and two upper-case
/// hexadecimal digits.
pub open spec fn form_byte(b: u8) -> Seq<char> {
    if form_unchanged(b) {
        seq![b as char]
    } else if b == 0x20 {
        seq!['+']
    } else {
        seq!['%', hex_upper(b as int / 16), hex_upper(b as int % 16)]
    }
}

/// The form-encoding of `bytes`, byte by byte.
pub open spec fn form_bytes(bytes: Seq<u8>) -> Seq<char>
    decreases bytes.len(),
{
    if bytes.len() == 0 {
        Seq::<char>::empty()
    } else {
        form_bytes(bytes.drop_last()) + form_byte(bytes.last())
    }
}

/// `application/x-www-form-urlencoded` encoding of the UTF-8 bytes of `s`, as
/// `form_urlencoded::byte_serialize` does it.
pub open spec fn form_encoded(s: Seq<char>) -> Seq<char> {
    form_bytes(utf8_bytes(s))
}

pub open spec fn query_view(v: Seq<(String, String)>) -> Seq<(Seq<char>, Seq<char>)> {
    Seq::new(v.len(), |i: int| (v[i].0@, v[i].1@))
}

/// Calls `url::Url::parse` and `Url::host_str`; the result is the named [`url_host_of`].
#[verifier::external_body]
pub(crate) fn url_host(url: &str) -> (r: Option<String>)
    ensures
        opt_view(r) == url_host_of(url@),
{
    url::Url::parse(url).ok().and_then(|u| u.host_str().map(|h| h.to_string()))
}

/// Calls `url::Url::parse` and `Url::path`; the result is the named [`url_path_of`].
#[verifier::external_body]
pub(crate) fn url_path(url: &str) -> (r: Option<String>)
    ensures
        opt_view(r) == url_path_of(url@),
{
    url::Url::parse(url).ok().map(|u| u.path().to_string())
}

/// Calls `url::Url::parse` and `Url::path_segments`; the result is the named
/// [`url_segments_of`].
#[verifier::external_body]
pub(crate) fn url_path_segments(url: &str) -> (r: Option<Vec<String>>)
    ensures
        match r {
            Some(v) => url_segments_of(url@) == Some(strings_view(v@)),
            None => url_segments_of(url@) is None,
        },
{
    url::Url::parse(url).ok().and_then(|u| u.path_segments().map(|s| s.map(|x| x.to_string()).collect()))
}

/// Calls `url::Url::parse` and `Url::query_pairs`; the result is the named
/// [`url_query_of`].
#[verifier::external_body]
pub(crate) fn url_query_pairs(url: &str) -> (r: Vec<(String, String)>)
    ensures
        query_view(r@) == url_query_of(url@),
{
    match url::Url::parse(url) {
        Ok(u) => u.query_pairs().map(|(k, v)| (k.into_owned(), v.into_owned())).collect(),
        Err(_) => Vec::new(),
    }
}

/// Calls `url::Url::parse` on `base`, then `path_segments_mut().extend(segments)`; the
/// result is the named [`url_extended`].
#[verifier::external_body]
pub(crate) fn url_with_segments(base: &str, segments: &Vec<String>) -> (r: Option<String>)
    ensures
        opt_view(r) == url_extended(base@, strings_view(segments@)),
{
    let mut u = url::Url::parse(base).ok()?;
    u.path_segments_mut().ok()?.extend(segments.iter());
    Some(u.to_string())
}

/// Calls `url::form_urlencoded::byte_serialize` on the bytes of `s`, which keeps ASCII
/// letters, digits and `*-._`, writes a space as `+`, and every other byte as `%` and
/// two upper-case hexadecimal digits ([`form_encoded`]).
#[verifier::external_body]
pub(crate) fn form_encode(s: &str) -> (r: String)
    ensures
        r@ == form_encoded(s@),
{
    url::form_urlencoded::byte_serialize(s.as_bytes()).collect()
}

} // verus!
