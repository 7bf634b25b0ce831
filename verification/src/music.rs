//! Music metadata: what yt-dlp's metadata and a task say about a track, and how a
//! content type is detected and merged.
use vstd::prelude::*;
use crate::json::{JsonNumber, JsonValue, json_get};
use crate::models::{AnalyzeOnlineMediaResponse, TaskMetadataInput};
use crate::task_manager::clone_opt;
use crate::text::{
    all_digits, byte_prefix, byte_prefix_chars, chars_eq, chars_of, contains_chars,
    contains_seq, decimal, decimal_string, eq_ignore_case, eq_ignore_case_chars, is_digit,
    is_digit_char, opt_view, push_str, string_of, sub_chars, trim, trim_chars, utf8_len,
    utf8_len_capped, utf8_width, utf8_width_of, strs_view,
};

verus! {

#[derive(Debug, Clone)]
pub struct MusicMetadata {
    pub title: Option<String>,
    pub artist: Option<String>,
    pub album_artist: Option<String>,
    pub album: Option<String>,
    pub track_number: Option<u32>,
    pub disc_number: Option<u32>,
    pub genre: Option<String>,
    pub release_date: Option<String>,
}

pub struct MusicMetadataView {
    pub title: Option<Seq<char>>,
    pub artist: Option<Seq<char>>,
    pub album_artist: Option<Seq<char>>,
    pub album: Option<Seq<char>>,
    pub track_number: Option<u32>,
    pub disc_number: Option<u32>,
    pub genre: Option<Seq<char>>,
    pub release_date: Option<Seq<char>>,
}

impl View for MusicMetadata {
    type V = MusicMetadataView;

    open spec fn view(&self) -> MusicMetadataView {
        MusicMetadataView {
            title: opt_view(self.title),
            artist: opt_view(self.artist),
            album_artist: opt_view(self.album_artist),
            album: opt_view(self.album),
            track_number: self.track_number,
            disc_number: self.disc_number,
            genre: opt_view(self.genre),
            release_date: opt_view(self.release_date),
        }
    }
}

pub open spec fn or_else<T>(a: Option<T>, b: Option<T>) -> Option<T> {
    match a {
        Some(x) => Some(x),
        None => b,
    }
}

/// Each field from `m`, or from `fallback` where `m` has none.
pub open spec fn merged(m: MusicMetadataView, fallback: MusicMetadataView) -> MusicMetadataView {
    MusicMetadataView {
        title: or_else(m.title, fallback.title),
        artist: or_else(m.artist, fallback.artist),
        album_artist: or_else(m.album_artist, fallback.album_artist),
        album: or_else(m.album, fallback.album),
        track_number: or_else(m.track_number, fallback.track_number),
        disc_number: or_else(m.disc_number, fallback.disc_number),
        genre: or_else(m.genre, fallback.genre),
        release_date: or_else(m.release_date, fallback.release_date),
    }
}

/// Metadata with no field set.
pub open spec fn no_music_metadata() -> MusicMetadataView {
    MusicMetadataView {
        title: None,
        artist: None,
        album_artist: None,
        album: None,
        track_number: None,
        disc_number: None,
        genre: None,
        release_date: None,
    }
}

fn or_string(a: &Option<String>, b: &Option<String>) -> (r: Option<String>)
    ensures
        opt_view(r) == or_else(opt_view(*a), opt_view(*b)),
{
    match a {
        Some(s) => Some(s.clone()),
        None => clone_opt(b),
    }
}

impl MusicMetadata {
    /// Each field from `self`, or from `fallback` where `self` has none.
    pub fn merge_with(&self, fallback: &Self) -> (r: Self)
        ensures
            r@ == merged(self@, fallback@),
    {
        MusicMetadata {
            title: or_string(&self.title, &fallback.title),
            artist: or_string(&self.artist, &fallback.artist),
            album_artist: or_string(&self.album_artist, &fallback.album_artist),
            album: or_string(&self.album, &fallback.album),
            track_number: match self.track_number {
                Some(n) => Some(n),
                None => fallback.track_number,
            },
            disc_number: match self.disc_number {
                Some(n) => Some(n),
                None => fallback.disc_number,
            },
            genre: or_string(&self.genre, &fallback.genre),
            release_date: or_string(&self.release_date, &fallback.release_date),
        }
    }

    /// Whether a title, artist, album artist, album, track number or genre is known.
    pub fn has_signal(&self) -> (r: bool)
        ensures
            r == (self.title is Some || self.artist is Some || self.album_artist is Some
                || self.album is Some || self.track_number is Some || self.genre is Some),
    {
        self.title.is_some() || self.artist.is_some() || self.album_artist.is_some()
            || self.album.is_some() || self.track_number.is_some() || self.genre.is_some()
    }

    /// The first four bytes of the release date, when they end on a character boundary.
    pub fn year(&self) -> (r: Option<String>)
        ensures
            opt_view(r) == match self.release_date {
                Some(d) => byte_prefix(d@, 4),
                None => None,
            },
    {
        match &self.release_date {
            Some(d) => {
                let dv = chars_of(d.as_str());
                match byte_prefix_chars(&dv, 4) {
                    Some(p) => Some(string_of(&p)),
                    None => None,
                }
            },
            None => None,
        }
    }
}

/// Metadata with no field set.
pub fn empty_music_metadata() -> (r: MusicMetadata)
    ensures
        r@ == no_music_metadata(),
{
    MusicMetadata {
        title: None,
        artist: None,
        album_artist: None,
        album: None,
        track_number: None,
        disc_number: None,
        genre: None,
        release_date: None,
    }
}

impl Default for MusicMetadata {
    /// Metadata with no field set.
    fn default() -> (r: Self)
        ensures
            r@ == no_music_metadata(),
    {
        empty_music_metadata()
    }
}

/// `music`, in any ASCII case.
pub open spec fn is_music(content_type: Seq<char>) -> bool {
    eq_ignore_case(content_type, "music"@)
}

pub fn is_music_content_type(content_type: &str) -> (r: bool)
    ensures
        r == is_music(content_type@),
{
    let c = chars_of(content_type);
    let m = chars_of("music");
    eq_ignore_case_chars(&c, &m)
}

/// The rank of a content type: adult above music above online video above the rest.
pub open spec fn priority(content_type: Seq<char>) -> u8 {
    if content_type == "adult"@ {
        3
    } else if content_type == "music"@ {
        2
    } else if content_type == "online_video"@ {
        1
    } else {
        0
    }
}

pub fn content_type_priority(content_type: &str) -> (r: u8)
    ensures
        r == priority(content_type@),
{
    let c = chars_of(content_type);
    if chars_eq(&c, &chars_of("adult")) {
        3
    } else if chars_eq(&c, &chars_of("music")) {
        2
    } else if chars_eq(&c, &chars_of("online_video")) {
        1
    } else {
        0
    }
}

/// The content type to keep: the one given when only one is; of two, the incoming one
/// unless the existing one ranks higher.
pub open spec fn merged_content_type(existing: Option<Seq<char>>, incoming: Option<Seq<char>>) -> Option<Seq<char>> {
    match (existing, incoming) {
        (None, None) => None,
        (Some(e), None) => Some(e),
        (None, Some(i)) => Some(i),
        (Some(e), Some(i)) => if priority(i) >= priority(e) {
            Some(i)
        } else {
            Some(e)
        },
    }
}

pub fn merge_content_types(existing: Option<String>, incoming: Option<String>) -> (r: Option<String>)
    ensures
        opt_view(r) == merged_content_type(opt_view(existing), opt_view(incoming)),
{
    match (existing, incoming) {
        (None, None) => None,
        (Some(value), None) => Some(value),
        (None, Some(value)) => Some(value),
        (Some(existing), Some(incoming)) => {
            if content_type_priority(incoming.as_str()) >= content_type_priority(existing.as_str()) {
                Some(incoming)
            } else {
                Some(existing)
            }
        },
    }
}

/// The merged content type ranks at least as high as either input, and it is one of them.
pub proof fn law_merge_keeps_highest_priority(existing: Seq<char>, incoming: Seq<char>)
    ensures
        merged_content_type(Some(existing), Some(incoming)) matches Some(m) && priority(m) >= priority(existing)
            && priority(m) >= priority(incoming) && (m == existing || m == incoming),
        merged_content_type(Some(existing), None) == Some(existing),
        merged_content_type(None, Some(incoming)) == Some(incoming),
{
}

/// Merging content types in either order gives types of the same rank.
pub proof fn law_merge_content_types_rank_commutes(a: Seq<char>, b: Seq<char>)
    ensures
        priority(merged_content_type(Some(a), Some(b))->0) == priority(merged_content_type(Some(b), Some(a))->0),
{
}

/// Merging is idempotent, has the empty metadata as identity, and is associative.
pub proof fn law_merge_with_laws(a: MusicMetadataView, b: MusicMetadataView, c: MusicMetadataView)
    ensures
        merged(a, a) == a,
        merged(a, no_music_metadata()) == a,
        merged(no_music_metadata(), a) == a,
        merged(merged(a, b), c) == merged(a, merged(b, c)),
{
}

/// The text of a string value, trimmed, when not empty.
pub open spec fn nonempty_trimmed(s: Seq<char>) -> Option<Seq<char>> {
    if trim(s).len() > 0 {
        Some(trim(s))
    } else {
        None
    }
}

/// The first string among `items` whose trimmed text is not empty, trimmed.
pub open spec fn first_nonempty_str(items: Seq<JsonValue>) -> Option<Seq<char>>
    decreases items.len(),
{
    if items.len() == 0 {
        None
    } else {
        match items[0] {
            JsonValue::Str(s) => match nonempty_trimmed(s@) {
                Some(t) => Some(t),
                None => first_nonempty_str(items.drop_first()),
            },
            _ => first_nonempty_str(items.drop_first()),
        }
    }
}

/// The text member `key` holds: a non-blank string (trimmed), or the first non-blank
/// string of an array.
pub open spec fn member_text(v: JsonValue, key: Seq<char>) -> Option<Seq<char>> {
    match json_get(v, key) {
        Some(JsonValue::Str(s)) => nonempty_trimmed(s@),
        Some(JsonValue::Array(items)) => first_nonempty_str(items@),
        _ => None,
    }
}

/// The text of the first of `keys` that holds one.
pub open spec fn first_text(v: JsonValue, keys: Seq<Seq<char>>) -> Option<Seq<char>>
    decreases keys.len(),
{
    if keys.len() == 0 {
        None
    } else {
        match member_text(v, keys[0]) {
            Some(t) => Some(t),
            None => first_text(v, keys.drop_first()),
        }
    }
}

fn nonempty_trimmed_string(s: &str) -> (r: Option<String>)
    ensures
        opt_view(r) == nonempty_trimmed(s@),
{
    let v = chars_of(s);
    let t = trim_chars(&v);
    if t.len() > 0 {
        Some(string_of(&t))
    } else {
        None
    }
}

fn member_text_exec(v: &JsonValue, key: &str) -> (r: Option<String>)
    ensures
        opt_view(r) == member_text(*v, key@),
{
    match v.get(key) {
        Some(JsonValue::Str(s)) => nonempty_trimmed_string(s.as_str()),
        Some(JsonValue::Array(items)) => {
            let mut i: usize = 0;
            assert(items@.skip(0) =~= items@);
            while i < items.len()
                invariant
                    i <= items@.len(),
                    json_get(*v, key@) == Some(JsonValue::Array(*items)),
                    first_nonempty_str(items@) == first_nonempty_str(items@.skip(i as int)),
                decreases items@.len() - i,
            {
                proof {
                    let t = items@.skip(i as int);
                    assert(t[0] == items@[i as int]);
                    assert(t.drop_first() =~= items@.skip(i + 1));
                }
                match &items[i] {
                    JsonValue::Str(s) => {
                        let t = nonempty_trimmed_string(s.as_str());
                        if t.is_some() {
                            return t;
                        }
                    },
                    _ => {},
                }
                i = i + 1;
            }
            None
        },
        _ => None,
    }
}

/// The text of the first of `keys` that holds one; see [`first_text`].
pub fn first_string(v: &JsonValue, keys: &[&str]) -> (r: Option<String>)
    ensures
        opt_view(r) == first_text(*v, strs_view(keys@)),
{
    let mut i: usize = 0;
    assert(strs_view(keys@).skip(0) =~= strs_view(keys@));
    while i < keys.len()
        invariant
            i <= keys@.len(),
            first_text(*v, strs_view(keys@)) == first_text(*v, strs_view(keys@).skip(i as int)),
        decreases keys@.len() - i,
    {
        proof {
            let t = strs_view(keys@).skip(i as int);
            assert(t[0] == keys@[i as int]@);
            assert(t.drop_first() =~= strs_view(keys@).skip(i + 1));
        }
        let t = member_text_exec(v, keys[i]);
        if t.is_some() {
            return t;
        }
        i = i + 1;
    }
    None
}

/// `s` after its leading non-digits, up to the next non-digit.
pub open spec fn leading_digits(s: Seq<char>) -> Seq<char>
    decreases s.len(),
{
    if s.len() == 0 {
        s
    } else if !is_digit(s[0]) {
        leading_digits(s.drop_first())
    } else {
        digit_run(s)
    }
}

/// The digits at the start of `s`.
pub open spec fn digit_run(s: Seq<char>) -> Seq<char>
    decreases s.len(),
{
    if s.len() > 0 && is_digit(s[0]) {
        seq![s[0]] + digit_run(s.drop_first())
    } else {
        Seq::<char>::empty()
    }
}

/// The first run of ASCII digits in `s` as a `u32`; `None` when there is none or it
/// exceeds `u32::MAX`.
pub open spec fn parsed_u32(s: Seq<char>) -> Option<u32> {
    let d = leading_digits(s);
    if d.len() > 0 && crate::text::digits_value(d) <= u32::MAX {
        Some(crate::text::digits_value(d) as u32)
    } else {
        None
    }
}

proof fn lemma_digits_value_append(d: Seq<char>, c: char)
    ensures
        crate::text::digits_value(d.push(c)) == crate::text::digits_value(d) * 10 + crate::text::digit_value(c),
{
    assert(d.push(c).drop_last() =~= d);
}

/// Parses the first run of digits of `value`; see [`parsed_u32`].
pub fn parse_u32_string(value: &str) -> (r: Option<u32>)
    ensures
        r == parsed_u32(value@),
{
    let s = chars_of(value);
    let mut i: usize = 0;
    assert(s@.skip(0) =~= s@);
    while i < s.len() && !is_digit_char(s[i])
        invariant
            i <= s@.len(),
            leading_digits(s@) == leading_digits(s@.skip(i as int)),
        decreases s@.len() - i,
    {
        proof {
            let t = s@.skip(i as int);
            assert(t[0] == s@[i as int]);
            assert(t.drop_first() =~= s@.skip(i + 1));
        }
        i = i + 1;
    }
    let start = i;
    proof {
        let t = s@.skip(i as int);
        if i < s@.len() {
            assert(t[0] == s@[i as int]);
        }
        assert(leading_digits(s@) == digit_run(s@.skip(i as int)));
    }
    let mut acc: u64 = 0;
    let mut overflow = false;
    let ghost mut run: Seq<char> = Seq::empty();
    while i < s.len() && is_digit_char(s[i])
        invariant
            start <= i <= s@.len(),
            run == s@.subrange(start as int, i as int),
            all_digits(run),
            digit_run(s@.skip(start as int)) == run + digit_run(s@.skip(i as int)),
            !overflow ==> acc == crate::text::digits_value(run) && acc <= u32::MAX,
            overflow ==> crate::text::digits_value(run) > u32::MAX,
        decreases s@.len() - i,
    {
        let c = s[i];
        proof {
            let t = s@.skip(i as int);
            assert(t[0] == c);
            assert(t.drop_first() =~= s@.skip(i + 1));
            assert(digit_run(t) == seq![c] + digit_run(s@.skip(i + 1)));
            assert(run + (seq![c] + digit_run(s@.skip(i + 1))) =~= run.push(c) + digit_run(s@.skip(i + 1)));
            lemma_digits_value_append(run, c);
            assert(all_digits(run.push(c))) by {
                assert forall|k: int| 0 <= k < run.push(c).len() implies #[trigger] is_digit(run.push(c)[k]) by {
                    if k < run.len() {
                        assert(run.push(c)[k] == run[k]);
                    }
                }
            }
        }
        if !overflow {
            let next = acc * 10 + (c as u32 - '0' as u32) as u64;
            if next > u32::MAX as u64 {
                overflow = true;
            } else {
                acc = next;
            }
        }
        proof {
            run = run.push(c);
            assert(run =~= s@.subrange(start as int, i + 1));
        }
        i = i + 1;
    }
    proof {
        let t = s@.skip(i as int);
        if i < s@.len() {
            assert(t[0] == s@[i as int]);
        }
        assert(digit_run(t) =~= Seq::<char>::empty());
        assert(run + Seq::<char>::empty() =~= run);
    }
    if i == start || overflow {
        None
    } else {
        Some(acc as u32)
    }
}

/// The value member `key` gives as a track or disc number: an integer number
/// (truncated to 32 bits) or the first run of digits of a string.
pub open spec fn member_u32(v: JsonValue, key: Seq<char>) -> Option<u32> {
    match json_get(v, key) {
        Some(JsonValue::Number(n)) => match n.as_u64 {
            Some(x) => Some(x as u32),
            None => None,
        },
        Some(JsonValue::Str(s)) => parsed_u32(s@),
        _ => None,
    }
}

pub open spec fn first_number(v: JsonValue, keys: Seq<Seq<char>>) -> Option<u32>
    decreases keys.len(),
{
    if keys.len() == 0 {
        None
    } else {
        match member_u32(v, keys[0]) {
            Some(t) => Some(t),
            None => first_number(v, keys.drop_first()),
        }
    }
}

/// The number of the first of `keys` that holds one; see [`first_number`].
pub fn first_u32(v: &JsonValue, keys: &[&str]) -> (r: Option<u32>)
    ensures
        r == first_number(*v, strs_view(keys@)),
{
    let mut i: usize = 0;
    assert(strs_view(keys@).skip(0) =~= strs_view(keys@));
    while i < keys.len()
        invariant
            i <= keys@.len(),
            first_number(*v, strs_view(keys@)) == first_number(*v, strs_view(keys@).skip(i as int)),
        decreases keys@.len() - i,
    {
        proof {
            let t = strs_view(keys@).skip(i as int);
            assert(t[0] == keys@[i as int]@);
            assert(t.drop_first() =~= strs_view(keys@).skip(i + 1));
        }
        let t = match v.get(keys[i]) {
            Some(JsonValue::Number(n)) => match n.as_u64 {
                Some(x) => Some(x as u32),
                None => None,
            },
            Some(JsonValue::Str(s)) => parse_u32_string(s.as_str()),
            _ => None,
        };
        if t.is_some() {
            return t;
        }
        i = i + 1;
    }
    None
}

/// A release date in canonical form: `YYYYMMDD` becomes `YYYY-MM-DD`, a four-digit year
/// is kept, and text starting with `YYYY-MM-DD` gives that date.
pub open spec fn normalized_date(value: Seq<char>) -> Option<Seq<char>> {
    let t = trim(value);
    if utf8_len(t) == 8 && all_digits(t) {
        Some(t.take(4) + seq!['-'] + t.subrange(4, 6) + seq!['-'] + t.subrange(6, 8))
    } else if utf8_len(t) == 4 && all_digits(t) {
        Some(t)
    } else if utf8_len(t) >= 10 {
        match byte_prefix(t, 10) {
            Some(c) => if is_iso_date(c) {
                Some(c)
            } else {
                None
            },
            None => None,
        }
    } else {
        None
    }
}

/// Ten characters of the form `DDDD-DD-DD`.
pub open spec fn is_iso_date(c: Seq<char>) -> bool {
    c.len() == 10 && c[4] == '-' && c[7] == '-' && forall|i: int|
        0 <= i < 10 && i != 4 && i != 7 ==> #[trigger] is_digit(c[i])
}

/// The dates on which [`normalize_release_date`] does not slice inside a character.
pub open spec fn date_sliceable(value: Seq<char>) -> bool {
    let t = trim(value);
    utf8_len(t) >= 10 && !(utf8_len(t) == 8 && all_digits(t)) ==> byte_prefix(t, 10) is Some
}

proof fn lemma_utf8_len_ascii_digits(t: Seq<char>)
    requires
        all_digits(t),
    ensures
        utf8_len(t) == t.len(),
    decreases t.len(),
{
    if t.len() > 0 {
        assert(is_digit(t.last()));
        assert forall|i: int| 0 <= i < t.drop_last().len() implies #[trigger] is_digit(t.drop_last()[i]) by {
            assert(t.drop_last()[i] == t[i]);
        }
        lemma_utf8_len_ascii_digits(t.drop_last());
    }
}

/// Normalizes a release date; see [`normalized_date`].
pub fn normalize_release_date(value: &str) -> (r: Option<String>)
    requires
        date_sliceable(value@),
    ensures
        opt_view(r) == normalized_date(value@),
{
    let raw = chars_of(value);
    let t = trim_chars(&raw);
    let len = utf8_len_capped(&t, 11);
    let digits = all_digits_buf(&t);
    proof {
        if digits {
            lemma_utf8_len_ascii_digits(t@);
        }
    }
    if len == 8 && digits {
        let mut out = sub_chars(&t, 0, 4);
        out.push('-');
        let mid = sub_chars(&t, 4, 6);
        crate::text::push_all(&mut out, &mid);
        out.push('-');
        let end = sub_chars(&t, 6, 8);
        crate::text::push_all(&mut out, &end);
        assert(out@ =~= t@.take(4) + seq!['-'] + t@.subrange(4, 6) + seq!['-'] + t@.subrange(6, 8));
        return Some(string_of(&out));
    }
    if len == 4 && digits {
        return Some(string_of(&t));
    }
    if len >= 10 {
        let c = match byte_prefix_chars(&t, 10) {
            Some(c) => c,
            None => return None,
        };
        if is_iso_date_chars(&c) {
            return Some(string_of(&c));
        }
    }
    None
}

fn all_digits_buf(s: &[char]) -> (r: bool)
    ensures
        r == all_digits(s@),
{
    let mut i: usize = 0;
    while i < s.len()
        invariant
            i <= s@.len(),
            forall|k: int| 0 <= k < i ==> #[trigger] is_digit(s@[k]),
        decreases s@.len() - i,
    {
        if !is_digit_char(s[i]) {
            return false;
        }
        i = i + 1;
    }
    true
}

fn is_iso_date_chars(c: &[char]) -> (r: bool)
    ensures
        r == is_iso_date(c@),
{
    if c.len() != 10 || c[4] != '-' || c[7] != '-' {
        return false;
    }
    let mut i: usize = 0;
    while i < 10
        invariant
            c@.len() == 10,
            i <= 10,
            forall|k: int| 0 <= k < i && k != 4 && k != 7 ==> #[trigger] is_digit(c@[k]),
        decreases 10 - i,
    {
        if i != 4 && i != 7 && !is_digit_char(c[i]) {
            return false;
        }
        i = i + 1;
    }
    true
}

/// Whether the member `key` is present.
pub open spec fn has_member(v: JsonValue, key: Seq<char>) -> bool {
    json_get(v, key) is Some
}

/// The member a release date is taken from: the first of `release_date`,
/// `release_year` and `upload_date` that is present.
pub open spec fn release_member(v: JsonValue) -> Option<JsonValue> {
    if has_member(v, "release_date"@) {
        json_get(v, "release_date"@)
    } else if has_member(v, "release_year"@) {
        json_get(v, "release_year"@)
    } else {
        json_get(v, "upload_date"@)
    }
}

/// The release date of yt-dlp metadata: the first present of `release_date`,
/// `release_year` and `upload_date`, normalized, whether a string or a number.
pub open spec fn release_date_of(v: JsonValue) -> Option<Seq<char>> {
    match release_member(v) {
        Some(JsonValue::Str(s)) => normalized_date(s@),
        Some(JsonValue::Number(n)) => normalized_date(n.text@),
        _ => None,
    }
}

/// The metadata on which taking the release date does not slice inside a character.
pub open spec fn release_date_sliceable(v: JsonValue) -> bool {
    match release_member(v) {
        Some(JsonValue::Str(s)) => date_sliceable(s@),
        Some(JsonValue::Number(n)) => date_sliceable(n.text@),
        _ => true,
    }
}

pub fn first_release_date(v: &JsonValue) -> (r: Option<String>)
    requires
        release_date_sliceable(*v),
    ensures
        opt_view(r) == release_date_of(*v),
{
    let member = match v.get("release_date") {
        Some(m) => Some(m),
        None => match v.get("release_year") {
            Some(m) => Some(m),
            None => v.get("upload_date"),
        },
    };
    match member {
        Some(JsonValue::Str(s)) => normalize_release_date(s.as_str()),
        Some(JsonValue::Number(n)) => normalize_release_date(n.text.as_str()),
        _ => None,
    }
}

/// Whether [`extract_music_metadata`] can read `raw` without slicing inside a character.
pub fn release_date_is_sliceable(raw: Option<&JsonValue>) -> (r: bool)
    ensures
        r == match raw {
            Some(v) => release_date_sliceable(*v),
            None => true,
        },
{
    let v = match raw {
        Some(v) => v,
        None => return true,
    };
    let member = match v.get("release_date") {
        Some(m) => Some(m),
        None => match v.get("release_year") {
            Some(m) => Some(m),
            None => v.get("upload_date"),
        },
    };
    match member {
        Some(JsonValue::Str(s)) => date_is_sliceable(s.as_str()),
        Some(JsonValue::Number(n)) => date_is_sliceable(n.text.as_str()),
        _ => true,
    }
}

fn date_is_sliceable(value: &str) -> (r: bool)
    ensures
        r == date_sliceable(value@),
{
    let raw = chars_of(value);
    let t = trim_chars(&raw);
    let len = utf8_len_capped(&t, 11);
    let digits = all_digits_buf(&t);
    proof {
        if digits {
            lemma_utf8_len_ascii_digits(t@);
        }
    }
    if len >= 10 && !(len == 8 && digits) {
        byte_prefix_chars(&t, 10).is_some()
    } else {
        true
    }
}

/// Metadata keys that mark music.
pub open spec fn strong_member(v: JsonValue, key: Seq<char>) -> bool {
    match json_get(v, key) {
        Some(JsonValue::Str(s)) => trim(s@).len() > 0,
        Some(JsonValue::Number(_)) => true,
        Some(JsonValue::Array(items)) => items@.len() > 0,
        _ => false,
    }
}

/// A non-blank `track`, `artist`, `artists`, `album_artist`, `album`, `track_number` or
/// `disc_number` (a string, a number or a non-empty array).
pub open spec fn strong_music_metadata(raw: Option<JsonValue>) -> bool {
    match raw {
        None => false,
        Some(v) => strong_member(v, "track"@) || strong_member(v, "artist"@) || strong_member(v, "artists"@)
            || strong_member(v, "album_artist"@) || strong_member(v, "album"@) || strong_member(v, "track_number"@)
            || strong_member(v, "disc_number"@),
    }
}

fn strong_member_exec(v: &JsonValue, key: &str) -> (r: bool)
    ensures
        r == strong_member(*v, key@),
{
    match v.get(key) {
        Some(JsonValue::Str(s)) => {
            let c = chars_of(s.as_str());
            trim_chars(&c).len() > 0
        },
        Some(JsonValue::Number(_)) => true,
        Some(JsonValue::Array(items)) => items.len() > 0,
        _ => false,
    }
}

fn has_strong_music_metadata(raw: Option<&JsonValue>) -> (r: bool)
    ensures
        r == strong_music_metadata(match raw { Some(v) => Some(*v), None => None }),
{
    match raw {
        None => false,
        Some(v) => strong_member_exec(v, "track") || strong_member_exec(v, "artist")
            || strong_member_exec(v, "artists") || strong_member_exec(v, "album_artist")
            || strong_member_exec(v, "album") || strong_member_exec(v, "track_number")
            || strong_member_exec(v, "disc_number"),
    }
}

pub open spec fn is_music_item(v: JsonValue) -> bool {
    match v {
        JsonValue::Str(s) => is_music(s@),
        _ => false,
    }
}

/// A `categories` array holding the string `music` in any ASCII case.
pub open spec fn music_category(raw: Option<JsonValue>) -> bool {
    match raw {
        Some(v) => match json_get(v, "categories"@) {
            Some(JsonValue::Array(items)) => exists|i: int|
                0 <= i < items@.len() && is_music_item(#[trigger] items@[i]),
            _ => false,
        },
        None => false,
    }
}

fn has_music_category(raw: Option<&JsonValue>) -> (r: bool)
    ensures
        r == music_category(match raw { Some(v) => Some(*v), None => None }),
{
    let v = match raw {
        Some(v) => v,
        None => return false,
    };
    match v.get("categories") {
        Some(JsonValue::Array(items)) => {
            let mut i: usize = 0;
            while i < items.len()
                invariant
                    i <= items@.len(),
                    raw == Some(v),
                    json_get(*v, "categories"@) == Some(JsonValue::Array(*items)),
                    forall|k: int| 0 <= k < i ==> !is_music_item(#[trigger] items@[k]),
                decreases items@.len() - i,
            {
                match &items[i] {
                    JsonValue::Str(s) => {
                        if is_music_content_type(s.as_str()) {
                            proof {
                                let m = json_get(*v, "categories"@);
                                assert(m == Some(JsonValue::Array(*items)));
                                assert(is_music_item(items@[i as int]));
                                if let Some(JsonValue::Array(it)) = m {
                                    assert(it == *items);
                                    assert(is_music_item(it@[i as int]));
                                }
                            }
                            assert(music_category(Some(*v)));
                            return true;
                        }
                    },
                    _ => {},
                }
                i = i + 1;
            }
            false
        },
        _ => false,
    }
}

/// A `webpage_url` on `music.youtube.com`.
pub open spec fn music_url_hint(raw: Option<JsonValue>) -> bool {
    match raw {
        Some(v) => match member_text(v, "webpage_url"@) {
            Some(u) => contains_seq(u, "music.youtube.com"@),
            None => false,
        },
        None => false,
    }
}

fn has_music_url_hint(raw: Option<&JsonValue>) -> (r: bool)
    ensures
        r == music_url_hint(match raw { Some(v) => Some(*v), None => None }),
{
    let v = match raw {
        Some(v) => v,
        None => return false,
    };
    match member_text_exec(v, "webpage_url") {
        Some(u) => {
            let uc = chars_of(u.as_str());
            contains_chars(&uc, &chars_of("music.youtube.com"))
        },
        None => false,
    }
}

/// `music` when the metadata has music fields, a music category or a YouTube Music
/// page; `online_video` otherwise.
pub open spec fn detected_content_type(raw: Option<JsonValue>) -> Seq<char> {
    if strong_music_metadata(raw) || music_category(raw) || music_url_hint(raw) {
        "music"@
    } else {
        "online_video"@
    }
}

pub fn detect_ytdlp_content_type(raw_metadata: Option<&JsonValue>) -> (r: String)
    ensures
        r@ == detected_content_type(match raw_metadata { Some(v) => Some(*v), None => None }),
{
    if has_strong_music_metadata(raw_metadata) || has_music_category(raw_metadata)
        || has_music_url_hint(raw_metadata) {
        String::from_str("music")
    } else {
        String::from_str("online_video")
    }
}

/// The music metadata yt-dlp's metadata gives.
pub open spec fn music_metadata_of(raw: Option<JsonValue>) -> MusicMetadataView {
    match raw {
        None => no_music_metadata(),
        Some(v) => MusicMetadataView {
            title: first_text(v, seq!["track"@]),
            artist: first_text(v, seq!["artist"@, "artists"@, "creator"@, "uploader"@]),
            album_artist: first_text(v, seq!["album_artist"@, "creator"@, "artist"@, "uploader"@]),
            album: first_text(v, seq!["album"@, "playlist_title"@, "playlist"@]),
            track_number: first_number(v, seq!["track_number"@, "playlist_index"@]),
            disc_number: first_number(v, seq!["disc_number"@, "disc"@]),
            genre: first_text(v, seq!["genre"@, "genres"@]),
            release_date: release_date_of(v),
        },
    }
}

pub open spec fn raw_sliceable(raw: Option<JsonValue>) -> bool {
    match raw {
        Some(v) => release_date_sliceable(v),
        None => true,
    }
}

pub fn extract_music_metadata(raw_metadata: Option<&JsonValue>) -> (r: MusicMetadata)
    requires
        raw_sliceable(match raw_metadata { Some(v) => Some(*v), None => None }),
    ensures
        r@ == music_metadata_of(match raw_metadata { Some(v) => Some(*v), None => None }),
{
    let v = match raw_metadata {
        Some(v) => v,
        None => return empty_music_metadata(),
    };
    let k_album = ["album", "playlist_title", "playlist"];
    let k_title = ["track"];
    let k_artist = ["artist", "artists", "creator", "uploader"];
    let k_album_artist = ["album_artist", "creator", "artist", "uploader"];
    let k_track = ["track_number", "playlist_index"];
    let k_disc = ["disc_number", "disc"];
    let k_genre = ["genre", "genres"];
    proof {
        assert(strs_view(k_album@) =~= seq!["album"@, "playlist_title"@, "playlist"@]);
        assert(strs_view(k_title@) =~= seq!["track"@]);
        assert(strs_view(k_artist@) =~= seq!["artist"@, "artists"@, "creator"@, "uploader"@]);
        assert(strs_view(k_album_artist@) =~= seq!["album_artist"@, "creator"@, "artist"@, "uploader"@]);
        assert(strs_view(k_track@) =~= seq!["track_number"@, "playlist_index"@]);
        assert(strs_view(k_disc@) =~= seq!["disc_number"@, "disc"@]);
        assert(strs_view(k_genre@) =~= seq!["genre"@, "genres"@]);
    }
    let album = first_string(v, &k_album);
    let title = first_string(v, &k_title);
    let artist = first_string(v, &k_artist);
    let album_artist = first_string(v, &k_album_artist);
    MusicMetadata {
        title,
        artist,
        album_artist,
        album,
        track_number: first_u32(v, &k_track),
        disc_number: first_u32(v, &k_disc),
        genre: first_string(v, &k_genre),
        release_date: first_release_date(v),
    }
}

pub fn music_metadata_from_task(metadata: &TaskMetadataInput) -> (r: MusicMetadata)
    ensures
        r@ == (MusicMetadataView {
            title: opt_view(metadata.track_title),
            artist: opt_view(metadata.artist),
            album_artist: opt_view(metadata.album_artist),
            album: opt_view(metadata.album),
            track_number: metadata.track_number,
            disc_number: metadata.disc_number,
            genre: opt_view(metadata.genre),
            release_date: opt_view(metadata.release_date),
        }),
{
    MusicMetadata {
        title: clone_opt(&metadata.track_title),
        artist: clone_opt(&metadata.artist),
        album_artist: clone_opt(&metadata.album_artist),
        album: clone_opt(&metadata.album),
        track_number: metadata.track_number,
        disc_number: metadata.disc_number,
        genre: clone_opt(&metadata.genre),
        release_date: clone_opt(&metadata.release_date),
    }
}

pub fn music_metadata_from_analysis(response: &AnalyzeOnlineMediaResponse) -> (r: MusicMetadata)
    ensures
        r@ == (MusicMetadataView {
            title: opt_view(response.track_title),
            artist: opt_view(response.artist),
            album_artist: opt_view(response.album_artist),
            album: opt_view(response.album),
            track_number: response.track_number,
            disc_number: response.disc_number,
            genre: opt_view(response.genre),
            release_date: opt_view(response.release_date),
        }),
{
    MusicMetadata {
        title: clone_opt(&response.track_title),
        artist: clone_opt(&response.artist),
        album_artist: clone_opt(&response.album_artist),
        album: clone_opt(&response.album),
        track_number: response.track_number,
        disc_number: response.disc_number,
        genre: clone_opt(&response.genre),
        release_date: clone_opt(&response.release_date),
    }
}

/// A `(key, value)` pair when the trimmed value is not blank.
pub open spec fn text_pair(key: Seq<char>, value: Option<Seq<char>>) -> Seq<(Seq<char>, Seq<char>)> {
    match value {
        Some(v) => if trim(v).len() > 0 {
            seq![(key, trim(v))]
        } else {
            Seq::empty()
        },
        None => Seq::empty(),
    }
}

pub open spec fn number_pair(key: Seq<char>, value: Option<u32>) -> Seq<(Seq<char>, Seq<char>)> {
    match value {
        Some(n) => seq![(key, decimal(n as nat))],
        None => Seq::empty(),
    }
}

/// The tags embedded into an audio file, in this order: title (or the fallback title),
/// artist (or the fallback artist), album artist, album, track, disc, genre and date;
/// texts are trimmed and blank ones left out.
pub open spec fn audio_pairs(
    m: MusicMetadataView,
    fallback_title: Option<Seq<char>>,
    fallback_artist: Option<Seq<char>>,
) -> Seq<(Seq<char>, Seq<char>)> {
    text_pair("title"@, or_else(m.title, fallback_title)) + text_pair("artist"@, or_else(m.artist, fallback_artist))
        + text_pair("album_artist"@, m.album_artist) + text_pair("album"@, m.album) + number_pair(
        "track"@,
        m.track_number,
    ) + number_pair("disc"@, m.disc_number) + text_pair("genre"@, m.genre) + text_pair("date"@, m.release_date)
}

pub open spec fn pairs_view(v: Seq<(String, String)>) -> Seq<(Seq<char>, Seq<char>)> {
    Seq::new(v.len(), |i: int| (v[i].0@, v[i].1@))
}

fn push_text_pair(pairs: &mut Vec<(String, String)>, key: &str, value: Option<&str>)
    ensures
        pairs_view(final(pairs)@) == pairs_view(old(pairs)@) + text_pair(
            key@,
            match value { Some(v) => Some(v@), None => None },
        ),
{
    match value {
        Some(v) => {
            let c = chars_of(v);
            let t = trim_chars(&c);
            if t.len() > 0 {
                pairs.push((String::from_str(key), string_of(&t)));
                assert(pairs_view(pairs@) =~= pairs_view(old(pairs)@) + seq![(key@, trim(v@))]);
            } else {
                assert(pairs_view(pairs@) =~= pairs_view(old(pairs)@) + Seq::empty());
            }
        },
        None => {
            assert(pairs_view(pairs@) =~= pairs_view(old(pairs)@) + Seq::empty());
        },
    }
}

fn push_number_pair(pairs: &mut Vec<(String, String)>, key: &str, value: Option<u32>)
    ensures
        pairs_view(final(pairs)@) == pairs_view(old(pairs)@) + number_pair(key@, value),
{
    match value {
        Some(n) => {
            pairs.push((String::from_str(key), decimal_string(n as u64)));
            assert(pairs_view(pairs@) =~= pairs_view(old(pairs)@) + seq![(key@, decimal(n as nat))]);
        },
        None => {
            assert(pairs_view(pairs@) =~= pairs_view(old(pairs)@) + Seq::empty());
        },
    }
}

fn opt_str(o: &Option<String>) -> (r: Option<&str>)
    ensures
        match r { Some(v) => Some(v@), None => None } == opt_view(*o),
{
    match o {
        Some(s) => Some(s.as_str()),
        None => None,
    }
}

/// The tags embedded into an audio file; see [`audio_pairs`].
pub fn build_audio_metadata_pairs(
    metadata: &MusicMetadata,
    fallback_title: Option<&str>,
    fallback_artist: Option<&str>,
) -> (r: Vec<(String, String)>)
    ensures
        pairs_view(r@) == audio_pairs(
            metadata@,
            match fallback_title { Some(v) => Some(v@), None => None },
            match fallback_artist { Some(v) => Some(v@), None => None },
        ),
{
    let mut pairs: Vec<(String, String)> = Vec::new();
    assert(pairs_view(pairs@) =~= Seq::empty());
    let title = match opt_str(&metadata.title) {
        Some(t) => Some(t),
        None => fallback_title,
    };
    push_text_pair(&mut pairs, "title", title);
    let artist = match opt_str(&metadata.artist) {
        Some(a) => Some(a),
        None => fallback_artist,
    };
    push_text_pair(&mut pairs, "artist", artist);
    push_text_pair(&mut pairs, "album_artist", opt_str(&metadata.album_artist));
    push_text_pair(&mut pairs, "album", opt_str(&metadata.album));
    push_number_pair(&mut pairs, "track", metadata.track_number);
    push_number_pair(&mut pairs, "disc", metadata.disc_number);
    push_text_pair(&mut pairs, "genre", opt_str(&metadata.genre));
    push_text_pair(&mut pairs, "date", opt_str(&metadata.release_date));
    assert(pairs_view(pairs@) =~= audio_pairs(
        metadata@,
        match fallback_title { Some(v) => Some(v@), None => None },
        match fallback_artist { Some(v) => Some(v@), None => None },
    ));
    pairs
}


/// A `categories` array holding the string `music`, in any ASCII case, makes the
/// download music, whatever else the metadata holds.
pub proof fn law_music_category_means_music(v: JsonValue, items: Vec<JsonValue>, i: int, s: String)
    requires
        json_get(v, "categories"@) == Some(JsonValue::Array(items)),
        0 <= i < items@.len(),
        items@[i] == JsonValue::Str(s),
        crate::text::lower_seq(s@) == crate::text::lower_seq("music"@),
    ensures
        detected_content_type(Some(v)) == "music"@,
{
    assert(is_music(s@));
    assert(is_music_item(items@[i]));
    match json_get(v, "categories"@) {
        Some(JsonValue::Array(it)) => {
            assert(it == items);
            assert(0 <= i < it@.len() && is_music_item(it@[i]));
        },
        _ => {},
    }
    assert(music_category(Some(v)));
}

/// A non-blank string `artist` field is the artist, trimmed, whatever `artists`,
/// `creator` or `uploader` hold; likewise a non-blank string `track` is the title.
pub proof fn law_artist_field_wins(v: JsonValue, artist: String, track: String)
    ensures
        json_get(v, "artist"@) == Some(JsonValue::Str(artist)) && trim(artist@).len() > 0
            ==> music_metadata_of(Some(v)).artist == Some(trim(artist@)),
        json_get(v, "track"@) == Some(JsonValue::Str(track)) && trim(track@).len() > 0
            ==> music_metadata_of(Some(v)).title == Some(trim(track@)),
{
}

} // verus!
