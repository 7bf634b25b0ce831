//! The provider catalog: the sites the service knows by name, how a URL's host or a
//! yt-dlp extractor is matched to one, and the provider list that merges in yt-dlp's
//! own extractors.
//!
//! The catalog is data the service is deployed with; it is handed to these functions
//! as a slice, in its file order, which decides which entry a lookup finds first.
use vstd::prelude::*;
use crate::models::{OnlineMediaProvider, ProviderListEntry, ProviderListResponse};
use crate::text::{
    chars_of, contains_seq, ends_with_chars, index_of, index_of_char,
    lower_seq, lower_string, split_chars, split_on, str_contains, str_eq, strings_view,
    string_of, strs_view, sub_chars, trim, trim_chars, vecs_view,
};

verus! {

#[derive(Debug)]
pub struct ProviderCatalogEntry {
    pub id: String,
    pub name: String,
    pub display_name: String,
    pub source_site: String,
    pub supported_content_types: Vec<String>,
    pub default_content_type: String,
    pub requires_auth: bool,
    pub auth_configurable: bool,
    pub host_suffixes: Vec<String>,
    pub host_equals: Vec<String>,
    pub extractor_keywords: Vec<String>,
    pub source_site_aliases: Vec<String>,
    pub common_source_sites: Vec<String>,
}

/// What a provider list entry says, as text.
pub struct ProviderListEntryView {
    pub id: Seq<char>,
    pub name: Seq<char>,
    pub display_name: Seq<char>,
    pub source_site: Seq<char>,
    pub supported_content_types: Seq<Seq<char>>,
    pub requires_auth: bool,
    pub auth_configurable: bool,
    pub common_source_sites: Seq<Seq<char>>,
    pub source_site_aliases: Seq<Seq<char>>,
    pub host_suffixes: Seq<Seq<char>>,
}

impl View for ProviderListEntry {
    type V = ProviderListEntryView;

    open spec fn view(&self) -> ProviderListEntryView {
        ProviderListEntryView {
            id: self.id@,
            name: self.name@,
            display_name: self.display_name@,
            source_site: self.source_site@,
            supported_content_types: strings_view(self.supported_content_types@),
            requires_auth: self.requires_auth,
            auth_configurable: self.auth_configurable,
            common_source_sites: strings_view(self.common_source_sites@),
            source_site_aliases: strings_view(self.source_site_aliases@),
            host_suffixes: strings_view(self.host_suffixes@),
        }
    }
}

pub open spec fn list_entries_view(v: Seq<ProviderListEntry>) -> Seq<ProviderListEntryView> {
    Seq::new(v.len(), |i: int| v[i]@)
}

/// The list entry of a catalog entry.
pub open spec fn entry_listing(e: ProviderCatalogEntry) -> ProviderListEntryView {
    ProviderListEntryView {
        id: e.id@,
        name: e.name@,
        display_name: e.display_name@,
        source_site: e.source_site@,
        supported_content_types: strings_view(e.supported_content_types@),
        requires_auth: e.requires_auth,
        auth_configurable: e.auth_configurable,
        common_source_sites: strings_view(e.common_source_sites@),
        source_site_aliases: strings_view(e.source_site_aliases@),
        host_suffixes: strings_view(e.host_suffixes@),
    }
}

/// Some string of `list` satisfies `p`.
pub open spec fn any_text(list: Seq<Seq<char>>, p: spec_fn(Seq<char>) -> bool) -> bool {
    exists|i: int| 0 <= i < list.len() && #[trigger] p(list[i])
}

pub open spec fn host_matches(e: ProviderCatalogEntry, host: Seq<char>) -> bool {
    any_text(strings_view(e.host_equals@), |v: Seq<char>| v == host) || any_text(
        strings_view(e.host_suffixes@),
        |v: Seq<char>| v.is_suffix_of(host),
    )
}

pub open spec fn extractor_matches(e: ProviderCatalogEntry, key: Seq<char>) -> bool {
    any_text(strings_view(e.extractor_keywords@), |v: Seq<char>| contains_seq(key, v))
}

fn clone_strings(v: &Vec<String>) -> (r: Vec<String>)
    ensures
        r@ == v@,
{
    let mut r: Vec<String> = Vec::new();
    let mut i: usize = 0;
    while i < v.len()
        invariant
            i <= v@.len(),
            r@ == v@.take(i as int),
        decreases v@.len() - i,
    {
        r.push(v[i].clone());
        i = i + 1;
        assert(r@ =~= v@.take(i as int));
    }
    assert(v@.take(v@.len() as int) =~= v@);
    r
}

impl ProviderCatalogEntry {
    /// The provider this entry describes.
    pub fn to_provider(&self) -> (r: OnlineMediaProvider)
        ensures
            r.id@ == self.id@,
            r.name@ == self.name@,
            r.display_name == Some(self.display_name),
            r.supported_content_types@ == self.supported_content_types@,
            r.requires_auth == self.requires_auth,
    {
        OnlineMediaProvider {
            id: self.id.clone(),
            name: self.name.clone(),
            display_name: Some(self.display_name.clone()),
            supported_content_types: clone_strings(&self.supported_content_types),
            requires_auth: self.requires_auth,
        }
    }

    /// Whether `host` is one of the entry's hosts or ends with one of its suffixes.
    pub fn matches_host(&self, host: &str) -> (r: bool)
        ensures
            r == host_matches(*self, host@),
    {
        let mut i: usize = 0;
        while i < self.host_equals.len()
            invariant
                i <= self.host_equals@.len(),
                forall|k: int| 0 <= k < i ==> self.host_equals@[k]@ != host@,
            decreases self.host_equals@.len() - i,
        {
            if str_eq(self.host_equals[i].as_str(), host) {
                proof {
                    let p = |v: Seq<char>| v == host@;
                    assert(p(strings_view(self.host_equals@)[i as int]));
                }
                return true;
            }
            i = i + 1;
        }
        let hv = chars_of(host);
        let mut j: usize = 0;
        while j < self.host_suffixes.len()
            invariant
                j <= self.host_suffixes@.len(),
                hv@ == host@,
                forall|k: int| 0 <= k < j ==> !self.host_suffixes@[k]@.is_suffix_of(host@),
            decreases self.host_suffixes@.len() - j,
        {
            let sv = chars_of(self.host_suffixes[j].as_str());
            if ends_with_chars(&hv, &sv) {
                proof {
                    let p = |v: Seq<char>| v.is_suffix_of(host@);
                    assert(p(strings_view(self.host_suffixes@)[j as int]));
                }
                return true;
            }
            j = j + 1;
        }
        proof {
            let p1 = |v: Seq<char>| v == host@;
            let p2 = |v: Seq<char>| v.is_suffix_of(host@);
            assert forall|k: int| 0 <= k < strings_view(self.host_equals@).len() implies !#[trigger] p1(
                strings_view(self.host_equals@)[k],
            ) by {
                assert(strings_view(self.host_equals@)[k] == self.host_equals@[k]@);
            }
            assert forall|k: int| 0 <= k < strings_view(self.host_suffixes@).len() implies !#[trigger] p2(
                strings_view(self.host_suffixes@)[k],
            ) by {
                assert(strings_view(self.host_suffixes@)[k] == self.host_suffixes@[k]@);
            }
        }
        false
    }

    /// Whether `extractor_key` contains one of the entry's extractor keywords.
    pub fn matches_extractor_key(&self, extractor_key: &str) -> (r: bool)
        ensures
            r == extractor_matches(*self, extractor_key@),
    {
        let mut i: usize = 0;
        while i < self.extractor_keywords.len()
            invariant
                i <= self.extractor_keywords@.len(),
                forall|k: int| 0 <= k < i ==> !contains_seq(extractor_key@, self.extractor_keywords@[k]@),
            decreases self.extractor_keywords@.len() - i,
        {
            if str_contains(extractor_key, self.extractor_keywords[i].as_str()) {
                proof {
                    let p = |v: Seq<char>| contains_seq(extractor_key@, v);
                    assert(p(strings_view(self.extractor_keywords@)[i as int]));
                }
                return true;
            }
            i = i + 1;
        }
        proof {
            let p = |v: Seq<char>| contains_seq(extractor_key@, v);
            assert forall|k: int| 0 <= k < strings_view(self.extractor_keywords@).len() implies !#[trigger] p(
                strings_view(self.extractor_keywords@)[k],
            ) by {
                assert(strings_view(self.extractor_keywords@)[k] == self.extractor_keywords@[k]@);
            }
        }
        false
    }
}

/// The index of the first entry at or after `k` that satisfies `p`.
pub open spec fn first_entry_from(
    cat: Seq<ProviderCatalogEntry>,
    p: spec_fn(ProviderCatalogEntry) -> bool,
    k: int,
) -> Option<int>
    decreases cat.len() - k,
{
    if k < 0 || k >= cat.len() {
        None
    } else if p(cat[k]) {
        Some(k)
    } else {
        first_entry_from(cat, p, k + 1)
    }
}

pub open spec fn id_is(id: Seq<char>) -> spec_fn(ProviderCatalogEntry) -> bool {
    |e: ProviderCatalogEntry| e.id@ == id
}

pub open spec fn host_is(host: Seq<char>) -> spec_fn(ProviderCatalogEntry) -> bool {
    |e: ProviderCatalogEntry| host_matches(e, host)
}

pub open spec fn extractor_is(key: Seq<char>) -> spec_fn(ProviderCatalogEntry) -> bool {
    |e: ProviderCatalogEntry| extractor_matches(e, key)
}

pub open spec fn found_entry<'a>(
    cat: Seq<ProviderCatalogEntry>,
    p: spec_fn(ProviderCatalogEntry) -> bool,
    r: Option<&'a ProviderCatalogEntry>,
) -> bool {
    match first_entry_from(cat, p, 0) {
        Some(i) => r == Some(&cat[i]),
        None => r is None,
    }
}

/// The first catalog entry with id `id`.
pub fn find_provider_by_id<'a>(catalog: &'a [ProviderCatalogEntry], id: &str) -> (r: Option<
    &'a ProviderCatalogEntry,
>)
    ensures
        found_entry(catalog@, id_is(id@), r),
{
    let ghost p = id_is(id@);
    let mut i: usize = 0;
    while i < catalog.len()
        invariant
            i <= catalog@.len(),
            p == id_is(id@),
            first_entry_from(catalog@, p, 0) == first_entry_from(catalog@, p, i as int),
        decreases catalog@.len() - i,
    {
        if str_eq(catalog[i].id.as_str(), id) {
            proof {
                assert(p(catalog@[i as int]));
            }
            return Some(&catalog[i]);
        }
        proof {
            assert(!p(catalog@[i as int]));
        }
        i = i + 1;
    }
    None
}

/// The first catalog entry whose hosts match `host`.
pub fn find_provider_by_host<'a>(catalog: &'a [ProviderCatalogEntry], host: &str) -> (r: Option<
    &'a ProviderCatalogEntry,
>)
    ensures
        found_entry(catalog@, host_is(host@), r),
{
    let ghost p = host_is(host@);
    let mut i: usize = 0;
    while i < catalog.len()
        invariant
            i <= catalog@.len(),
            p == host_is(host@),
            first_entry_from(catalog@, p, 0) == first_entry_from(catalog@, p, i as int),
        decreases catalog@.len() - i,
    {
        if catalog[i].matches_host(host) {
            proof {
                assert(p(catalog@[i as int]));
            }
            return Some(&catalog[i]);
        }
        proof {
            assert(!p(catalog@[i as int]));
        }
        i = i + 1;
    }
    None
}

/// The first catalog entry whose extractor keywords match `extractor_key`.
pub fn find_provider_by_extractor_key<'a>(
    catalog: &'a [ProviderCatalogEntry],
    extractor_key: &str,
) -> (r: Option<&'a ProviderCatalogEntry>)
    ensures
        found_entry(catalog@, extractor_is(extractor_key@), r),
{
    let ghost p = extractor_is(extractor_key@);
    let mut i: usize = 0;
    while i < catalog.len()
        invariant
            i <= catalog@.len(),
            p == extractor_is(extractor_key@),
            first_entry_from(catalog@, p, 0) == first_entry_from(catalog@, p, i as int),
        decreases catalog@.len() - i,
    {
        if catalog[i].matches_extractor_key(extractor_key) {
            proof {
                assert(p(catalog@[i as int]));
            }
            return Some(&catalog[i]);
        }
        proof {
            assert(!p(catalog@[i as int]));
        }
        i = i + 1;
    }
    None
}

fn listing(e: &ProviderCatalogEntry) -> (r: ProviderListEntry)
    ensures
        r@ == entry_listing(*e),
{
    ProviderListEntry {
        id: e.id.clone(),
        name: e.name.clone(),
        display_name: e.display_name.clone(),
        source_site: e.source_site.clone(),
        supported_content_types: clone_strings(&e.supported_content_types),
        requires_auth: e.requires_auth,
        auth_configurable: e.auth_configurable,
        common_source_sites: clone_strings(&e.common_source_sites),
        source_site_aliases: clone_strings(&e.source_site_aliases),
        host_suffixes: clone_strings(&e.host_suffixes),
    }
}

/// The list entries of the catalog, in catalog order.
pub fn list_all_providers(catalog: &[ProviderCatalogEntry]) -> (r: Vec<ProviderListEntry>)
    ensures
        list_entries_view(r@) == Seq::new(catalog@.len(), |i: int| entry_listing(catalog@[i])),
{
    let mut out: Vec<ProviderListEntry> = Vec::new();
    let mut i: usize = 0;
    while i < catalog.len()
        invariant
            i <= catalog@.len(),
            out@.len() == i,
            forall|k: int| 0 <= k < i ==> (#[trigger] out@[k])@ == entry_listing(catalog@[k]),
        decreases catalog@.len() - i,
    {
        out.push(listing(&catalog[i]));
        i = i + 1;
    }
    assert(list_entries_view(out@) =~= Seq::new(catalog@.len(), |i: int| entry_listing(catalog@[i])));
    out
}

/// Whether the lower-cased `s` contains one of `keywords`.
pub open spec fn mentions_any(s: Seq<char>, keywords: Seq<Seq<char>>) -> bool {
    exists|i: int| 0 <= i < keywords.len() && contains_seq(lower_seq(s), #[trigger] keywords[i])
}

fn mentions_any_of(s: &str, keywords: &[&str]) -> (r: bool)
    ensures
        r == mentions_any(s@, strs_view(keywords@)),
{
    let lower = lower_string(s);
    let mut i: usize = 0;
    while i < keywords.len()
        invariant
            i <= keywords@.len(),
            lower@ == lower_seq(s@),
            forall|k: int| 0 <= k < i ==> !contains_seq(lower_seq(s@), #[trigger] strs_view(keywords@)[k]),
        decreases keywords@.len() - i,
    {
        if str_contains(lower.as_str(), keywords[i]) {
            proof {
                assert(strs_view(keywords@)[i as int] == keywords@[i as int]@);
            }
            return true;
        }
        proof {
            assert(strs_view(keywords@)[i as int] == keywords@[i as int]@);
        }
        i = i + 1;
    }
    false
}

pub open spec fn adult_extractor_keywords() -> Seq<Seq<char>> {
    seq![
        "porn"@, "xxx"@, "xvideo"@, "xhamster"@, "xnxx"@, "tube8"@, "redtube"@, "youporn"@,
        "spankbang"@, "eporner"@, "hentai"@, "hanime"@, "rule34"@, "noodlemagazine"@, "txxx"@,
        "hclips"@, "erome"@, "cam4"@, "chaturbate"@, "bongacams"@, "stripchat"@, "4tube"@,
        "adult"@, "sexu"@, "beeg"@, "empflix"@, "motherless"@, "drtuber"@, "slutload"@, "fux"@,
        "hellporn"@, "alphaporn"@, "sunporno"@, "goshgay"@, "lovehomeporn"@, "nubilesporn"@,
        "pornbox"@, "pornerbros"@, "pornflip"@, "pornotube"@, "porntop"@, "porntube"@, "pornez"@,
        "porntrex"@, "tokyomotion"@, "iwara"@,
    ]
}

/// Whether a yt-dlp extractor name, in lower case, contains a keyword of a known adult
/// site.
pub fn is_adult_extractor_name(name: &str) -> (r: bool)
    ensures
        r == mentions_any(name@, adult_extractor_keywords()),
{
    let keywords = [
        "porn", "xxx", "xvideo", "xhamster", "xnxx", "tube8", "redtube", "youporn", "spankbang",
        "eporner", "hentai", "hanime", "rule34", "noodlemagazine", "txxx", "hclips", "erome",
        "cam4", "chaturbate", "bongacams", "stripchat", "4tube", "adult", "sexu", "beeg",
        "empflix", "motherless", "drtuber", "slutload", "fux", "hellporn", "alphaporn",
        "sunporno", "goshgay", "lovehomeporn", "nubilesporn", "pornbox", "pornerbros",
        "pornflip", "pornotube", "porntop", "porntube", "pornez", "porntrex", "tokyomotion",
        "iwara",
    ];
    proof {
        assert(strs_view(keywords@) =~= adult_extractor_keywords());
    }
    mentions_any_of(name, &keywords)
}

pub open spec fn adult_site_keywords() -> Seq<Seq<char>> {
    seq![
        "porn"@, "xvideo"@, "xhamster"@, "iwara"@, "hanime"@, "tokyomotion"@, "xnxx"@,
        "youporn"@, "fc2"@,
    ]
}

/// Whether a source site name, in lower case, contains a keyword of a known adult site.
pub fn is_likely_adult_source_site(source_site: &str) -> (r: bool)
    ensures
        r == mentions_any(source_site@, adult_site_keywords()),
{
    let keywords = [
        "porn", "xvideo", "xhamster", "iwara", "hanime", "tokyomotion", "xnxx", "youporn", "fc2",
    ];
    proof {
        assert(strs_view(keywords@) =~= adult_site_keywords());
    }
    mentions_any_of(source_site, &keywords)
}


/// Extractor keywords too generic to tell a site (`m3u8`, `dash`, `stream`, `hls`).
pub open spec fn generic_keywords() -> Seq<Seq<char>> {
    seq!["m3u8"@, "dash"@, "stream"@, "hls"@]
}

/// The lower-cased ids and names of the catalog entries.
pub open spec fn native_names(cat: Seq<ProviderCatalogEntry>) -> Seq<Seq<char>>
    decreases cat.len(),
{
    if cat.len() == 0 {
        Seq::<Seq<char>>::empty()
    } else {
        native_names(cat.drop_last()) + seq![lower_seq(cat.last().id@), lower_seq(cat.last().name@)]
    }
}

/// The keywords of `ks` that are not generic.
pub open spec fn specific_keywords(ks: Seq<Seq<char>>) -> Seq<Seq<char>>
    decreases ks.len(),
{
    if ks.len() == 0 {
        Seq::<Seq<char>>::empty()
    } else if generic_keywords().contains(ks.last()) {
        specific_keywords(ks.drop_last())
    } else {
        specific_keywords(ks.drop_last()).push(ks.last())
    }
}

/// The site-identifying extractor keywords of the catalog.
pub open spec fn site_keywords(cat: Seq<ProviderCatalogEntry>) -> Seq<Seq<char>>
    decreases cat.len(),
{
    if cat.len() == 0 {
        Seq::<Seq<char>>::empty()
    } else {
        site_keywords(cat.drop_last()) + specific_keywords(strings_view(cat.last().extractor_keywords@))
    }
}

/// The domain recorded for an extractor module (the first pair with that key).
pub open spec fn domain_for(domains: Seq<(Seq<char>, Seq<char>)>, key: Seq<char>) -> Option<Seq<char>>
    decreases domains.len(),
{
    if domains.len() == 0 {
        None
    } else if domains[0].0 == key {
        Some(domains[0].1)
    } else {
        domain_for(domains.drop_first(), key)
    }
}

pub open spec fn domains_view(v: Seq<(String, String)>) -> Seq<(Seq<char>, Seq<char>)> {
    Seq::new(v.len(), |i: int| (v[i].0@, v[i].1@))
}

/// The list entry of a yt-dlp extractor with base name `base`.
pub open spec fn extractor_listing(
    base: Seq<char>,
    domains: Seq<(Seq<char>, Seq<char>)>,
) -> ProviderListEntryView {
    ProviderListEntryView {
        id: "ytdlp:"@ + lower_seq(base),
        name: base,
        display_name: base,
        source_site: base,
        supported_content_types: if mentions_any(base, adult_extractor_keywords()) {
            seq!["adult"@, "online_video"@]
        } else {
            seq!["online_video"@]
        },
        requires_auth: false,
        auth_configurable: false,
        common_source_sites: seq![base],
        source_site_aliases: Seq::<Seq<char>>::empty(),
        host_suffixes: match domain_for(domains, lower_seq(base)) {
            Some(d) => seq![d],
            None => Seq::<Seq<char>>::empty(),
        },
    }
}

/// The base name of an extractor line: the trimmed name up to its first `:`.
pub open spec fn extractor_base(name: Seq<char>) -> Seq<char> {
    name.take(index_of(name, ':'))
}

/// Whether a lower-cased base name belongs to a catalog provider: it is one's id or
/// name, or contains one of their site keywords.
pub open spec fn is_native_extractor(cat: Seq<ProviderCatalogEntry>, base_lower: Seq<char>) -> bool {
    native_names(cat).contains(base_lower) || exists|i: int|
        0 <= i < site_keywords(cat).len() && contains_seq(base_lower, #[trigger] site_keywords(cat)[i])
}

/// The base names seen and the entries made after reading `lines` of
/// `yt-dlp --list-extractors`: blank and broken extractors are skipped, each base name
/// is taken once, and those of catalog providers are left out.
pub open spec fn discovered(
    cat: Seq<ProviderCatalogEntry>,
    lines: Seq<Seq<char>>,
    domains: Seq<(Seq<char>, Seq<char>)>,
) -> (Seq<Seq<char>>, Seq<ProviderListEntryView>)
    decreases lines.len(),
{
    if lines.len() == 0 {
        (Seq::<Seq<char>>::empty(), Seq::<ProviderListEntryView>::empty())
    } else {
        let prev = discovered(cat, lines.drop_last(), domains);
        let name = trim(lines.last());
        if name.len() == 0 || contains_seq(name, "(CURRENTLY BROKEN)"@) {
            prev
        } else {
            let base = extractor_base(name);
            let bl = lower_seq(base);
            if prev.0.contains(bl) {
                prev
            } else if is_native_extractor(cat, bl) {
                (prev.0.push(bl), prev.1)
            } else {
                (prev.0.push(bl), prev.1.push(extractor_listing(base, domains)))
            }
        }
    }
}

fn contains_text(list: &Vec<Vec<char>>, x: &[char]) -> (r: bool)
    ensures
        r == vecs_view(list@).contains(x@),
{
    let mut i: usize = 0;
    while i < list.len()
        invariant
            i <= list@.len(),
            forall|k: int| 0 <= k < i ==> list@[k]@ != x@,
        decreases list@.len() - i,
    {
        if crate::text::chars_eq(&list[i], x) {
            proof {
                assert(vecs_view(list@)[i as int] == x@);
            }
            return true;
        }
        i = i + 1;
    }
    proof {
        if vecs_view(list@).contains(x@) {
            let k = choose|k: int| 0 <= k < vecs_view(list@).len() && vecs_view(list@)[k] == x@;
            assert(list@[k]@ == x@);
        }
    }
    false
}

fn native_names_exec(catalog: &[ProviderCatalogEntry]) -> (r: Vec<Vec<char>>)
    ensures
        vecs_view(r@) == native_names(catalog@),
{
    let mut out: Vec<Vec<char>> = Vec::new();
    let mut i: usize = 0;
    while i < catalog.len()
        invariant
            i <= catalog@.len(),
            vecs_view(out@) == native_names(catalog@.take(i as int)),
        decreases catalog@.len() - i,
    {
        let ghost before = vecs_view(out@);
        proof {
            assert(catalog@.take(i as int + 1).drop_last() =~= catalog@.take(i as int));
        }
        let idv = chars_of(catalog[i].id.as_str());
        out.push(crate::text::lower_chars(&idv));
        let namev = chars_of(catalog[i].name.as_str());
        out.push(crate::text::lower_chars(&namev));
        i = i + 1;
        assert(vecs_view(out@) =~= before + seq![
            lower_seq(catalog@[i - 1].id@),
            lower_seq(catalog@[i - 1].name@),
        ]);
    }
    assert(catalog@.take(catalog@.len() as int) =~= catalog@);
    out
}

fn is_generic_keyword(k: &str) -> (r: bool)
    ensures
        r == generic_keywords().contains(k@),
{
    let list = ["m3u8", "dash", "stream", "hls"];
    proof {
        assert(strs_view(list@) =~= generic_keywords());
    }
    crate::text::one_of(k, &list)
}

fn site_keywords_exec(catalog: &[ProviderCatalogEntry]) -> (r: Vec<Vec<char>>)
    ensures
        vecs_view(r@) == site_keywords(catalog@),
{
    let mut out: Vec<Vec<char>> = Vec::new();
    let mut i: usize = 0;
    while i < catalog.len()
        invariant
            i <= catalog@.len(),
            vecs_view(out@) == site_keywords(catalog@.take(i as int)),
        decreases catalog@.len() - i,
    {
        let ghost before = vecs_view(out@);
        let ghost ks = strings_view(catalog@[i as int].extractor_keywords@);
        proof {
            assert(catalog@.take(i as int + 1).drop_last() =~= catalog@.take(i as int));
        }
        let kws = &catalog[i].extractor_keywords;
        let mut j: usize = 0;
        while j < kws.len()
            invariant
                j <= kws@.len(),
                ks == strings_view(kws@),
                vecs_view(out@) == before + specific_keywords(ks.take(j as int)),
            decreases kws@.len() - j,
        {
            proof {
                assert(ks.take(j as int + 1).drop_last() =~= ks.take(j as int));
                assert(ks.take(j as int + 1).last() == kws@[j as int]@);
            }
            if !is_generic_keyword(kws[j].as_str()) {
                let ghost b2 = vecs_view(out@);
                out.push(chars_of(kws[j].as_str()));
                assert(vecs_view(out@) =~= b2.push(kws@[j as int]@));
            }
            j = j + 1;
        }
        assert(ks.take(kws@.len() as int) =~= ks);
        i = i + 1;
    }
    assert(catalog@.take(catalog@.len() as int) =~= catalog@);
    out
}

fn contains_any_keyword(s: &[char], keywords: &Vec<Vec<char>>) -> (r: bool)
    ensures
        r == exists|i: int| 0 <= i < keywords@.len() && contains_seq(s@, #[trigger] vecs_view(keywords@)[i]),
{
    let mut i: usize = 0;
    while i < keywords.len()
        invariant
            i <= keywords@.len(),
            forall|k: int| 0 <= k < i ==> !contains_seq(s@, #[trigger] vecs_view(keywords@)[k]),
        decreases keywords@.len() - i,
    {
        if crate::text::contains_chars(s, &keywords[i]) {
            proof {
                assert(vecs_view(keywords@)[i as int] == keywords@[i as int]@);
            }
            return true;
        }
        proof {
            assert(vecs_view(keywords@)[i as int] == keywords@[i as int]@);
        }
        i = i + 1;
    }
    false
}

fn domain_lookup(domains: &[(String, String)], key: &[char]) -> (r: Option<String>)
    ensures
        crate::text::opt_view(r) == domain_for(domains_view(domains@), key@),
{
    let ghost dv = domains_view(domains@);
    let mut i: usize = 0;
    assert(dv.skip(0) =~= dv);
    while i < domains.len()
        invariant
            i <= domains@.len(),
            dv == domains_view(domains@),
            domain_for(dv, key@) == domain_for(dv.skip(i as int), key@),
        decreases domains@.len() - i,
    {
        proof {
            assert(dv.skip(i as int)[0] == (domains@[i as int].0@, domains@[i as int].1@));
            assert(dv.skip(i as int).drop_first() =~= dv.skip(i as int + 1));
        }
        let kv = chars_of(domains[i].0.as_str());
        if crate::text::chars_eq(&kv, key) {
            return Some(domains[i].1.clone());
        }
        i = i + 1;
    }
    None
}

fn extractor_entry(base: &[char], domains: &[(String, String)]) -> (r: ProviderListEntry)
    ensures
        r@ == extractor_listing(base@, domains_view(domains@)),
{
    let base_s = string_of(base);
    let lower = crate::text::lower_chars(base);
    let mut idv: Vec<char> = Vec::new();
    crate::text::push_str(&mut idv, "ytdlp:");
    crate::text::push_all(&mut idv, &lower);
    let mut types: Vec<String> = Vec::new();
    if is_adult_extractor_name(base_s.as_str()) {
        types.push(String::from_str("adult"));
    }
    types.push(String::from_str("online_video"));
    let mut common: Vec<String> = Vec::new();
    common.push(base_s.clone());
    let mut hosts: Vec<String> = Vec::new();
    match domain_lookup(domains, &lower) {
        Some(d) => hosts.push(d),
        None => {},
    }
    let r = ProviderListEntry {
        id: string_of(&idv),
        name: base_s.clone(),
        display_name: base_s.clone(),
        source_site: base_s.clone(),
        supported_content_types: types,
        requires_auth: false,
        auth_configurable: false,
        common_source_sites: common,
        source_site_aliases: Vec::new(),
        host_suffixes: hosts,
    };
    proof {
        assert(r@.supported_content_types =~= extractor_listing(base@, domains_view(domains@)).supported_content_types);
        assert(r@.common_source_sites =~= seq![base@]);
        assert(r@.source_site_aliases =~= Seq::<Seq<char>>::empty());
        assert(r@.host_suffixes =~= extractor_listing(base@, domains_view(domains@)).host_suffixes);
    }
    r
}

/// The provider list entries for the extractors `yt-dlp --list-extractors` printed;
/// see [`discovered`].
pub fn ytdlp_extractor_entries(
    catalog: &[ProviderCatalogEntry],
    stdout: &str,
    domains: &[(String, String)],
) -> (r: Vec<ProviderListEntry>)
    ensures
        list_entries_view(r@) == discovered(catalog@, split_on(stdout@, '\n'), domains_view(domains@)).1,
{
    let native_exact = native_names_exec(catalog);
    let native_keywords = site_keywords_exec(catalog);
    let text = chars_of(stdout);
    let lines = split_chars(&text, '\n');
    let ghost ls = vecs_view(lines@);
    let ghost dv = domains_view(domains@);
    let broken = chars_of("(CURRENTLY BROKEN)");
    let mut seen: Vec<Vec<char>> = Vec::new();
    let mut entries: Vec<ProviderListEntry> = Vec::new();
    let mut i: usize = 0;
    while i < lines.len()
        invariant
            i <= lines@.len(),
            ls == vecs_view(lines@),
            ls == split_on(stdout@, '\n'),
            dv == domains_view(domains@),
            broken@ == "(CURRENTLY BROKEN)"@,
            vecs_view(native_exact@) == native_names(catalog@),
            vecs_view(native_keywords@) == site_keywords(catalog@),
            vecs_view(seen@) == discovered(catalog@, ls.take(i as int), dv).0,
            list_entries_view(entries@) == discovered(catalog@, ls.take(i as int), dv).1,
        decreases lines@.len() - i,
    {
        proof {
            assert(ls.take(i as int + 1).drop_last() =~= ls.take(i as int));
            assert(ls.take(i as int + 1).last() == lines@[i as int]@);
        }
        let name = trim_chars(&lines[i]);
        if name.len() == 0 || crate::text::contains_chars(&name, &broken) {
            i = i + 1;
            continue;
        }
        let pos = index_of_char(&name, ':');
        let base = sub_chars(&name, 0, pos);
        let base_lower = crate::text::lower_chars(&base);
        if contains_text(&seen, &base_lower) {
            i = i + 1;
            continue;
        }
        let ghost seen_before = vecs_view(seen@);
        let ghost entries_before = list_entries_view(entries@);
        let is_native = contains_text(&native_exact, &base_lower) || contains_any_keyword(
            &base_lower,
            &native_keywords,
        );
        seen.push(base_lower);
        assert(vecs_view(seen@) =~= seen_before.push(lower_seq(base@)));
        if !is_native {
            entries.push(extractor_entry(&base, domains));
            assert(list_entries_view(entries@) =~= entries_before.push(
                extractor_listing(base@, dv),
            ));
        }
        i = i + 1;
    }
    assert(ls.take(lines@.len() as int) =~= ls);
    entries
}


/// The provider list: the catalog's entries, followed, where yt-dlp is available
/// (`ytdlp_listing` is what `yt-dlp --list-extractors` printed, empty where it
/// failed), by the entries of its own extractors.
pub fn list_all_providers_with_ytdlp(
    catalog: &[ProviderCatalogEntry],
    ytdlp_listing: Option<&str>,
    domains: &[(String, String)],
) -> (r: ProviderListResponse)
    ensures
        r.ytdlp_available == (ytdlp_listing is Some),
        list_entries_view(r.providers@) == Seq::new(catalog@.len(), |i: int| entry_listing(catalog@[i]))
            + match ytdlp_listing {
            Some(out) => discovered(catalog@, split_on(out@, '\n'), domains_view(domains@)).1,
            None => Seq::<ProviderListEntryView>::empty(),
        },
{
    let mut entries = list_all_providers(catalog);
    let ghost native = list_entries_view(entries@);
    match ytdlp_listing {
        Some(out) => {
            let mut extra = ytdlp_extractor_entries(catalog, out, domains);
            let ghost extra_view = list_entries_view(extra@);
            entries.append(&mut extra);
            assert(list_entries_view(entries@) =~= native + extra_view);
        },
        None => {
            assert(list_entries_view(entries@) =~= native + Seq::<ProviderListEntryView>::empty());
        },
    }
    ProviderListResponse { providers: entries, ytdlp_available: ytdlp_listing.is_some() }
}


/// The provider list of the running service: the first response put in is kept for
/// the life of the cache, and every later one is dropped.
pub struct ProviderListCache {
    response: Option<ProviderListResponse>,
}

/// What a cache holds after `response` is put into one that held `held`.
pub open spec fn cache_after_fill(
    held: Option<ProviderListResponse>,
    response: ProviderListResponse,
) -> Option<ProviderListResponse> {
    match held {
        Some(first) => Some(first),
        None => Some(response),
    }
}

/// What a cache holds after each of `responses` is put into it in turn.
pub open spec fn cache_after_fills(
    held: Option<ProviderListResponse>,
    responses: Seq<ProviderListResponse>,
) -> Option<ProviderListResponse>
    decreases responses.len(),
{
    if responses.len() == 0 {
        held
    } else {
        cache_after_fill(cache_after_fills(held, responses.drop_last()), responses.last())
    }
}

impl ProviderListCache {
    /// What the cache holds.
    pub closed spec fn held(self) -> Option<ProviderListResponse> {
        self.response
    }

    /// An empty cache.
    pub fn new() -> (r: Self)
        ensures
            r.held() is None,
    {
        ProviderListCache { response: None }
    }

    /// The cached response, where there is one.
    pub fn get(&self) -> (r: Option<&ProviderListResponse>)
        ensures
            match r {
                Some(x) => self.held() == Some(*x),
                None => self.held() is None,
            },
    {
        match &self.response {
            Some(x) => Some(x),
            None => None,
        }
    }

    /// Puts `response` into the cache, which keeps it only where it held none.
    pub fn fill(&mut self, response: ProviderListResponse)
        ensures
            final(self).held() == cache_after_fill(old(self).held(), response),
    {
        if self.response.is_none() {
            self.response = Some(response);
        }
    }
}

/// Once a response is cached, every later fill leaves the cache holding that first
/// response.
pub proof fn law_cache_keeps_first(first: ProviderListResponse, later: Seq<ProviderListResponse>)
    ensures
        cache_after_fills(Some(first), later) == Some(first),
    decreases later.len(),
{
    if later.len() > 0 {
        law_cache_keeps_first(first, later.drop_last());
    }
}

} // verus!
