use online_media_ingest::catalog::{
    ProviderCatalogEntry, find_provider_by_extractor_key, find_provider_by_host, find_provider_by_id,
    is_adult_extractor_name, is_likely_adult_source_site, list_all_providers,
    list_all_providers_with_ytdlp, ytdlp_extractor_entries, ProviderListCache,
};

fn entry(id: &str, hosts: &[&str], suffixes: &[&str], keywords: &[&str]) -> ProviderCatalogEntry {
    ProviderCatalogEntry {
        id: id.into(),
        name: format!("{id} name"),
        display_name: format!("{id} display"),
        source_site: format!("{id}.site"),
        supported_content_types: vec!["online_video".into()],
        default_content_type: "online_video".into(),
        requires_auth: false,
        auth_configurable: true,
        host_suffixes: suffixes.iter().map(|s| s.to_string()).collect(),
        host_equals: hosts.iter().map(|s| s.to_string()).collect(),
        extractor_keywords: keywords.iter().map(|s| s.to_string()).collect(),
        source_site_aliases: vec![],
        common_source_sites: vec![],
    }
}

fn catalog() -> Vec<ProviderCatalogEntry> {
    vec![
        entry("youtube", &["youtu.be"], &["youtube.com"], &["youtube"]),
        entry("bilibili", &["b23.tv"], &["bilibili.com"], &["bili"]),
        entry("stream", &[], &[], &["m3u8", "dash"]),
    ]
}

#[test]
fn catalog_lookups() {
    let cat = catalog();
    assert_eq!(find_provider_by_id(&cat, "bilibili").map(|e| e.id.as_str()), Some("bilibili"));
    assert!(find_provider_by_id(&cat, "vimeo").is_none());
    assert_eq!(find_provider_by_host(&cat, "www.youtube.com").map(|e| e.id.as_str()), Some("youtube"));
    assert_eq!(find_provider_by_host(&cat, "youtu.be").map(|e| e.id.as_str()), Some("youtube"));
    assert!(find_provider_by_host(&cat, "example.com").is_none());
    assert_eq!(find_provider_by_extractor_key(&cat, "BiliBili").map(|e| e.id.as_str()), None);
    assert_eq!(find_provider_by_extractor_key(&cat, "bilibili:watchlater").map(|e| e.id.as_str()), Some("bilibili"));
    let p = cat[0].to_provider();
    assert_eq!(p.display_name.as_deref(), Some("youtube display"));
    assert!(cat[1].matches_host("space.bilibili.com"));
    assert!(!cat[1].matches_host("bilibili.co"));
    assert!(cat[2].matches_extractor_key("generic:m3u8"));
}

#[test]
fn provider_list_keeps_catalog_order() {
    let cat = catalog();
    let list = list_all_providers(&cat);
    assert_eq!(list.len(), 3);
    assert_eq!(list[1].id, "bilibili");
    assert_eq!(list[1].source_site, "bilibili.site");
    assert!(list[1].auth_configurable);
}

#[test]
fn adult_keywords() {
    assert!(is_adult_extractor_name("XHamsterEmbed"));
    assert!(!is_adult_extractor_name("Vimeo"));
    assert!(is_likely_adult_source_site("FC2 Video"));
    assert!(!is_likely_adult_source_site("youtube"));
}

#[test]
fn ytdlp_extractors_skip_native_duplicate_and_broken() {
    let cat = catalog();
    let stdout = "Vimeo\nvimeo:album\nYoutube:tab\n  \nBiliBiliSearch\nBroken (CURRENTLY BROKEN)\nDashIO\nPornHub\r\n";
    let domains = vec![("vimeo".to_string(), "vimeo.com".to_string())];
    let entries = ytdlp_extractor_entries(&cat, stdout, &domains);
    let ids: Vec<&str> = entries.iter().map(|e| e.id.as_str()).collect();
    assert_eq!(ids, vec!["ytdlp:vimeo", "ytdlp:dashio", "ytdlp:pornhub"]);
    assert_eq!(entries[0].name, "Vimeo");
    assert_eq!(entries[0].host_suffixes, vec!["vimeo.com".to_string()]);
    assert_eq!(entries[0].supported_content_types, vec!["online_video".to_string()]);
    assert_eq!(entries[2].supported_content_types, vec!["adult".to_string(), "online_video".to_string()]);
    assert_eq!(entries[2].common_source_sites, vec!["PornHub".to_string()]);

    let merged = list_all_providers_with_ytdlp(&cat, Some(stdout), &domains);
    assert!(merged.ytdlp_available);
    assert_eq!(merged.providers.len(), 6);
    let without = list_all_providers_with_ytdlp(&cat, None, &domains);
    assert!(!without.ytdlp_available);
    assert_eq!(without.providers.len(), 3);
}

#[test]
fn provider_list_cache_keeps_the_first_response() {
    let catalog = vec![entry("a", &["a.com"], &[], &[])];
    let mut cache = ProviderListCache::new();
    assert!(cache.get().is_none());
    cache.fill(list_all_providers_with_ytdlp(&catalog, None, &[]));
    cache.fill(list_all_providers_with_ytdlp(&[], Some(""), &[]));
    let held = cache.get().unwrap();
    assert_eq!(held.providers.len(), 1);
    assert!(!held.ytdlp_available);
}
