use osu2malody_store::cache::{
    friend_search_key, list_search_key, locate_page, next_walk_step, promote_search_key, BeatmapCache,
    BeatmapCacheEntry, BeatmapsetCache, SearchChain, SearchPage, WalkStep,
};
use osu2malody_store::services::search::MapsetInfo;
use osu2malody_store::config::{
    default_api_version, default_port, default_tmp_dir, parse_unsigned, Config, ConfigError,
    DownloadMirror, OverrideError,
};
use osu2malody_store::models::{FriendQueryParams, ListQueryParams, MalodyMode, PromoteQueryParams};
use osu2malody_store::services::test_utils::test_config;

fn valid_config() -> Config {
    let mut c = test_config();
    c.server.port = 8081;
    c.server.host = "malody.example.com".to_string();
    c.malody.osu.client_id = Some(1234);
    c.malody.osu.client_secret = Some("secret".to_string());
    c
}

#[test]
fn config_defaults() {
    assert_eq!(default_port(), 8081);
    assert_eq!(default_api_version(), 202310);
    assert_eq!(default_tmp_dir(), "./Osu2Malody");
    assert_eq!(DownloadMirror::default(), DownloadMirror::Hinamizawa);
}

#[test]
fn config_validate_accepts_complete_config() {
    assert_eq!(valid_config().validate(), Ok(()));
    let mut c = valid_config();
    c.server.tls_cert = Some("cert.pem".to_string());
    c.server.tls_key = Some("key.pem".to_string());
    assert_eq!(c.validate(), Ok(()));
}

#[test]
fn config_validate_each_error() {
    let mut c = valid_config();
    c.malody.osu.client_id = None;
    assert_eq!(c.validate(), Err(ConfigError::MissingClientId));
    c.malody.osu.client_id = Some(0);
    assert_eq!(c.validate(), Err(ConfigError::MissingClientId));

    let mut c = valid_config();
    c.malody.osu.client_secret = None;
    assert_eq!(c.validate(), Err(ConfigError::MissingClientSecret));
    c.malody.osu.client_secret = Some(String::new());
    assert_eq!(c.validate(), Err(ConfigError::MissingClientSecret));

    let mut c = valid_config();
    c.server.port = 0;
    assert_eq!(c.validate(), Err(ConfigError::ZeroPort));

    let mut c = valid_config();
    c.server.host = String::new();
    assert_eq!(c.validate(), Err(ConfigError::MissingHost));

    let mut c = valid_config();
    c.server.tls_cert = Some("cert.pem".to_string());
    assert_eq!(c.validate(), Err(ConfigError::TlsKeyMissing));

    let mut c = valid_config();
    c.server.tls_key = Some("key.pem".to_string());
    assert_eq!(c.validate(), Err(ConfigError::TlsCertMissing));
}

#[test]
fn config_validate_reports_first_broken_rule() {
    let mut c = test_config();
    c.server.port = 0;
    assert_eq!(c.validate(), Err(ConfigError::MissingClientId));
}

#[test]
fn mirror_urls() {
    assert_eq!(
        DownloadMirror::Hinamizawa.url_for(1980361),
        "https://mirror.hinamizawa.ai/api/v1/hinai/d/1980361"
    );
    assert_eq!(DownloadMirror::Catboy.url_for(42), "https://catboy.best/d/42");
    assert_eq!(DownloadMirror::OsuDirect.url_for(0), "https://osu.direct/api/d/0");
    assert_ne!(DownloadMirror::Catboy.url_for(1), DownloadMirror::OsuDirect.url_for(1));
    assert_ne!(DownloadMirror::Catboy.url_for(1), DownloadMirror::Catboy.url_for(10));
}

fn entry(map_id: u32) -> BeatmapCacheEntry {
    BeatmapCacheEntry {
        map_id,
        mapset_id: 77,
        checksum: "abc".to_string(),
        version: "Hard".to_string(),
        stars: "4.25".to_string(),
        seconds_total: 120,
        creator_id: 5,
    }
}

#[test]
fn beatmap_cache_gives_back_what_was_put() {
    let mut cache = BeatmapCache::new();
    assert!(cache.get(1).is_none());
    cache.put(1, entry(1));
    let got = cache.get(1).expect("fresh entry");
    assert_eq!(got.map_id, 1);
    assert_eq!(got.version, "Hard");
    assert!(cache.get(2).is_none());
    let mut replaced = entry(1);
    replaced.version = "Insane".to_string();
    cache.put(1, replaced);
    assert_eq!(cache.get(1).expect("replaced entry").version, "Insane");
}

#[test]
fn beatmapset_cache_gives_back_what_was_put() {
    let mut cache = BeatmapsetCache::new();
    assert!(cache.get(10).is_none());
    let mapset = MapsetInfo {
        mapset_id: 10,
        title: "Title".to_string(),
        title_unicode: None,
        artist: "Artist".to_string(),
        cover_list_2x: "cover".to_string(),
        bpm_bits: 0,
        maps: None,
        last_updated: 0,
    };
    cache.put(10, mapset);
    let got = cache.get(10).expect("fresh mapset");
    assert_eq!(got.mapset_id, 10);
    assert_eq!(got.title, "Title");
    assert!(cache.get(11).is_none());
}

fn page(count: u32, has_more: bool) -> SearchPage<&'static str> {
    SearchPage { result: "page", mapset_count: count, has_more }
}

#[test]
fn search_chain_pages() {
    let mut chain = SearchChain::new(page(50, true));
    assert!(chain.has_more());
    chain.push(page(50, true));
    chain.push(page(20, false));
    assert!(!chain.has_more());
    assert_eq!(chain.page_counts(), vec![50, 50, 20]);
    assert_eq!(chain.get(2).map(|p| p.mapset_count), Some(20));
    assert!(chain.get(3).is_none());
    assert_eq!(chain.last().mapset_count, 20);
}

#[test]
fn locate_page_offsets() {
    let counts = vec![50, 50, 20];
    assert_eq!(locate_page(&counts, 0), Ok(0));
    assert_eq!(locate_page(&counts, 49), Ok(0));
    assert_eq!(locate_page(&counts, 50), Ok(1));
    assert_eq!(locate_page(&counts, 119), Ok(2));
    assert_eq!(locate_page(&counts, 120), Err(120));
    assert_eq!(locate_page(&counts, -1), Err(120));
    assert_eq!(locate_page(&vec![0, 5], 0), Ok(1));
    assert_eq!(locate_page(&Vec::new(), 0), Err(0));
}

#[test]
fn walk_steps() {
    assert_eq!(next_walk_step(50, 60, true), WalkStep::FetchNext);
    assert_eq!(next_walk_step(50, 50, true), WalkStep::FetchNext);
    assert_eq!(next_walk_step(50, 49, true), WalkStep::Stop);
    assert_eq!(next_walk_step(50, 60, false), WalkStep::Stop);
}

fn list(word: Option<&str>, from: Option<i32>, uid: Option<i32>) -> ListQueryParams {
    ListQueryParams {
        word: word.map(|w| w.to_string()),
        org: Some(1),
        mode: MalodyMode::Key,
        lvge: Some(3),
        lvle: None,
        beta: None,
        from,
        uid,
        key: None,
        api: None,
    }
}

#[test]
fn list_key_ignores_offset_and_credentials() {
    let a = list_search_key(&list(Some("xi"), Some(0), None));
    let b = list_search_key(&list(Some("xi"), Some(50), Some(9)));
    assert_eq!(a, b);
    assert_ne!(a, list_search_key(&list(Some("xj"), Some(0), None)));
    assert_ne!(a, list_search_key(&list(None, Some(0), None)));
}

#[test]
fn list_key_exact_value() {
    let params = ListQueryParams {
        word: Some("a".to_string()),
        org: None,
        mode: MalodyMode::Any,
        lvge: None,
        lvle: None,
        beta: None,
        from: None,
        uid: None,
        key: None,
        api: None,
    };
    // 'a' = 97; then org 0, mode -1 as u64, lvge 0, lvle 0, beta 0.
    let mut h: u64 = 97;
    h = h.wrapping_mul(31);
    h = h.wrapping_mul(31).wrapping_add(u64::MAX);
    h = h.wrapping_mul(31);
    h = h.wrapping_mul(31);
    h = h.wrapping_mul(31);
    assert_eq!(list_search_key(&params), h);
}

#[test]
fn promote_and_friend_keys() {
    let p = PromoteQueryParams { org: Some(2), mode: MalodyMode::Catch, from: Some(30), uid: None, key: None, api: None };
    assert_eq!(promote_search_key(&p), 2 * 31 + 3);
    let q = PromoteQueryParams { org: None, mode: MalodyMode::Key, from: None, uid: None, key: None, api: None };
    assert_eq!(promote_search_key(&q), 0);
    let f = FriendQueryParams { org: Some(7), from: Some(100), uid: None, key: None, api: None };
    assert_eq!(friend_search_key(&f), 7);
}

#[test]
fn parse_unsigned_values() {
    assert_eq!(parse_unsigned("8081", 65535), Some(8081));
    assert_eq!(parse_unsigned("+42", 65535), Some(42));
    assert_eq!(parse_unsigned("007", 65535), Some(7));
    assert_eq!(parse_unsigned("65535", 65535), Some(65535));
    assert_eq!(parse_unsigned("65536", 65535), None);
    assert_eq!(parse_unsigned("", 65535), None);
    assert_eq!(parse_unsigned("+", 65535), None);
    assert_eq!(parse_unsigned("-1", 65535), None);
    assert_eq!(parse_unsigned(" 1", 65535), None);
    assert_eq!(parse_unsigned("12a", 65535), None);
    assert_eq!(parse_unsigned("18446744073709551615", u64::MAX), Some(u64::MAX));
    assert_eq!(parse_unsigned("18446744073709551616", u64::MAX), None);
    assert_eq!(parse_unsigned("٣", 65535), None);
}

#[test]
fn env_overrides_apply_in_order() {
    let c = valid_config()
        .with_env_overrides(Some("9000"), Some("77"), Some("s3".to_string()))
        .expect("valid overrides");
    assert_eq!(c.server.port, 9000);
    assert_eq!(c.malody.osu.client_id, Some(77));
    assert_eq!(c.malody.osu.client_secret.as_deref(), Some("s3"));
    assert_eq!(c.server.host, "malody.example.com");

    let unchanged = valid_config().with_env_overrides(None, None, None).expect("no overrides");
    assert_eq!(unchanged.server.port, 8081);
    assert_eq!(unchanged.malody.osu.client_id, Some(1234));
    assert_eq!(unchanged.malody.osu.client_secret.as_deref(), Some("secret"));

    assert_eq!(
        valid_config().with_env_overrides(Some("70000"), Some("x"), None).err(),
        Some(OverrideError::InvalidPort)
    );
    assert_eq!(
        valid_config().with_env_overrides(Some("80"), Some("-5"), None).err(),
        Some(OverrideError::InvalidClientId)
    );
}

#[test]
fn promote_keys_differ_for_different_searches() {
    let key = |org: Option<i32>, mode: MalodyMode| {
        promote_search_key(&PromoteQueryParams { org, mode, from: Some(9), uid: Some(1), key: None, api: None })
    };
    assert_eq!(key(None, MalodyMode::Key), key(Some(0), MalodyMode::Key));
    assert_ne!(key(Some(1), MalodyMode::Key), key(Some(0), MalodyMode::Key));
    assert_ne!(key(Some(0), MalodyMode::Any), key(Some(-1), MalodyMode::Catch));
    assert_ne!(key(Some(-1), MalodyMode::Any), key(Some(0), MalodyMode::Any));
}

/// The page served for `from`: looked up in the first `j` cached pages, or
/// walked to from the last of them.
fn served(counts: &[u32], more: &[bool], j: usize, from: i32) -> usize {
    match locate_page(&counts[..j].to_vec(), from) {
        Ok(i) => i,
        Err(offset) => {
            let (mut i, mut offset) = (j - 1, offset);
            while i + 1 < counts.len() && next_walk_step(offset, from, more[i]) == WalkStep::FetchNext {
                i += 1;
                offset += counts[i] as i64;
            }
            i
        }
    }
}

#[test]
fn cached_chain_keeps_served_page() {
    let counts = [50, 50, 0, 20, 30];
    let more = [true, true, true, true, false];
    for from in [0, 49, 50, 99, 100, 119, 120, 149, 150, 500] {
        let fresh = served(&counts, &more, 1, from);
        for j in 1..=counts.len() {
            assert_eq!(served(&counts, &more, j, from), fresh, "from={} j={}", from, j);
        }
    }
}
