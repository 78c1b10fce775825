use osu2malody_store::cache::BeatmapCacheEntry;
use osu2malody_store::config::ServerConfig;
use osu2malody_store::models::GameMode;
use osu2malody_store::services::charts::{beatmap_to_chart, charts_page, version_label, BeatmapInfo};
use osu2malody_store::services::download::{
    audio_and_background_of, chart_entries, checksum_matches, chart_file_name, classify_osz_payload,
    content_disposition, download_base_url, media_resource, osz_action, resource_step, OszAction, ResourceStep, download_items, find_entry, first_checksum_match, invalid_resource_type,
    is_chart_entry_name, matching_entries, md5_hex, media_file_name, names_equal_ignoring_ascii_case,
    resource_content_type, resource_kind, single_candidate, to_hex_lower, MissingFile, OszPayload,
    ResourceKind, ZipEntryName,
};
use osu2malody_store::services::search::{
    mapset_to_song, search_result_to_paged_songs, single_song_page, MapInfo, MapsetInfo,
    SearchResultInfo,
};

fn server(host: &str, port: u16, tls: bool) -> ServerConfig {
    ServerConfig {
        port,
        host: host.to_string(),
        tls_cert: if tls { Some("cert.pem".to_string()) } else { None },
        tls_key: if tls { Some("key.pem".to_string()) } else { None },
    }
}

#[test]
fn base_urls() {
    assert_eq!(download_base_url(&server("example.com", 80, false), false, None), "http://example.com/api/store");
    assert_eq!(download_base_url(&server("example.com", 443, true), false, None), "https://example.com/api/store");
    assert_eq!(
        download_base_url(&server("192.168.1.100", 8081, false), false, None),
        "http://192.168.1.100:8081/api/store"
    );
    assert_eq!(download_base_url(&server("example.com", 80, true), false, None), "https://example.com:80/api/store");
    assert_eq!(download_base_url(&server("::1", 8081, false), true, None), "http://[::1]:8081/api/store");
    assert_eq!(download_base_url(&server("::1", 80, false), true, None), "http://[::1]:80/api/store");
}

fn entry() -> BeatmapCacheEntry {
    BeatmapCacheEntry {
        map_id: 1,
        mapset_id: 100,
        checksum: "abc123".to_string(),
        version: "Hard".to_string(),
        stars: "4.25".to_string(),
        seconds_total: 90,
        creator_id: 7,
    }
}

#[test]
fn download_items_lists_chart_audio_background() {
    let items = download_items(
        &entry(),
        "http://localhost/api/store",
        "song.mp3".to_string(),
        "h1".to_string(),
        "bg.jpg".to_string(),
        "h2".to_string(),
    );
    assert_eq!(items.len(), 3);
    assert_eq!(items[0].name, "Hard R.4.25.osu");
    assert_eq!(items[0].hash, "abc123");
    assert_eq!(items[0].file, "http://localhost/api/store/1?type=chart");
    assert_eq!(items[1].name, "song.mp3");
    assert_eq!(items[1].hash, "h1");
    assert_eq!(items[1].file, "http://localhost/api/store/1?type=audio");
    assert_eq!(items[2].name, "bg.jpg");
    assert_eq!(items[2].hash, "h2");
    assert_eq!(items[2].file, "http://localhost/api/store/1?type=bg");
    assert_eq!(chart_file_name(&entry()), "Hard R.4.25.osu");
}

#[test]
fn audio_and_background_from_chart_bytes() {
    let chart = b"[General]\nAudioFilename: song.mp3\n[Events]\n0,0,\"bg.jpg\",0,0\n";
    assert_eq!(
        audio_and_background_of(chart),
        Ok(("song.mp3".to_string(), "bg.jpg".to_string()))
    );
    assert_eq!(audio_and_background_of(b"[Events]\n0,0,bg.jpg\n"), Err(MissingFile::Audio));
    assert_eq!(
        audio_and_background_of(b"[General]\nAudioFilename: a.ogg\n"),
        Err(MissingFile::Background)
    );
}

#[test]
fn md5_values() {
    assert_eq!(md5_hex(b""), "d41d8cd98f00b204e9800998ecf8427e");
    assert_eq!(md5_hex(b"abc"), "900150983cd24fb0d6963f7d28e17f72");
    assert!(checksum_matches(b"abc", "900150983cd24fb0d6963f7d28e17f72"));
    assert!(!checksum_matches(b"abd", "900150983cd24fb0d6963f7d28e17f72"));
    assert!(!checksum_matches(b"abc", "900150983CD24FB0D6963F7D28E17F72"));
    assert!(!checksum_matches(b"abc", ""));
}

#[test]
fn hex_encoding() {
    assert_eq!(to_hex_lower(&[0x00, 0x0f, 0xa0, 0xff]), "000fa0ff");
    assert_eq!(to_hex_lower(&[]), "");
}

fn zip_entry(name: &str, is_dir: bool) -> ZipEntryName {
    ZipEntryName { name: name.to_string(), is_dir }
}

#[test]
fn archive_entry_lookup() {
    let entries = vec![
        zip_entry("Song.MP3", true),
        zip_entry("BG.jpg", false),
        zip_entry("song.mp3", false),
        zip_entry("SONG.mp3", false),
    ];
    assert_eq!(find_entry(&entries, "song.mp3"), Some(2));
    assert_eq!(find_entry(&entries, "bg.JPG"), Some(1));
    assert_eq!(find_entry(&entries, "missing.ogg"), None);
    assert_eq!(matching_entries(&entries, "song.mp3"), vec![2, 3]);
    assert_eq!(matching_entries(&entries, "x"), Vec::<usize>::new());
    assert!(names_equal_ignoring_ascii_case("Ab_Ç", "aB_Ç"));
    assert!(!names_equal_ignoring_ascii_case("Ç", "ç"));
    assert!(!names_equal_ignoring_ascii_case("ab", "abc"));
}

#[test]
fn chart_entry_names() {
    assert!(is_chart_entry_name("Artist - Title (Mapper) [Hard].osu"));
    assert!(is_chart_entry_name("X.OSU"));
    assert!(!is_chart_entry_name("audio.mp3"));
    assert!(!is_chart_entry_name("osu"));
    assert!(is_chart_entry_name(".osu"));
}

#[test]
fn payload_classification() {
    assert_eq!(classify_osz_payload(b"{\"error\":\"nope\"}"), OszPayload::MirrorError);
    assert_eq!(classify_osz_payload(b"PK\x03\x04rest"), OszPayload::Zip);
    assert_eq!(classify_osz_payload(b"<html>"), OszPayload::NotZip);
    assert_eq!(classify_osz_payload(b"P"), OszPayload::NotZip);
    assert_eq!(classify_osz_payload(b""), OszPayload::NotZip);
}

#[test]
fn resource_kinds_and_headers() {
    assert_eq!(resource_kind("chart"), Some(ResourceKind::Chart));
    assert_eq!(resource_kind("audio"), Some(ResourceKind::Audio));
    assert_eq!(resource_kind("bg"), Some(ResourceKind::Background));
    assert_eq!(resource_kind("video"), None);
    assert_eq!(resource_content_type("chart"), "text/plain");
    assert_eq!(resource_content_type("audio"), "audio/mpeg");
    assert_eq!(resource_content_type("bg"), "image/jpeg");
    assert_eq!(resource_content_type("other"), "application/octet-stream");
    assert_eq!(content_disposition("a b.osu"), "attachment; filename=\"a b.osu\"");
    assert_eq!(invalid_resource_type(), (400, "Invalid type parameter".to_string()));
}

#[test]
fn media_names_and_candidates() {
    let chart = b"[General]\nAudioFilename: song.mp3\n[Events]\n0,0,bg.jpg\n";
    assert_eq!(media_file_name(ResourceKind::Audio, chart), Ok("song.mp3".to_string()));
    assert_eq!(media_file_name(ResourceKind::Background, chart), Ok("bg.jpg".to_string()));
    assert_eq!(
        media_file_name(ResourceKind::Audio, b"[Events]\n"),
        Err((404, "Audio filename not found".to_string()))
    );
    assert_eq!(
        media_file_name(ResourceKind::Background, b""),
        Err((404, "Background filename not found".to_string()))
    );
    assert_eq!(single_candidate(ResourceKind::Audio, 1), Ok(()));
    assert_eq!(single_candidate(ResourceKind::Audio, 0), Err((404, "audio file not found".to_string())));
    assert_eq!(single_candidate(ResourceKind::Background, 0), Err((404, "bg file not found".to_string())));
    assert_eq!(
        single_candidate(ResourceKind::Audio, 2),
        Err((409, "multiple audio file candidates".to_string()))
    );
    assert_eq!(
        single_candidate(ResourceKind::Background, 3),
        Err((409, "multiple bg file candidates".to_string()))
    );
}

fn mapset(id: u32, maps: Option<Vec<MapInfo>>) -> MapsetInfo {
    MapsetInfo {
        mapset_id: id,
        title: "Title".to_string(),
        title_unicode: Some("タイトル".to_string()),
        artist: "Artist".to_string(),
        cover_list_2x: "https://assets/cover@2x.jpg".to_string(),
        bpm_bits: 180.0f32.to_bits(),
        maps,
        last_updated: 1_600_000_000,
    }
}

#[test]
fn mapset_to_song_fields() {
    let maps = vec![
        MapInfo { mode: GameMode::Mania, seconds_total: 200 },
        MapInfo { mode: GameMode::Taiko, seconds_total: 150 },
        MapInfo { mode: GameMode::Osu, seconds_total: 170 },
    ];
    let song = mapset_to_song(&mapset(5, Some(maps)), 0);
    assert_eq!(song.sid, 5);
    assert_eq!(song.title, "Title");
    assert_eq!(song.artist, "Artist");
    assert_eq!(song.length, 150);
    assert_eq!(song.mode, 1 + 32);
    assert_eq!(f32::from_bits(song.bpm_bits), 180.0);
    assert_eq!(song.time, 1_600_000_000);
    assert_eq!(song.cover, "https://assets/cover@2x.jpg");
    let unicode = mapset_to_song(&mapset(5, None), 1);
    assert_eq!(unicode.title, "タイトル");
    assert_eq!(unicode.length, 0);
    assert_eq!(unicode.mode, 0);
    let catch = mapset_to_song(&mapset(6, Some(vec![MapInfo { mode: GameMode::Catch, seconds_total: 10 }])), 0);
    assert_eq!(catch.mode, 8);
}

#[test]
fn search_listing_pages() {
    let result = SearchResultInfo { mapsets: vec![mapset(1, None), mapset(2, None)], total: 40, has_more: true };
    let page = search_result_to_paged_songs(&result, 50, 0);
    assert_eq!(page.code, 0);
    assert!(page.has_more);
    assert_eq!(page.next, 52);
    assert_eq!(page.data.len(), 2);
    assert_eq!(page.data[1].sid, 2);
    let empty = SearchResultInfo { mapsets: vec![], total: 0, has_more: false };
    let page = search_result_to_paged_songs(&empty, 0, 0);
    assert_eq!(page.code, 1);
    assert!(page.data.is_empty());
    let single = single_song_page(&mapset(9, None), 0);
    assert_eq!(single.code, 0);
    assert_eq!(single.data.len(), 1);
    assert_eq!(single.data[0].sid, 9);
}

fn beatmap(map_id: u32, mode: GameMode) -> BeatmapInfo {
    BeatmapInfo {
        map_id,
        creator_id: 1234,
        version: "Insane".to_string(),
        stars: "5.12".to_string(),
        level: 5,
        seconds_total: 95,
        mode,
    }
}

#[test]
fn charts_from_beatmaps() {
    assert_eq!(version_label("Easy", "1.5"), "Easy R.1.5");
    let chart = beatmap_to_chart(&beatmap(77, GameMode::Catch));
    assert_eq!(chart.cid, 77);
    assert_eq!(chart.uid, 1234);
    assert_eq!(chart.creator, "1234");
    assert_eq!(chart.version, "Insane R.5.12");
    assert_eq!(chart.level, 5);
    assert_eq!(chart.length, 95);
    assert_eq!(chart.chart_type, 1);
    assert_eq!(chart.size, 0);
    assert_eq!(chart.mode, 3);
    let page = charts_page(Some(&vec![beatmap(1, GameMode::Mania), beatmap(2, GameMode::Taiko)]));
    assert_eq!(page.code, 0);
    assert!(!page.has_more);
    assert_eq!(page.data.len(), 2);
    assert_eq!(page.data[0].mode, 0);
    assert_eq!(page.data[1].mode, 5);
    assert!(charts_page(None).data.is_empty());
}

#[test]
fn chart_entries_and_checksum_match() {
    let entries = vec![
        zip_entry("audio.mp3", false),
        zip_entry("Easy.osu", false),
        zip_entry("bg.jpg", false),
        zip_entry("HARD.OSU", false),
    ];
    assert_eq!(chart_entries(&entries), vec![1, 3]);
    assert_eq!(chart_entries(&Vec::new()), Vec::<usize>::new());
    let files = vec![b"abd".to_vec(), b"abc".to_vec(), b"abc".to_vec()];
    assert_eq!(first_checksum_match(&files, "900150983cd24fb0d6963f7d28e17f72"), Some(1));
    assert_eq!(first_checksum_match(&files, "d41d8cd98f00b204e9800998ecf8427e"), None);
    assert_eq!(first_checksum_match(&Vec::new(), ""), None);
}

#[test]
fn base_url_follows_forwarded_proto() {
    let plain = server("example.com", 443, false);
    assert_eq!(download_base_url(&plain, false, Some("https")), "https://example.com/api/store");
    assert_eq!(download_base_url(&plain, false, Some("http")), "http://example.com:443/api/store");
    assert_eq!(download_base_url(&plain, false, Some("gopher")), "http://example.com:443/api/store");
    let tls = server("example.com", 80, true);
    assert_eq!(download_base_url(&tls, false, Some("http")), "http://example.com/api/store");
    assert_eq!(download_base_url(&tls, false, Some("HTTPS")), "https://example.com:80/api/store");
}

fn chart_bytes() -> Vec<u8> {
    b"[General]\nAudioFilename: song.mp3\n[Events]\n0,0,bg.jpg\n".to_vec()
}

fn entry_for(bytes: &[u8]) -> BeatmapCacheEntry {
    let mut e = entry();
    e.checksum = md5_hex(bytes);
    e
}

#[test]
fn resource_steps() {
    let chart = chart_bytes();
    let e = entry_for(&chart);
    let charts = || vec![b"other".to_vec(), chart.clone()];
    match resource_step("chart", &e, charts()) {
        Ok(ResourceStep::Serve(bytes, name)) => {
            assert_eq!(bytes, chart);
            assert_eq!(name, "Hard R.4.25.osu");
        }
        _ => panic!("chart should be served"),
    }
    match resource_step("audio", &e, charts()) {
        Ok(ResourceStep::ReadMedia(kind, name)) => {
            assert_eq!(kind, ResourceKind::Audio);
            assert_eq!(name, "song.mp3");
        }
        _ => panic!("audio should be read"),
    }
    match resource_step("bg", &e, charts()) {
        Ok(ResourceStep::ReadMedia(kind, name)) => {
            assert_eq!(kind, ResourceKind::Background);
            assert_eq!(name, "bg.jpg");
        }
        _ => panic!("bg should be read"),
    }
    assert_eq!(resource_step("video", &e, charts()).err(), Some((400, "Invalid type parameter".to_string())));
    assert_eq!(
        resource_step("video", &entry(), charts()).err(),
        Some((404, "Chart file not found: No .osu file matching checksum abc123".to_string()))
    );
    let silent = b"[General]\nMode: 3\n".to_vec();
    assert_eq!(
        resource_step("audio", &entry_for(&silent), vec![silent.clone()]).err(),
        Some((404, "Audio filename not found".to_string()))
    );
}

#[test]
fn media_resources() {
    assert_eq!(
        media_resource(ResourceKind::Audio, "a.mp3".to_string(), vec![vec![1, 2]]),
        Ok((vec![1, 2], "a.mp3".to_string()))
    );
    assert_eq!(
        media_resource(ResourceKind::Audio, "a.mp3".to_string(), vec![]),
        Err((404, "audio file not found".to_string()))
    );
    assert_eq!(
        media_resource(ResourceKind::Background, "b.jpg".to_string(), vec![vec![1], vec![2]]),
        Err((409, "multiple bg file candidates".to_string()))
    );
}

#[test]
fn stored_archive_actions() {
    assert_eq!(osz_action(false, None), OszAction::Fetch);
    assert_eq!(osz_action(false, Some(OszPayload::MirrorError)), OszAction::Fetch);
    assert_eq!(osz_action(true, Some(OszPayload::MirrorError)), OszAction::Refetch);
    assert_eq!(osz_action(true, Some(OszPayload::Zip)), OszAction::Reuse);
    assert_eq!(osz_action(true, Some(OszPayload::NotZip)), OszAction::Reuse);
    assert_eq!(osz_action(true, None), OszAction::Reuse);
}
