use osu2malody_store::config::Config;
use osu2malody_store::models::{ListQueryParams, MalodyMode, Song};
use osu2malody_store::services::auth::{parse_malody_pubkey, verify_uid_signature};
use osu2malody_store::services::search::{song_query_target, SongQueryTarget};
use osu2malody_store::services::test_utils::{dummy_state, dummy_state_with_config, test_config};
use osu2malody_store::services::{
    check_auth, check_list_auth, download_refused, download_response, empty_paged, server_info,
    song_list_without_search, AppState,
};

fn auth_config() -> Config {
    let mut config = test_config();
    config.malody.server.welcome = String::new();
    config.malody.server.tmp = "/tmp".to_string();
    config.malody.server.verify_client_auth = true;
    config
}

fn list_params(mode: MalodyMode, uid: Option<i32>, key: Option<&str>, api: Option<i32>) -> ListQueryParams {
    ListQueryParams {
        word: None,
        org: None,
        mode,
        lvge: None,
        lvle: None,
        beta: None,
        from: None,
        uid,
        key: key.map(|k| k.to_string()),
        api,
    }
}

#[test]
fn server_info_returns_valid_json() {
    let state = dummy_state();
    let info = server_info(&state);
    assert_eq!(info.code, 0);
    assert_eq!(info.api, 202310);
    assert_eq!(info.min, 202310);
    assert_eq!(info.welcome, "test server");
}

#[test]
fn song_query_missing_params_returns_error() {
    assert_eq!(song_query_target(None, None), None);
    let page = empty_paged::<Song>(-1);
    assert_eq!(page.code, -1);
    assert!(page.data.is_empty());
}

#[test]
fn song_query_prefers_chart_id() {
    assert_eq!(song_query_target(Some(5), Some(7)), Some(SongQueryTarget::Chart(7)));
    assert_eq!(song_query_target(Some(5), None), Some(SongQueryTarget::Mapset(5)));
    assert_eq!(song_query_target(None, Some(9)), Some(SongQueryTarget::Chart(9)));
}

#[test]
fn song_list_malody_only_mode_returns_empty_success() {
    let page = song_list_without_search::<Song>(MalodyMode::Pad).expect("an answer without search");
    assert_eq!(page.code, 0);
    assert!(!page.has_more);
    assert!(page.data.is_empty());
}

#[test]
fn song_list_searchable_modes_go_to_osu() {
    assert!(song_list_without_search::<Song>(MalodyMode::Key).is_none());
    assert!(song_list_without_search::<Song>(MalodyMode::Any).is_none());
    assert!(song_list_without_search::<Song>(MalodyMode::Catch).is_none());
    assert!(song_list_without_search::<Song>(MalodyMode::Taiko).is_none());
    assert!(song_list_without_search::<Song>(MalodyMode::Cube).is_some());
}

#[test]
fn download_chart_unknown_cid_returns_code_minus_2() {
    let response = download_response(999999, None, None);
    assert_eq!(response.code, -2);
    assert_eq!(response.cid, 999999);
    assert_eq!(response.sid, 0);
    assert!(response.items.is_empty());
}

#[test]
fn download_response_known_mapset_without_items() {
    let response = download_response(12, Some(34), None);
    assert_eq!(response.code, -2);
    assert_eq!(response.sid, 34);
    assert_eq!(response.cid, 12);
}

#[test]
fn download_refused_keeps_code() {
    let response = download_refused(5, -1);
    assert_eq!(response.code, -1);
    assert_eq!(response.cid, 5);
    assert_eq!(response.sid, 0);
    assert!(response.items.is_empty());
}

#[test]
fn client_auth_rejected_when_verify_enabled_and_params_missing() {
    let state = dummy_state_with_config(auth_config());
    let params = list_params(MalodyMode::Taiko, None, None, None);
    assert_eq!(check_list_auth(&state, &params), Err(-1));
    assert_eq!(empty_paged::<Song>(-1).code, -1);
}

#[test]
fn client_auth_passes_and_mode_filter_applies() {
    let state = dummy_state_with_config(auth_config());
    let params = list_params(MalodyMode::Pad, Some(1), Some("any"), Some(202310));
    assert_eq!(check_list_auth(&state, &params), Ok(()));
    let page = song_list_without_search::<Song>(params.mode).expect("Pad is not searchable");
    assert_eq!(page.code, 0);
}

#[test]
fn client_auth_old_api_rejected() {
    let state = dummy_state_with_config(auth_config());
    assert_eq!(check_auth(&state, Some(1), Some("any"), Some(202309)), Err(-1));
    assert_eq!(check_auth(&state, Some(1), None, Some(202310)), Err(-1));
    assert_eq!(check_auth(&state, None, Some("k"), Some(202310)), Err(-1));
}

#[test]
fn client_auth_off_accepts_everything() {
    let state = dummy_state();
    assert_eq!(state.verify_client_auth(None, None, None), 0);
    assert_eq!(check_auth(&state, Some(1), Some("x"), Some(1)), Ok(()));
}

#[test]
fn client_auth_checks_signature_with_public_key() {
    let state = AppState::new(auth_config());
    assert!(state.malody_pubkey.is_some(), "the built-in public key parses");
    assert_eq!(state.verify_client_auth(Some(1), Some("not-a-signature"), Some(202310)), -1);
    assert_eq!(state.verify_client_auth(Some(1), Some(""), Some(202310)), -1);
}

#[test]
fn malody_public_key_rejects_garbage_signatures() {
    let key = parse_malody_pubkey().expect("public key");
    assert!(!verify_uid_signature(&key, 1, "AAAA"));
    assert!(!verify_uid_signature(&key, 1, "***"));
    assert!(!verify_uid_signature(&key, 42, "c2lnbmF0dXJl"));
}
