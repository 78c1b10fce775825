//! The decisions behind the store endpoints, on the library's own models:
//! the shared state, client authentication, and the responses each endpoint
//! gives when it does not reach the osu! API.
use vstd::prelude::*;

use crate::cache::{BeatmapCache, BeatmapsetCache};
use crate::config::Config;
use crate::models::{searchable, DownloadItem, DownloadResponse, MalodyMode, PagedResponse, ServerInfoResponse};

pub mod auth;
pub mod capacity;
pub mod charts;
pub mod download;
pub mod search;
pub mod test_utils;

use auth::{parse_malody_pubkey, uid_signature_valid, verify_uid_signature, MalodyPublicKey};

verus! {

/// The state every request reads: configuration, the beatmap and mapset
/// caches, and the public key client signatures are checked against.
pub struct AppState {
    pub config: Config,
    pub beatmap_cache: BeatmapCache,
    pub beatmapset_cache: BeatmapsetCache,
    /// Parsed Malody RSA public key for uid/key verification.
    pub malody_pubkey: Option<MalodyPublicKey>,
}

/// The authentication code of a request: 0 to serve it, -1 to refuse it.
/// With checking off every request passes; with it on, a request needs a
/// uid, a key and an api version no older than `min_api`, and, when the
/// public key is known (`key_der`), a key that signs the uid.
pub open spec fn auth_code(
    enabled: bool,
    min_api: i32,
    key_der: Option<Seq<u8>>,
    uid: Option<i32>,
    key: Option<Seq<char>>,
    api: Option<i32>,
) -> int {
    if !enabled {
        0
    } else if uid is None || key is None || api is None {
        -1
    } else if api->0 < min_api {
        -1
    } else if key_der is Some && !uid_signature_valid(key_der->0, uid->0, key->0) {
        -1
    } else {
        0
    }
}

pub open spec fn opt_key_view(key: Option<&str>) -> Option<Seq<char>> {
    match key {
        Some(k) => Some(k@),
        None => None,
    }
}

impl AppState {
    /// The state for `config`, with empty caches and Malody's public key.
    pub fn new(config: Config) -> (r: Self)
        ensures
            r.config == config,
            r.beatmap_cache@ == Set::<(u32, crate::cache::EntryView)>::empty(),
            r.beatmapset_cache@ == Set::<(u32, search::MapsetView)>::empty(),
            r.signature_key() == match parse_malody_pubkey_spec() {
                Some(d) => Some(d),
                None => None::<Seq<u8>>,
            },
    {
        let malody_pubkey = parse_malody_pubkey();
        Self {
            config,
            beatmap_cache: BeatmapCache::new(),
            beatmapset_cache: BeatmapsetCache::new(),
            malody_pubkey,
        }
    }

    /// The state for `config` with no public key: signatures go unchecked.
    pub fn without_signature_key(config: Config) -> (r: Self)
        ensures
            r.config == config,
            r.beatmap_cache@ == Set::<(u32, crate::cache::EntryView)>::empty(),
            r.beatmapset_cache@ == Set::<(u32, search::MapsetView)>::empty(),
            r.signature_key() is None,
    {
        Self {
            config,
            beatmap_cache: BeatmapCache::new(),
            beatmapset_cache: BeatmapsetCache::new(),
            malody_pubkey: None,
        }
    }

    /// The DER of the public key signatures are checked against, if one was parsed.
    pub open spec fn signature_key(&self) -> Option<Seq<u8>> {
        match self.malody_pubkey {
            Some(k) => Some(k@),
            None => None,
        }
    }

    /// Verify Malody client auth params (uid, key, api) when `verify_client_auth` is enabled.
    /// When enabled, validates that the `key` is a valid RSA-SHA256 signature of `uid`.
    /// Returns 0 on success, or an error code to use in the response.
    pub fn verify_client_auth(&self, uid: Option<i32>, key: Option<&str>, api: Option<i32>) -> (r:
        i32)
        ensures
            r == auth_code(
                self.config.malody.server.verify_client_auth,
                self.config.malody.server.min,
                self.signature_key(),
                uid,
                opt_key_view(key),
                api,
            ),
    {
        if !self.config.malody.server.verify_client_auth {
            return 0;
        }
        let uid_val = match uid {
            Some(v) => v,
            None => return -1,
        };
        let key_str = match key {
            Some(v) => v,
            None => return -1,
        };
        let api_val = match api {
            Some(v) => v,
            None => return -1,
        };
        if api_val < self.config.malody.server.min {
            return -1;
        }
        // RSA signature verification of uid with the key parameter
        match &self.malody_pubkey {
            Some(pubkey) => {
                if !verify_uid_signature(pubkey, uid_val, key_str) {
                    return -1;
                }
            },
            None => {
                // Public key failed to parse — treat any key as valid (graceful fallback)
            },
        }
        0
    }
}

/// The key DER that [`AppState::new`] ends up with: Malody's key, when it decodes and parses.
pub open spec fn parse_malody_pubkey_spec() -> Option<Seq<u8>> {
    if auth::malody_key_der() is Some && auth::pkcs1_der_is_public_key(auth::malody_key_der()->0) {
        auth::malody_key_der()
    } else {
        None
    }
}

/// Authentication outcomes: with checking off every request passes; with it
/// on, a request missing its uid, key or api, or with an api older than the
/// minimum, is refused, and a complete one passes exactly when its key signs
/// its uid (or when no public key is known); the code is always 0 or -1.
pub proof fn law_auth_outcomes(
    enabled: bool,
    min_api: i32,
    key_der: Option<Seq<u8>>,
    uid: Option<i32>,
    key: Option<Seq<char>>,
    api: Option<i32>,
)
    ensures
        !enabled ==> auth_code(enabled, min_api, key_der, uid, key, api) == 0,
        enabled && (uid is None || key is None || api is None) ==> auth_code(
            enabled,
            min_api,
            key_der,
            uid,
            key,
            api,
        ) == -1,
        enabled && (api is Some && api->0 < min_api) ==> auth_code(
            enabled,
            min_api,
            key_der,
            uid,
            key,
            api,
        ) == -1,
        enabled && key_der is None && uid is Some && key is Some && (api is Some && api->0
            >= min_api) ==> auth_code(enabled, min_api, key_der, uid, key, api) == 0,
        enabled && key_der is Some && uid is Some && key is Some && (api is Some && api->0
            >= min_api) ==> (auth_code(enabled, min_api, key_der, uid, key, api) == 0
            <==> uid_signature_valid(key_der->0, uid->0, key->0)),
        auth_code(enabled, min_api, key_der, uid, key, api) == 0 || auth_code(
            enabled,
            min_api,
            key_der,
            uid,
            key,
            api,
        ) == -1,
{
}

/// `Ok` for the code 0, else the code as the error.
pub fn check_auth(state: &AppState, uid: Option<i32>, key: Option<&str>, api: Option<i32>) -> (r:
    Result<(), i32>)
    ensures
        ({
            let code = auth_code(
                state.config.malody.server.verify_client_auth,
                state.config.malody.server.min,
                state.signature_key(),
                uid,
                opt_key_view(key),
                api,
            );
            r == if code == 0 {
                Ok::<(), i32>(())
            } else {
                Err(code as i32)
            }
        }),
{
    let code = state.verify_client_auth(uid, key, api);
    if code == 0 {
        Ok(())
    } else {
        Err(code)
    }
}

pub fn server_info(state: &AppState) -> (r: ServerInfoResponse)
    ensures
        r.code == 0,
        r.api == state.config.malody.server.api,
        r.min == state.config.malody.server.min,
        r.welcome@ == state.config.malody.server.welcome@,
{
    ServerInfoResponse {
        code: 0,
        api: state.config.malody.server.api,
        min: state.config.malody.server.min,
        welcome: state.config.malody.server.welcome.clone(),
    }
}

/// An empty page with `code`: what a refused or failed listing answers.
pub fn empty_paged<T>(code: i32) -> (r: PagedResponse<T>)
    ensures
        r.code == code,
        !r.has_more,
        r.next == 0,
        r.data@.len() == 0,
{
    PagedResponse { code, has_more: false, next: 0, data: Vec::new() }
}

/// The answer to a song listing in a mode that osu! cannot search: an empty
/// success (code 0), not an error. `None` when the mode is searchable and
/// the listing goes to osu!.
pub fn song_list_without_search<T>(mode: MalodyMode) -> (r: Option<PagedResponse<T>>)
    ensures
        searchable(mode) <==> r is None,
        r matches Some(p) ==> p.code == 0 && !p.has_more && p.next == 0 && p.data@.len() == 0,
{
    if mode.is_osu_searchable() {
        None
    } else {
        Some(empty_paged(0))
    }
}

/// The answer to a download request for chart `cid`: code 0 with the items
/// and the mapset id when the items were built; code -2 otherwise, with the
/// mapset id when the beatmap was found and 0 when it was not.
pub fn download_response(cid: i32, mapset_id: Option<u32>, items: Option<Vec<DownloadItem>>) -> (r:
    DownloadResponse)
    ensures
        r.cid == cid,
        (mapset_id is Some && items is Some) ==> r.code == 0 && r.items@ == items->0@ && r.sid
            == mapset_id->0 as i32,
        !(mapset_id is Some && items is Some) ==> r.code == -2 && r.items@.len() == 0 && r.sid
            == match mapset_id {
            Some(m) => m as i32,
            None => 0,
        },
{
    match (mapset_id, items) {
        (Some(m), Some(list)) => DownloadResponse { code: 0, items: list, sid: m as i32, cid },
        (Some(m), None) => DownloadResponse { code: -2, items: Vec::new(), sid: m as i32, cid },
        (None, _) => DownloadResponse { code: -2, items: Vec::new(), sid: 0, cid },
    }
}

/// The answer to a download request refused with the authentication `code`.
pub fn download_refused(cid: i32, code: i32) -> (r: DownloadResponse)
    ensures
        r.code == code,
        r.items@.len() == 0,
        r.sid == 0,
        r.cid == cid,
{
    DownloadResponse { code, items: Vec::new(), sid: 0, cid }
}

/// [`check_auth`] with the credentials of a list query.
pub fn check_list_auth(state: &AppState, params: &crate::models::ListQueryParams) -> (r: Result<(), i32>)
    ensures
        ({
            let code = auth_code(
                state.config.malody.server.verify_client_auth,
                state.config.malody.server.min,
                state.signature_key(),
                params.uid,
                crate::models::opt_string_view(params.key),
                params.api,
            );
            r == if code == 0 {
                Ok::<(), i32>(())
            } else {
                Err(code as i32)
            }
        }),
{
    check_auth(state, params.uid(), params.key(), params.api())
}

} // verus!
