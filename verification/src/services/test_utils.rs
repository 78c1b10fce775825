//! States for exercising the store without osu! credentials.
use vstd::prelude::*;

use crate::config::{Config, DownloadMirror, MalodyConfig, MalodyServerConfig, OsuConfig, ServerConfig};
use crate::services::AppState;

verus! {

broadcast use vstd::string::group_string_axioms;

/// The configuration of the test state: port 0, API versions 202310, the
/// welcome text `test server`, `/tmp/malody-test` as cache directory, client
/// checking off, no osu! credentials.
pub open spec fn is_test_config(r: Config) -> bool {
    &&& r.server.port == 0
    &&& r.server.host@ == ""@
    &&& r.server.tls_cert is None
    &&& r.server.tls_key is None
    &&& r.malody.server.api == 202310
    &&& r.malody.server.min == 202310
    &&& r.malody.server.welcome@ == "test server"@
    &&& r.malody.server.tmp@ == "/tmp/malody-test"@
    &&& !r.malody.server.verify_client_auth
    &&& r.malody.server.mirror == DownloadMirror::Hinamizawa
    &&& r.malody.server.max_osz_size == 0
    &&& r.malody.osu.client_id == Some(0u64)
    &&& r.malody.osu.client_secret matches Some(s) && s@ == ""@
}

pub fn test_config() -> (r: Config)
    ensures
        is_test_config(r),
{
    Config {
        server: ServerConfig {
            port: 0,
            host: "".to_string(),
            tls_cert: None,
            tls_key: None,
        },
        malody: MalodyConfig {
            server: MalodyServerConfig {
                api: 202310,
                min: 202310,
                welcome: "test server".to_string(),
                tmp: "/tmp/malody-test".to_string(),
                verify_client_auth: false,
                mirror: DownloadMirror::Hinamizawa,
                max_osz_size: 0,
            },
            osu: OsuConfig { client_id: Some(0), client_secret: Some("".to_string()) },
        },
    }
}

/// Build a minimal AppState for tests with no osu! client.
/// Endpoints that need the osu! client will return errors.
pub fn dummy_state() -> (r: AppState)
    ensures
        is_test_config(r.config),
        r.signature_key() is None,
{
    dummy_state_with_config(test_config())
}

/// The state for `config` without an osu! client or a public key.
pub fn dummy_state_with_config(config: Config) -> (r: AppState)
    ensures
        r.config == config,
        r.signature_key() is None,
        r.beatmap_cache@ == Set::<(u32, crate::cache::EntryView)>::empty(),
        r.beatmapset_cache@ == Set::<(u32, crate::services::search::MapsetView)>::empty(),
{
    AppState::without_signature_key(config)
}

} // verus!
