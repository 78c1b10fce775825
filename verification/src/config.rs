//! Server configuration: its shape, its defaults, the rules a loaded
//! configuration must meet, and the download mirrors.
use vstd::prelude::*;

use crate::models::opt_str_view;
use crate::text::{append_decimal, chars_of, decimal, digit_char};

verus! {

broadcast use vstd::string::group_string_axioms;

#[derive(Clone, Debug)]
pub struct Config {
    pub server: ServerConfig,
    pub malody: MalodyConfig,
}

#[derive(Clone, Debug)]
pub struct ServerConfig {
    pub port: u16,
    /// Public hostname for download URLs. Required.
    /// Examples: `malody.example.com`, `192.168.1.100`,`::1`
    pub host: String,
    /// Path to TLS certificate (PEM). Enables HTTPS when both cert and key are set.
    pub tls_cert: Option<String>,
    /// Path to TLS private key (PEM).
    pub tls_key: Option<String>,
}

#[derive(Clone, Debug)]
pub struct MalodyConfig {
    pub server: MalodyServerConfig,
    pub osu: OsuConfig,
}

#[derive(Clone, Debug)]
pub struct MalodyServerConfig {
    pub api: i32,
    pub min: i32,
    pub welcome: String,
    pub tmp: String,
    /// When true, reject requests missing valid uid/key/api parameters.
    pub verify_client_auth: bool,
    /// Beatmap download mirror.
    pub mirror: DownloadMirror,
    /// Upper bound, in bytes, on the cached `.osz` files in `tmp`; 0 means unlimited.
    pub max_osz_size: u64,
}

#[derive(Clone, Debug)]
pub struct OsuConfig {
    pub client_id: Option<u64>,
    pub client_secret: Option<String>,
}

/// Beatmap download mirror.
#[derive(Clone, Copy, Debug, PartialEq, Eq, Structural)]
pub enum DownloadMirror {
    Hinamizawa,
    Catboy,
    OsuDirect,
}

impl Default for DownloadMirror {
    fn default() -> (r: Self)
        ensures
            r == DownloadMirror::Hinamizawa,
    {
        DownloadMirror::Hinamizawa
    }
}

/// The URL of a mirror up to the mapset id.
pub open spec fn mirror_prefix(m: DownloadMirror) -> Seq<char> {
    match m {
        DownloadMirror::Hinamizawa => "https://mirror.hinamizawa.ai/api/v1/hinai/d/"@,
        DownloadMirror::Catboy => "https://catboy.best/d/"@,
        DownloadMirror::OsuDirect => "https://osu.direct/api/d/"@,
    }
}

impl DownloadMirror {
    pub fn url_for(&self, mapset_id: u32) -> (r: String)
        ensures
            r@ == mirror_prefix(*self) + decimal(mapset_id as nat),
    {
        let prefix = match self {
            Self::Hinamizawa => "https://mirror.hinamizawa.ai/api/v1/hinai/d/",
            Self::Catboy => "https://catboy.best/d/",
            Self::OsuDirect => "https://osu.direct/api/d/",
        };
        let mut url = String::new();
        url.append(prefix);
        append_decimal(&mut url, mapset_id as u64);
        assert(url@ =~= mirror_prefix(*self) + decimal(mapset_id as nat));
        url
    }
}

proof fn lemma_decimal_injective(n: nat, m: nat)
    requires
        decimal(n) == decimal(m),
    ensures
        n == m,
    decreases n,
{
    if n >= 10 {
        assert(decimal(n / 10).push(digit_char(n % 10)).len() >= 2) by {
            crate::text::lemma_decimal_is_digits(n / 10);
        }
    }
    if m >= 10 {
        assert(decimal(m / 10).push(digit_char(m % 10)).len() >= 2) by {
            crate::text::lemma_decimal_is_digits(m / 10);
        }
    }
    if n < 10 && m < 10 {
        assert(decimal(n)[0] == digit_char(n));
        assert(decimal(m)[0] == digit_char(m));
        crate::text::lemma_digit_char_injective(n, m);
    }
    if n >= 10 && m >= 10 {
        assert(decimal(n).last() == digit_char(n % 10));
        assert(decimal(m).last() == digit_char(m % 10));
        crate::text::lemma_digit_char_injective(n % 10, m % 10);
        assert(decimal(n).drop_last() =~= decimal(n / 10));
        assert(decimal(m).drop_last() =~= decimal(m / 10));
        lemma_decimal_injective(n / 10, m / 10);
    }
}

/// Different mirrors give different URLs for the same mapset, and one mirror
/// gives different URLs for different mapsets.
pub proof fn law_mirror_urls_distinct(a: DownloadMirror, b: DownloadMirror, x: u32, y: u32)
    ensures
        a != b ==> mirror_prefix(a) + decimal(x as nat) != mirror_prefix(b) + decimal(y as nat),
        x != y ==> mirror_prefix(a) + decimal(x as nat) != mirror_prefix(a) + decimal(y as nat),
{
    reveal_strlit("https://mirror.hinamizawa.ai/api/v1/hinai/d/");
    reveal_strlit("https://catboy.best/d/");
    reveal_strlit("https://osu.direct/api/d/");
    if a != b {
        assert((mirror_prefix(a) + decimal(x as nat))[8] != (mirror_prefix(b) + decimal(
            y as nat,
        ))[8]);
    }
    if x != y && mirror_prefix(a) + decimal(x as nat) == mirror_prefix(a) + decimal(y as nat) {
        let p = mirror_prefix(a);
        assert((p + decimal(x as nat)).skip(p.len() as int) =~= decimal(x as nat));
        assert((p + decimal(y as nat)).skip(p.len() as int) =~= decimal(y as nat));
        lemma_decimal_injective(x as nat, y as nat);
    }
}

pub fn default_port() -> (r: u16)
    ensures
        r == 8081,
{
    8081
}

pub fn default_api_version() -> (r: i32)
    ensures
        r == 202310,
{
    202310
}

pub fn default_tmp_dir() -> (r: String)
    ensures
        r@ == "./Osu2Malody"@,
{
    "./Osu2Malody".to_string()
}

/// Why a configuration cannot be used.
#[derive(Clone, Copy, Debug, PartialEq, Eq, Structural)]
pub enum ConfigError {
    /// `malody.osu.clientID` is missing or 0.
    MissingClientId,
    /// `malody.osu.clientSecret` is missing or empty.
    MissingClientSecret,
    /// `server.port` is 0.
    ZeroPort,
    /// `server.host` is empty.
    MissingHost,
    /// `tls_cert` is set without `tls_key`.
    TlsKeyMissing,
    /// `tls_key` is set without `tls_cert`.
    TlsCertMissing,
}

pub open spec fn secret_missing(s: Option<String>) -> bool {
    match s {
        Some(x) => x@.len() == 0,
        None => true,
    }
}

/// The first rule that `c` breaks, in the order they are checked.
pub open spec fn config_check(c: Config) -> Result<(), ConfigError> {
    if c.malody.osu.client_id.unwrap_or(0) == 0 {
        Err(ConfigError::MissingClientId)
    } else if secret_missing(c.malody.osu.client_secret) {
        Err(ConfigError::MissingClientSecret)
    } else if c.server.port == 0 {
        Err(ConfigError::ZeroPort)
    } else if c.server.host@.len() == 0 {
        Err(ConfigError::MissingHost)
    } else if c.server.tls_cert is Some && c.server.tls_key is None {
        Err(ConfigError::TlsKeyMissing)
    } else if c.server.tls_cert is None && c.server.tls_key is Some {
        Err(ConfigError::TlsCertMissing)
    } else {
        Ok(())
    }
}

impl Config {
    /// Validate the loaded configuration.
    pub fn validate(&self) -> (r: Result<(), ConfigError>)
        ensures
            r == config_check(*self),
    {
        let id = match self.malody.osu.client_id {
            Some(v) => v,
            None => 0,
        };
        if id == 0 {
            return Err(ConfigError::MissingClientId);
        }
        let secret_empty = match &self.malody.osu.client_secret {
            Some(s) => s.as_str().is_empty(),
            None => true,
        };
        if secret_empty {
            return Err(ConfigError::MissingClientSecret);
        }
        if self.server.port == 0 {
            return Err(ConfigError::ZeroPort);
        }
        if self.server.host.as_str().is_empty() {
            return Err(ConfigError::MissingHost);
        }
        match (&self.server.tls_cert, &self.server.tls_key) {
            (Some(_), None) => Err(ConfigError::TlsKeyMissing),
            (None, Some(_)) => Err(ConfigError::TlsCertMissing),
            _ => Ok(()),
        }
    }
}

// ---------------------------------------------------------------------------
// Environment overrides
// ---------------------------------------------------------------------------

pub open spec fn is_digit(c: char) -> bool {
    '0' <= c <= '9'
}

pub open spec fn all_digits(s: Seq<char>) -> bool {
    forall|i: int| 0 <= i < s.len() ==> is_digit(#[trigger] s[i])
}

/// The number the decimal digits `s` write.
pub open spec fn digits_value(s: Seq<char>) -> nat
    decreases s.len(),
{
    if s.len() == 0 {
        0
    } else {
        digits_value(s.drop_last()) * 10 + (s.last() as int - '0' as int) as nat
    }
}

/// `s` without one leading `+`.
pub open spec fn unsigned_text(s: Seq<char>) -> Seq<char> {
    if s.len() > 0 && s[0] == '+' {
        s.drop_first()
    } else {
        s
    }
}

/// What `str::parse` gives for an unsigned integer type whose largest value
/// is `max`: an optional `+`, then one or more ASCII digits whose value is at
/// most `max`; anything else is an error (`None`).
pub open spec fn parsed_unsigned(s: Seq<char>, max: int) -> Option<nat> {
    let d = unsigned_text(s);
    if d.len() > 0 && all_digits(d) && digits_value(d) <= max {
        Some(digits_value(d))
    } else {
        None
    }
}

proof fn lemma_digits_value_grows(d: Seq<char>, j: int, k: int)
    requires
        0 <= j <= k <= d.len(),
        all_digits(d),
    ensures
        digits_value(d.take(j)) <= digits_value(d.take(k)),
    decreases k - j,
{
    if j < k {
        assert(d.take(k).drop_last() =~= d.take(k - 1));
        assert(is_digit(d[k - 1]));
        lemma_digits_value_grows(d, j, k - 1);
    }
}

/// Parse `s` as an unsigned decimal number no larger than `max`.
pub fn parse_unsigned(s: &str, max: u64) -> (r: Option<u64>)
    ensures
        match parsed_unsigned(s@, max as int) {
            Some(v) => r == Some(v as u64),
            None => r is None,
        },
{
    let v = chars_of(s);
    let n = v.len();
    let start: usize = if n > 0 && v[0] == '+' {
        1
    } else {
        0
    };
    let ghost d = v@.subrange(start as int, n as int);
    assert(d =~= unsigned_text(s@));
    if start == n {
        return None;
    }
    let mut value: u64 = 0;
    let mut i: usize = start;
    assert(d.take(0) =~= Seq::<char>::empty());
    while i < n
        invariant
            v@ == s@,
            n == v@.len(),
            start <= i <= n,
            d == v@.subrange(start as int, n as int),
            d == unsigned_text(s@),
            all_digits(d.take(i - start)),
            value == digits_value(d.take(i - start)),
            value <= max,
        decreases n - i,
    {
        let c = v[i];
        assert(d[i - start] == c);
        if !('0' <= c && c <= '9') {
            assert(!is_digit(d[i - start]));
            return None;
        }
        let digit = (c as u32 - '0' as u32) as u64;
        assert(d.take(i - start + 1).drop_last() =~= d.take(i - start));
        assert(d.take(i - start + 1).last() == c);
        let next: u128 = value as u128 * 10 + digit as u128;
        assert(next == digits_value(d.take(i - start + 1)));
        assert(all_digits(d.take(i - start + 1))) by {
            assert forall|k: int| 0 <= k < i - start + 1 implies is_digit(
                #[trigger] d.take(i - start + 1)[k],
            ) by {
                if k < i - start {
                    assert(d.take(i - start + 1)[k] == d.take(i - start)[k]);
                }
            }
        }
        if next > max as u128 {
            proof {
                if all_digits(d) {
                    lemma_digits_value_grows(d, i - start + 1, d.len() as int);
                    assert(d.take(d.len() as int) =~= d);
                }
            }
            return None;
        }
        value = next as u64;
        i = i + 1;
    }
    assert(d.take(n - start) =~= d);
    Some(value)
}

/// Why an environment override cannot be used.
#[derive(Clone, Copy, Debug, PartialEq, Eq, Structural)]
pub enum OverrideError {
    /// `SERVER_PORT` is not a valid `u16`.
    InvalidPort,
    /// `OSU_CLIENT_ID` is not a valid `u64`.
    InvalidClientId,
}

/// `c` with the overrides applied, in order: the port, then the client ID
/// (each parsed as a number), then the client secret.
pub open spec fn env_overrides(
    c: Config,
    port: Option<Seq<char>>,
    client_id: Option<Seq<char>>,
    client_secret: Option<String>,
) -> Result<Config, OverrideError> {
    if port is Some && parsed_unsigned(port->0, u16::MAX as int) is None {
        Err(OverrideError::InvalidPort)
    } else if client_id is Some && parsed_unsigned(client_id->0, u64::MAX as int) is None {
        Err(OverrideError::InvalidClientId)
    } else {
        Ok(
            Config {
                server: ServerConfig {
                    port: match port {
                        Some(p) => parsed_unsigned(p, u16::MAX as int)->0 as u16,
                        None => c.server.port,
                    },
                    ..c.server
                },
                malody: MalodyConfig {
                    osu: OsuConfig {
                        client_id: match client_id {
                            Some(t) => Some(parsed_unsigned(t, u64::MAX as int)->0 as u64),
                            None => c.malody.osu.client_id,
                        },
                        client_secret: match client_secret {
                            Some(x) => Some(x),
                            None => c.malody.osu.client_secret,
                        },
                    },
                    ..c.malody
                },
            },
        )
    }
}

impl Config {
    /// Apply the environment overrides: `SERVER_PORT` → `server.port`,
    /// `OSU_CLIENT_ID` → `malody.osu.clientID`, `OSU_CLIENT_SECRET` →
    /// `malody.osu.clientSecret`; each argument is the variable's value when set.
    pub fn with_env_overrides(
        self,
        port: Option<&str>,
        client_id: Option<&str>,
        client_secret: Option<String>,
    ) -> (r: Result<Config, OverrideError>)
        ensures
            r == env_overrides(self, opt_str_view(port), opt_str_view(client_id), client_secret),
    {
        let mut c = self;
        if let Some(p) = port {
            match parse_unsigned(p, 65535) {
                Some(v) => c.server.port = v as u16,
                None => return Err(OverrideError::InvalidPort),
            }
        }
        if let Some(t) = client_id {
            match parse_unsigned(t, u64::MAX) {
                Some(v) => c.malody.osu.client_id = Some(v),
                None => return Err(OverrideError::InvalidClientId),
            }
        }
        if let Some(x) = client_secret {
            c.malody.osu.client_secret = Some(x);
        }
        Ok(c)
    }
}

} // verus!
