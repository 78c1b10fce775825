//! Downloads: where the store's files are served from, the items a chart
//! download lists, how `.osz` archives from mirrors are checked, and which
//! archive entry a resource request is answered with.
use vstd::prelude::*;

use md5::Digest;

use crate::cache::BeatmapCacheEntry;
use crate::config::ServerConfig;
use crate::models::DownloadItem;
use crate::osu_parser::{audio_and_background, audio_filename, background_filename, opt_view, parse_audio_and_background, parse_audio_filename, parse_background_filename};
use crate::services::charts::{display_version, version_label};
use crate::text::{append_decimal, decimal};

verus! {

broadcast use vstd::string::group_string_axioms;

pub const API_BASE_PATH: &'static str = "api/store";

// ---------------------------------------------------------------------------
// Download URLs and items
// ---------------------------------------------------------------------------

/// Whether a server port is the default one of its scheme (443 for https, 80 for http).
pub open spec fn default_port_of(tls: bool, port: u16) -> bool {
    (tls && port == 443) || (!tls && port == 80)
}

/// `host:port` as a URL authority: an IPv6 host in brackets, the port left
/// out when it is the scheme's default (never for IPv6).
pub open spec fn authority(host: Seq<char>, port: u16, tls: bool, host_is_ipv6: bool) -> Seq<char> {
    if host_is_ipv6 {
        "["@ + host + "]:"@ + decimal(port as nat)
    } else if default_port_of(tls, port) {
        host
    } else {
        host + ":"@ + decimal(port as nat)
    }
}

/// Whether download URLs use https. A reverse proxy in front of the server
/// tells the scheme clients reach it by in `X-Forwarded-Proto`
/// (`forwarded`): `https` or `http` is taken as given; without the header,
/// or with another value, https is used when a TLS certificate is configured.
pub open spec fn uses_https(server: ServerConfig, forwarded: Option<Seq<char>>) -> bool {
    match forwarded {
        Some(p) => if p == "https"@ {
            true
        } else if p == "http"@ {
            false
        } else {
            server.tls_cert is Some
        },
        None => server.tls_cert is Some,
    }
}

/// `{scheme}://{authority}/api/store`, with the scheme of [`uses_https`].
pub open spec fn base_url_of(server: ServerConfig, host_is_ipv6: bool, forwarded: Option<Seq<char>>) -> Seq<char> {
    let tls = uses_https(server, forwarded);
    (if tls {
        "https"@
    } else {
        "http"@
    }) + "://"@ + authority(server.host@, server.port, tls, host_is_ipv6) + "/"@
        + API_BASE_PATH@
}

/// The base of the file URLs a download lists. `host_is_ipv6` tells whether
/// `server.host` is an IPv6 address literal; `forwarded_proto` is the
/// request's `X-Forwarded-Proto` header, when it has one.
pub fn download_base_url(server: &ServerConfig, host_is_ipv6: bool, forwarded_proto: Option<&str>) -> (r:
    String)
    ensures
        r@ == base_url_of(*server, host_is_ipv6, crate::models::opt_str_view(forwarded_proto)),
{
    let tls = match forwarded_proto {
        Some(p) => if str_is(p, "https") {
            true
        } else if str_is(p, "http") {
            false
        } else {
            server.tls_cert.is_some()
        },
        None => server.tls_cert.is_some(),
    };
    let mut url = String::new();
    if tls {
        url.append("https");
    } else {
        url.append("http");
    }
    url.append("://");
    let ghost before = url@;
    let port = server.port;
    if host_is_ipv6 {
        url.append("[");
        url.append(server.host.as_str());
        url.append("]:");
        append_decimal(&mut url, port as u64);
    } else if (tls && port == 443) || (!tls && port == 80) {
        url.append(server.host.as_str());
    } else {
        url.append(server.host.as_str());
        url.append(":");
        append_decimal(&mut url, port as u64);
    }
    assert(url@ =~= before + authority(server.host@, port, tls, host_is_ipv6));
    url.append("/");
    url.append(API_BASE_PATH);
    assert(url@ =~= base_url_of(*server, host_is_ipv6, crate::models::opt_str_view(forwarded_proto)));
    url
}

/// `{base_url}/{map_id}?type={kind}`.
pub open spec fn file_url(base_url: Seq<char>, map_id: u32, kind: Seq<char>) -> Seq<char> {
    base_url + "/"@ + decimal(map_id as nat) + "?type="@ + kind
}

fn resource_url(base_url: &str, map_id: u32, kind: &str) -> (r: String)
    ensures
        r@ == file_url(base_url@, map_id, kind@),
{
    let mut url = String::new();
    url.append(base_url);
    url.append("/");
    append_decimal(&mut url, map_id as u64);
    url.append("?type=");
    url.append(kind);
    assert(url@ =~= file_url(base_url@, map_id, kind@));
    url
}

/// The file name a chart is served under: `"{version} R.{stars}.osu"`.
pub open spec fn chart_file_name_of(entry: BeatmapCacheEntry) -> Seq<char> {
    display_version(entry.version@, entry.stars@) + ".osu"@
}

pub fn chart_file_name(entry: &BeatmapCacheEntry) -> (r: String)
    ensures
        r@ == chart_file_name_of(*entry),
{
    let mut name = version_label(entry.version.as_str(), entry.stars.as_str());
    name.append(".osu");
    name
}

/// The three items a chart download lists: the chart itself (hashed by the
/// beatmap checksum), its audio and its background, each with its file URL.
pub fn download_items(
    entry: &BeatmapCacheEntry,
    base_url: &str,
    audio_name: String,
    audio_hash: String,
    bg_name: String,
    bg_hash: String,
) -> (r: Vec<DownloadItem>)
    ensures
        r@.len() == 3,
        r@[0].name@ == chart_file_name_of(*entry),
        r@[0].hash@ == entry.checksum@,
        r@[0].file@ == file_url(base_url@, entry.map_id, "chart"@),
        r@[1].name@ == audio_name@,
        r@[1].hash@ == audio_hash@,
        r@[1].file@ == file_url(base_url@, entry.map_id, "audio"@),
        r@[2].name@ == bg_name@,
        r@[2].hash@ == bg_hash@,
        r@[2].file@ == file_url(base_url@, entry.map_id, "bg"@),
{
    let mut items: Vec<DownloadItem> = Vec::new();
    items.push(
        DownloadItem {
            name: chart_file_name(entry),
            hash: entry.checksum.clone(),
            file: resource_url(base_url, entry.map_id, "chart"),
        },
    );
    items.push(
        DownloadItem {
            name: audio_name,
            hash: audio_hash,
            file: resource_url(base_url, entry.map_id, "audio"),
        },
    );
    items.push(
        DownloadItem {
            name: bg_name,
            hash: bg_hash,
            file: resource_url(base_url, entry.map_id, "bg"),
        },
    );
    items
}

// ---------------------------------------------------------------------------
// Chart text
// ---------------------------------------------------------------------------

/// `String::from_utf8_lossy` of `bytes`: the text with each invalid UTF-8
/// sequence replaced by U+FFFD.
pub uninterp spec fn utf8_lossy(bytes: Seq<u8>) -> Seq<char>;

/// `String::from_utf8_lossy(bytes).into_owned()`. Valid UTF-8 decodes unchanged.
#[verifier::external_body]
fn text_from_utf8_lossy(bytes: &[u8]) -> (r: String)
    ensures
        r@ == utf8_lossy(bytes@),
        vstd::utf8::valid_utf8(bytes@) ==> r@ == vstd::utf8::decode_utf8(bytes@),
{
    String::from_utf8_lossy(bytes).into_owned()
}

/// A file a chart names but that cannot be found.
#[derive(Clone, Copy, Debug, PartialEq, Eq, Structural)]
pub enum MissingFile {
    Audio,
    Background,
}

/// The audio and background file names the chart `osu_content` names, read
/// in one pass over its text.
pub fn audio_and_background_of(osu_content: &[u8]) -> (r: Result<(String, String), MissingFile>)
    ensures
        ({
            let (a, b) = audio_and_background(utf8_lossy(osu_content@));
            match r {
                Ok((x, y)) => a == Some(x@) && b == Some(y@),
                Err(MissingFile::Audio) => a is None,
                Err(MissingFile::Background) => a is Some && b is None,
            }
        }),
{
    let text = text_from_utf8_lossy(osu_content);
    let (audio, bg) = parse_audio_and_background(text.as_str());
    let audio = match audio {
        Some(a) => a,
        None => return Err(MissingFile::Audio),
    };
    match bg {
        Some(b) => Ok((audio, b)),
        None => Err(MissingFile::Background),
    }
}

// ---------------------------------------------------------------------------
// Hashes
// ---------------------------------------------------------------------------

/// The MD5 digest of `data`.
pub uninterp spec fn md5_digest(data: Seq<u8>) -> Seq<u8>;

/// `md5::Md5::digest` (the `md-5` crate): a 16-byte digest.
#[verifier::external_body]
fn md5(data: &[u8]) -> (r: Vec<u8>)
    ensures
        r@ == md5_digest(data@),
        r@.len() == 16,
{
    md5::Md5::digest(data).to_vec()
}

pub open spec fn hex_digit(d: nat) -> char {
    if d < 10 {
        ((48 + d) as u8) as char
    } else {
        ((87 + d) as u8) as char
    }
}

/// Lower-case hexadecimal, two digits per byte, high nibble first.
pub open spec fn hex_lower(bytes: Seq<u8>) -> Seq<char>
    decreases bytes.len(),
{
    if bytes.len() == 0 {
        Seq::empty()
    } else {
        hex_lower(bytes.drop_last()) + seq![
            hex_digit((bytes.last() / 16) as nat),
            hex_digit((bytes.last() % 16) as nat),
        ]
    }
}

fn push_hex_digit(s: &mut String, d: u8)
    requires
        d < 16,
    ensures
        final(s)@ == old(s)@.push(hex_digit(d as nat)),
{
    proof {
        reveal_strlit("0");
        reveal_strlit("1");
        reveal_strlit("2");
        reveal_strlit("3");
        reveal_strlit("4");
        reveal_strlit("5");
        reveal_strlit("6");
        reveal_strlit("7");
        reveal_strlit("8");
        reveal_strlit("9");
        reveal_strlit("a");
        reveal_strlit("b");
        reveal_strlit("c");
        reveal_strlit("d");
        reveal_strlit("e");
        reveal_strlit("f");
    }
    let piece: &str = match d {
        0 => "0",
        1 => "1",
        2 => "2",
        3 => "3",
        4 => "4",
        5 => "5",
        6 => "6",
        7 => "7",
        8 => "8",
        9 => "9",
        10 => "a",
        11 => "b",
        12 => "c",
        13 => "d",
        14 => "e",
        _ => "f",
    };
    s.append(piece);
    assert(final(s)@ =~= old(s)@.push(hex_digit(d as nat)));
}

/// `bytes` in lower-case hexadecimal.
pub fn to_hex_lower(bytes: &[u8]) -> (r: String)
    ensures
        r@ == hex_lower(bytes@),
{
    let mut s = String::new();
    let mut i: usize = 0;
    assert(bytes@.take(0) =~= Seq::<u8>::empty());
    while i < bytes.len()
        invariant
            i <= bytes@.len(),
            s@ == hex_lower(bytes@.take(i as int)),
        decreases bytes@.len() - i,
    {
        assert(bytes@.take(i + 1).drop_last() =~= bytes@.take(i as int));
        let b = bytes[i];
        push_hex_digit(&mut s, b / 16);
        push_hex_digit(&mut s, b % 16);
        i = i + 1;
    }
    assert(bytes@.take(bytes@.len() as int) =~= bytes@);
    s
}

/// The MD5 of `data` in lower-case hexadecimal: the form osu! checksums take.
pub fn md5_hex(data: &[u8]) -> (r: String)
    ensures
        r@ == hex_lower(md5_digest(data@)),
{
    let digest = md5(data);
    to_hex_lower(digest.as_slice())
}

/// Whether the file `data` is the chart with osu! checksum `checksum`.
pub fn checksum_matches(data: &[u8], checksum: &str) -> (r: bool)
    ensures
        r == (hex_lower(md5_digest(data@)) == checksum@),
{
    let hash = md5_hex(data);
    let a = crate::text::chars_of(hash.as_str());
    let b = crate::text::chars_of(checksum);
    if a.len() != b.len() {
        return false;
    }
    let mut i: usize = 0;
    while i < a.len()
        invariant
            a@ == hash@,
            hash@ == hex_lower(md5_digest(data@)),
            b@ == checksum@,
            a@.len() == b@.len(),
            i <= a@.len(),
            forall|j: int| 0 <= j < i ==> a@[j] == b@[j],
        decreases a@.len() - i,
    {
        if a[i] != b[i] {
            assert(a@[i as int] != b@[i as int]);
            return false;
        }
        i = i + 1;
    }
    assert(a@ =~= b@);
    true
}

// ---------------------------------------------------------------------------
// Archive entries
// ---------------------------------------------------------------------------

/// The name of one entry of a `.osz` (zip) archive and whether it is a directory.
#[derive(Clone, Debug)]
pub struct ZipEntryName {
    pub name: String,
    pub is_dir: bool,
}

pub open spec fn ascii_lower(b: u8) -> u8 {
    if 65 <= b <= 90 {
        (b + 32) as u8
    } else {
        b
    }
}

/// `str::eq_ignore_ascii_case`: the same UTF-8 bytes up to ASCII case.
pub open spec fn eq_ignore_ascii_case(a: Seq<char>, b: Seq<char>) -> bool {
    let x = vstd::utf8::encode_utf8(a);
    let y = vstd::utf8::encode_utf8(b);
    x.len() == y.len() && forall|i: int| 0 <= i < x.len() ==> ascii_lower(#[trigger] x[i]) == ascii_lower(y[i])
}

fn lower_byte(b: u8) -> (r: u8)
    ensures
        r == ascii_lower(b),
{
    if 65 <= b && b <= 90 {
        b + 32
    } else {
        b
    }
}

pub fn names_equal_ignoring_ascii_case(a: &str, b: &str) -> (r: bool)
    ensures
        r == eq_ignore_ascii_case(a@, b@),
{
    let x = a.as_bytes();
    let y = b.as_bytes();
    if x.len() != y.len() {
        return false;
    }
    let mut i: usize = 0;
    while i < x.len()
        invariant
            x@ == vstd::utf8::encode_utf8(a@),
            y@ == vstd::utf8::encode_utf8(b@),
            x@.len() == y@.len(),
            i <= x@.len(),
            forall|j: int| 0 <= j < i ==> ascii_lower(#[trigger] x@[j]) == ascii_lower(y@[j]),
        decreases x@.len() - i,
    {
        if lower_byte(x[i]) != lower_byte(y[i]) {
            return false;
        }
        i = i + 1;
    }
    true
}

/// An entry that is a file named `target` up to ASCII case.
pub open spec fn entry_is(e: ZipEntryName, target: Seq<char>) -> bool {
    eq_ignore_ascii_case(e.name@, target) && !e.is_dir
}

/// The first file entry named `target` (up to ASCII case), if any.
pub fn find_entry(entries: &Vec<ZipEntryName>, target: &str) -> (r: Option<usize>)
    ensures
        match r {
            Some(i) => i < entries@.len() && entry_is(entries@[i as int], target@) && forall|
                j: int,
            | 0 <= j < i ==> !entry_is(#[trigger] entries@[j], target@),
            None => forall|j: int|
                0 <= j < entries@.len() ==> !entry_is(#[trigger] entries@[j], target@),
        },
{
    let mut i: usize = 0;
    while i < entries.len()
        invariant
            i <= entries@.len(),
            forall|j: int| 0 <= j < i ==> !entry_is(#[trigger] entries@[j], target@),
        decreases entries@.len() - i,
    {
        if names_equal_ignoring_ascii_case(entries[i].name.as_str(), target) && !entries[i].is_dir {
            return Some(i);
        }
        i = i + 1;
    }
    None
}

/// Every file entry named `target` (up to ASCII case), in archive order.
pub fn matching_entries(entries: &Vec<ZipEntryName>, target: &str) -> (r: Vec<usize>)
    ensures
        forall|k: int| 0 <= k < r@.len() ==> r@[k] < entries@.len() && entry_is(entries@[#[trigger] r@[k] as int], target@),
        forall|k: int, l: int| 0 <= k < l < r@.len() ==> r@[k] < r@[l],
        forall|j: int| 0 <= j < entries@.len() && entry_is(#[trigger] entries@[j], target@) ==> r@.contains(j as usize),
{
    let mut found: Vec<usize> = Vec::new();
    let mut i: usize = 0;
    while i < entries.len()
        invariant
            i <= entries@.len(),
            forall|k: int| 0 <= k < found@.len() ==> found@[k] < i && entry_is(entries@[#[trigger] found@[k] as int], target@),
            forall|k: int, l: int| 0 <= k < l < found@.len() ==> found@[k] < found@[l],
            forall|j: int| 0 <= j < i && entry_is(#[trigger] entries@[j], target@) ==> found@.contains(j as usize),
        decreases entries@.len() - i,
    {
        if names_equal_ignoring_ascii_case(entries[i].name.as_str(), target) && !entries[i].is_dir {
            let ghost old_found = found@;
            found.push(i);
            assert forall|j: int| 0 <= j < i + 1 && entry_is(#[trigger] entries@[j], target@) implies found@.contains(j as usize) by {
                if j < i {
                    let k = choose|k: int| 0 <= k < old_found.len() && old_found[k] == j as usize;
                    assert(found@[k] == j as usize);
                } else {
                    assert(found@[old_found.len() as int] == i);
                }
            }
        }
        i = i + 1;
    }
    found
}

/// Whether an archive entry name is a chart: it ends in `.osu`, in any case.
pub open spec fn is_chart_name(name: Seq<char>) -> bool {
    let n = name.len();
    &&& n >= 4
    &&& name[n - 4] == '.'
    &&& (name[n - 3] == 'o' || name[n - 3] == 'O')
    &&& (name[n - 2] == 's' || name[n - 2] == 'S')
    &&& (name[n - 1] == 'u' || name[n - 1] == 'U')
}

/// Whether `name`, lower-cased, ends in `.osu`. Lower-casing maps no
/// character outside ASCII to `.`, `o`, `s` or `u`, so this is an ASCII
/// case-insensitive look at the last four characters.
pub fn is_chart_entry_name(name: &str) -> (r: bool)
    ensures
        r == is_chart_name(name@),
{
    let v = crate::text::chars_of(name);
    let n = v.len();
    n >= 4 && v[n - 4] == '.' && (v[n - 3] == 'o' || v[n - 3] == 'O') && (v[n - 2] == 's' || v[n
        - 2] == 'S') && (v[n - 1] == 'u' || v[n - 1] == 'U')
}

/// The chart entries of an archive: the positions of the entries whose name
/// ends in `.osu` (in any case), in archive order.
pub fn chart_entries(entries: &Vec<ZipEntryName>) -> (r: Vec<usize>)
    ensures
        forall|k: int|
            0 <= k < r@.len() ==> r@[k] < entries@.len() && is_chart_name(
                entries@[#[trigger] r@[k] as int].name@,
            ),
        forall|k: int, l: int| 0 <= k < l < r@.len() ==> r@[k] < r@[l],
        forall|j: int|
            0 <= j < entries@.len() && is_chart_name(#[trigger] entries@[j].name@) ==> r@.contains(
                j as usize,
            ),
{
    let mut found: Vec<usize> = Vec::new();
    let mut i: usize = 0;
    while i < entries.len()
        invariant
            i <= entries@.len(),
            forall|k: int|
                0 <= k < found@.len() ==> found@[k] < i && is_chart_name(
                    entries@[#[trigger] found@[k] as int].name@,
                ),
            forall|k: int, l: int| 0 <= k < l < found@.len() ==> found@[k] < found@[l],
            forall|j: int|
                0 <= j < i && is_chart_name(#[trigger] entries@[j].name@) ==> found@.contains(
                    j as usize,
                ),
        decreases entries@.len() - i,
    {
        if is_chart_entry_name(entries[i].name.as_str()) {
            let ghost old_found = found@;
            found.push(i);
            assert forall|j: int|
                0 <= j < i + 1 && is_chart_name(#[trigger] entries@[j].name@) implies found@.contains(
                j as usize,
            ) by {
                if j < i {
                    let k = choose|k: int| 0 <= k < old_found.len() && old_found[k] == j as usize;
                    assert(found@[k] == j as usize);
                } else {
                    assert(found@[old_found.len() as int] == i);
                }
            }
        }
        i = i + 1;
    }
    found
}

/// Whether the file `data` has the osu! checksum `checksum`.
pub open spec fn has_checksum(data: Seq<u8>, checksum: Seq<char>) -> bool {
    hex_lower(md5_digest(data)) == checksum
}

/// The first of `files` whose MD5 (lower-case hex) is `checksum`.
pub fn first_checksum_match(files: &Vec<Vec<u8>>, checksum: &str) -> (r: Option<usize>)
    ensures
        match r {
            Some(i) => i < files@.len() && has_checksum(files@[i as int]@, checksum@) && forall|
                j: int,
            | 0 <= j < i ==> !has_checksum(#[trigger] files@[j]@, checksum@),
            None => forall|j: int|
                0 <= j < files@.len() ==> !has_checksum(#[trigger] files@[j]@, checksum@),
        },
{
    let mut i: usize = 0;
    while i < files.len()
        invariant
            i <= files@.len(),
            forall|j: int| 0 <= j < i ==> !has_checksum(#[trigger] files@[j]@, checksum@),
        decreases files@.len() - i,
    {
        if checksum_matches(files[i].as_slice(), checksum) {
            return Some(i);
        }
        i = i + 1;
    }
    None
}

// ---------------------------------------------------------------------------
// Mirror payloads
// ---------------------------------------------------------------------------

/// What a mirror sent instead of, or as, an `.osz` archive.
#[derive(Clone, Copy, Debug, PartialEq, Eq, Structural)]
pub enum OszPayload {
    /// A JSON error body (starts with `{`).
    MirrorError,
    /// Something else that is not a zip archive (does not start with `PK`).
    NotZip,
    /// Starts like a zip archive.
    Zip,
}

pub open spec fn payload_kind(bytes: Seq<u8>) -> OszPayload {
    if bytes.len() >= 1 && bytes[0] == 123 {
        OszPayload::MirrorError
    } else if !(bytes.len() >= 2 && bytes[0] == 80 && bytes[1] == 75) {
        OszPayload::NotZip
    } else {
        OszPayload::Zip
    }
}

/// Detect JSON error responses from mirrors (returned instead of binary
/// .osz) and anything else that does not look like a zip file.
pub fn classify_osz_payload(bytes: &[u8]) -> (r: OszPayload)
    ensures
        r == payload_kind(bytes@),
{
    if bytes.len() >= 1 && bytes[0] == 123 {
        OszPayload::MirrorError
    } else if !(bytes.len() >= 2 && bytes[0] == 80 && bytes[1] == 75) {
        OszPayload::NotZip
    } else {
        OszPayload::Zip
    }
}

// ---------------------------------------------------------------------------
// Resource requests
// ---------------------------------------------------------------------------

/// The files a chart's resources can be fetched as.
#[derive(Clone, Copy, Debug, PartialEq, Eq, Structural)]
pub enum ResourceKind {
    Chart,
    Audio,
    Background,
}

pub open spec fn resource_kind_of(t: Seq<char>) -> Option<ResourceKind> {
    if t == "chart"@ {
        Some(ResourceKind::Chart)
    } else if t == "audio"@ {
        Some(ResourceKind::Audio)
    } else if t == "bg"@ {
        Some(ResourceKind::Background)
    } else {
        None
    }
}

fn str_is(s: &str, w: &str) -> (r: bool)
    ensures
        r == (s@ == w@),
{
    let v = crate::text::chars_of(s);
    let u = crate::text::chars_of(w);
    assert(v@.subrange(0, v@.len() as int) =~= v@);
    crate::text::range_eq(&v, 0, v.len(), u.as_slice())
}

/// The kind named by a request's `type` parameter: `chart`, `audio` or `bg`.
pub fn resource_kind(t: &str) -> (r: Option<ResourceKind>)
    ensures
        r == resource_kind_of(t@),
{
    if str_is(t, "chart") {
        Some(ResourceKind::Chart)
    } else if str_is(t, "audio") {
        Some(ResourceKind::Audio)
    } else if str_is(t, "bg") {
        Some(ResourceKind::Background)
    } else {
        None
    }
}

pub open spec fn content_type_of(t: Seq<char>) -> Seq<char> {
    match resource_kind_of(t) {
        Some(ResourceKind::Chart) => "text/plain"@,
        Some(ResourceKind::Audio) => "audio/mpeg"@,
        Some(ResourceKind::Background) => "image/jpeg"@,
        None => "application/octet-stream"@,
    }
}

/// The `Content-Type` a resource of type `t` is served with.
pub fn resource_content_type(t: &str) -> (r: &'static str)
    ensures
        r@ == content_type_of(t@),
{
    match resource_kind(t) {
        Some(ResourceKind::Chart) => "text/plain",
        Some(ResourceKind::Audio) => "audio/mpeg",
        Some(ResourceKind::Background) => "image/jpeg",
        None => "application/octet-stream",
    }
}

/// The `Content-Disposition` a file is served with: `attachment; filename="{name}"`.
pub fn content_disposition(filename: &str) -> (r: String)
    ensures
        r@ == "attachment; filename=\""@ + filename@ + "\""@,
{
    let mut s = String::new();
    s.append("attachment; filename=\"");
    s.append(filename);
    s.append("\"");
    assert(s@ =~= "attachment; filename=\""@ + filename@ + "\""@);
    s
}

/// An HTTP status with a message: how a resource request fails.
pub type ResourceError = (u16, String);

pub open spec fn error_is(e: ResourceError, status: u16, message: Seq<char>) -> bool {
    e.0 == status && e.1@ == message
}

/// The name of the file a media resource request asks for, as the chart
/// text `osu_content` names it: 404 when the chart names none.
pub fn media_file_name(kind: ResourceKind, osu_content: &[u8]) -> (r: Result<String, ResourceError>)
    requires
        kind != ResourceKind::Chart,
    ensures
        kind == ResourceKind::Audio ==> match r {
            Ok(name) => audio_filename(utf8_lossy(osu_content@)) == Some(name@),
            Err(e) => audio_filename(utf8_lossy(osu_content@)) is None && error_is(e, 404, "Audio filename not found"@),
        },
        kind == ResourceKind::Background ==> match r {
            Ok(name) => background_filename(utf8_lossy(osu_content@)) == Some(name@),
            Err(e) => background_filename(utf8_lossy(osu_content@)) is None && error_is(e, 404, "Background filename not found"@),
        },
{
    let text = text_from_utf8_lossy(osu_content);
    if kind == ResourceKind::Audio {
        match parse_audio_filename(text.as_str()) {
            Some(n) => Ok(n),
            None => Err((404, "Audio filename not found".to_string())),
        }
    } else {
        match parse_background_filename(text.as_str()) {
            Some(n) => Ok(n),
            None => Err((404, "Background filename not found".to_string())),
        }
    }
}

/// A media request is served only when exactly one archive entry matches its
/// file name: none is 404, several are 409.
pub fn single_candidate(kind: ResourceKind, count: usize) -> (r: Result<(), ResourceError>)
    requires
        kind != ResourceKind::Chart,
    ensures
        count == 1 <==> r is Ok,
        count == 0 && kind == ResourceKind::Audio ==> (r matches Err(e) && error_is(e, 404, "audio file not found"@)),
        count == 0 && kind == ResourceKind::Background ==> (r matches Err(e) && error_is(e, 404, "bg file not found"@)),
        count > 1 && kind == ResourceKind::Audio ==> (r matches Err(e) && error_is(e, 409, "multiple audio file candidates"@)),
        count > 1 && kind == ResourceKind::Background ==> (r matches Err(e) && error_is(e, 409, "multiple bg file candidates"@)),
{
    let audio = kind == ResourceKind::Audio;
    if count == 0 {
        if audio {
            Err((404, "audio file not found".to_string()))
        } else {
            Err((404, "bg file not found".to_string()))
        }
    } else if count == 1 {
        Ok(())
    } else if audio {
        Err((409, "multiple audio file candidates".to_string()))
    } else {
        Err((409, "multiple bg file candidates".to_string()))
    }
}

/// The error for a `type` parameter that names no resource.
pub fn invalid_resource_type() -> (r: ResourceError)
    ensures
        error_is(r, 400, "Invalid type parameter"@),
{
    (400, "Invalid type parameter".to_string())
}

// ---------------------------------------------------------------------------
// The steps of a resource request
// ---------------------------------------------------------------------------

/// `i` is the first of `files` whose checksum is `checksum`.
pub open spec fn first_match(files: Seq<Vec<u8>>, checksum: Seq<char>, i: int) -> bool {
    &&& 0 <= i < files.len()
    &&& has_checksum(files[i]@, checksum)
    &&& forall|j: int| 0 <= j < i ==> !has_checksum(#[trigger] files[j]@, checksum)
}

/// The message of a request whose archive holds no chart with the beatmap's checksum.
pub open spec fn chart_missing_message(checksum: Seq<char>) -> Seq<char> {
    "Chart file not found: No .osu file matching checksum "@ + checksum
}

/// What a resource request does once the archive's chart files are read.
pub enum ResourceStep {
    /// Serve these bytes under this file name.
    Serve(Vec<u8>, String),
    /// Read the archive's file entries with this name (up to ASCII case)
    /// and hand them to [`media_resource`].
    ReadMedia(ResourceKind, String),
}

/// The step a request for the resource `resource_type` of the beatmap
/// `entry` takes, given the chart files of its archive in archive order: 404
/// when no chart has the beatmap's checksum; then 400 for a type that names
/// no resource; the chart itself for `chart`; for `audio` and `bg`, the
/// media file name the chart gives (404 when it names none).
pub fn resource_step(resource_type: &str, entry: &BeatmapCacheEntry, charts: Vec<Vec<u8>>) -> (r:
    Result<ResourceStep, ResourceError>)
    ensures
        (forall|j: int| 0 <= j < charts@.len() ==> !has_checksum(#[trigger] charts@[j]@, entry.checksum@))
            ==> (r matches Err(e) && error_is(e, 404, chart_missing_message(entry.checksum@))),
        forall|i: int|
            #![trigger first_match(charts@, entry.checksum@, i)]
            first_match(charts@, entry.checksum@, i) ==> {
                let text = utf8_lossy(charts@[i]@);
                match resource_kind_of(resource_type@) {
                    None => r matches Err(e) && error_is(e, 400, "Invalid type parameter"@),
                    Some(ResourceKind::Chart) => r matches Ok(ResourceStep::Serve(b, n)) && b@
                        == charts@[i]@ && n@ == chart_file_name_of(*entry),
                    Some(ResourceKind::Audio) => match audio_filename(text) {
                        Some(a) => r matches Ok(ResourceStep::ReadMedia(k, n)) && k
                            == ResourceKind::Audio && n@ == a,
                        None => r matches Err(e) && error_is(e, 404, "Audio filename not found"@),
                    },
                    Some(ResourceKind::Background) => match background_filename(text) {
                        Some(b) => r matches Ok(ResourceStep::ReadMedia(k, n)) && k
                            == ResourceKind::Background && n@ == b,
                        None => r matches Err(e) && error_is(
                            e,
                            404,
                            "Background filename not found"@,
                        ),
                    },
                }
            },
{
    let mut charts = charts;
    let i = match first_checksum_match(&charts, entry.checksum.as_str()) {
        Some(i) => i,
        None => {
            let mut message = String::new();
            message.append("Chart file not found: No .osu file matching checksum ");
            message.append(entry.checksum.as_str());
            assert(message@ =~= chart_missing_message(entry.checksum@));
            return Err((404, message));
        },
    };
    let ghost files = charts@;
    assert(forall|k: int| first_match(files, entry.checksum@, k) ==> k == i) by {
        assert forall|k: int| first_match(files, entry.checksum@, k) implies k == i by {
            if k < i {
                assert(!has_checksum(files[k]@, entry.checksum@));
            } else if k > i {
                assert(!has_checksum(files[i as int]@, entry.checksum@));
            }
        }
    }
    let kind = match resource_kind(resource_type) {
        Some(kind) => kind,
        None => return Err(invalid_resource_type()),
    };
    let chart = charts.remove(i);
    assert(chart@ == files[i as int]@);
    match kind {
        ResourceKind::Chart => Ok(ResourceStep::Serve(chart, chart_file_name(entry))),
        _ => match media_file_name(kind, chart.as_slice()) {
            Ok(name) => Ok(ResourceStep::ReadMedia(kind, name)),
            Err(e) => Err(e),
        },
    }
}

/// The answer to a media request whose archive entries named like the
/// media file hold `candidates`: the one file under `name`, else the error
/// of [`single_candidate`].
pub fn media_resource(kind: ResourceKind, name: String, candidates: Vec<Vec<u8>>) -> (r: Result<
    (Vec<u8>, String),
    ResourceError,
>)
    requires
        kind != ResourceKind::Chart,
    ensures
        candidates@.len() == 1 <==> r is Ok,
        r matches Ok((b, n)) ==> b@ == candidates@[0]@ && n@ == name@,
        candidates@.len() == 0 && kind == ResourceKind::Audio ==> (r matches Err(e) && error_is(e, 404, "audio file not found"@)),
        candidates@.len() == 0 && kind == ResourceKind::Background ==> (r matches Err(e) && error_is(e, 404, "bg file not found"@)),
        candidates@.len() > 1 && kind == ResourceKind::Audio ==> (r matches Err(e) && error_is(e, 409, "multiple audio file candidates"@)),
        candidates@.len() > 1 && kind == ResourceKind::Background ==> (r matches Err(e) && error_is(e, 409, "multiple bg file candidates"@)),
{
    let mut candidates = candidates;
    match single_candidate(kind, candidates.len()) {
        Ok(()) => {
            let file = candidates.remove(0);
            Ok((file, name))
        },
        Err(e) => Err(e),
    }
}

// ---------------------------------------------------------------------------
// The stored archive of a download
// ---------------------------------------------------------------------------

/// What a download does about the mapset's `.osz` before listing its files.
#[derive(Clone, Copy, Debug, PartialEq, Eq, Structural)]
pub enum OszAction {
    /// No archive is stored: download it, then keep the cache within its bound.
    Fetch,
    /// The stored archive is a mirror's JSON error: delete it, download it
    /// again, then keep the cache within its bound.
    Refetch,
    /// Use the stored archive.
    Reuse,
}

/// The action for a mapset's archive: `exists` tells whether one is stored,
/// `stored` what its bytes look like when they could be read (after the
/// stored archive was touched).
pub fn osz_action(exists: bool, stored: Option<OszPayload>) -> (r: OszAction)
    ensures
        !exists ==> r == OszAction::Fetch,
        exists && stored == Some(OszPayload::MirrorError) ==> r == OszAction::Refetch,
        exists && stored != Some(OszPayload::MirrorError) ==> r == OszAction::Reuse,
{
    if !exists {
        OszAction::Fetch
    } else {
        match stored {
            Some(OszPayload::MirrorError) => OszAction::Refetch,
            _ => OszAction::Reuse,
        }
    }
}

/// The download URL base names the server's port except where it is the
/// default of the scheme: for a host that is not an IPv6 literal, the base is
/// `{scheme}://{host}/api/store` when https runs on 443 or http on 80, and
/// `{scheme}://{host}:{port}/api/store` on every other port; an IPv6 host is
/// always written `[{host}]:{port}`. The scheme is the forwarded one when the
/// header says `https` or `http`, else https exactly when TLS is configured.
pub proof fn law_base_url_port(server: ServerConfig, host_is_ipv6: bool, forwarded: Option<Seq<char>>)
    ensures
        ({
            let https = match forwarded {
                Some(p) => if p == "https"@ {
                    true
                } else if p == "http"@ {
                    false
                } else {
                    server.tls_cert is Some
                },
                None => server.tls_cert is Some,
            };
            let scheme = if https {
                "https://"@
            } else {
                "http://"@
            };
            let tail = "/api/store"@;
            let url = base_url_of(server, host_is_ipv6, forwarded);
            &&& !host_is_ipv6 && ((https && server.port == 443) || (!https && server.port == 80))
                ==> url == scheme + server.host@ + tail
            &&& !host_is_ipv6 && !((https && server.port == 443) || (!https && server.port == 80))
                ==> url == scheme + server.host@ + ":"@ + decimal(server.port as nat) + tail
            &&& host_is_ipv6 ==> url == scheme + "["@ + server.host@ + "]:"@ + decimal(
                server.port as nat,
            ) + tail
        }),
{
    reveal_strlit("https");
    reveal_strlit("http");
    reveal_strlit("https://");
    reveal_strlit("http://");
    reveal_strlit("://");
    reveal_strlit("/api/store");
    reveal_strlit("/");
    reveal_strlit("api/store");
    let https = uses_https(server, forwarded);
    let scheme = if https {
        "https://"@
    } else {
        "http://"@
    };
    let pre = if https {
        "https"@
    } else {
        "http"@
    };
    assert(pre + "://"@ =~= scheme);
    assert("/"@ + API_BASE_PATH@ =~= "/api/store"@);
    let a = authority(server.host@, server.port, https, host_is_ipv6);
    assert(base_url_of(server, host_is_ipv6, forwarded) =~= scheme + a + "/api/store"@);
    assert(scheme + (server.host@ + ":"@ + decimal(server.port as nat)) + "/api/store"@ =~= scheme
        + server.host@ + ":"@ + decimal(server.port as nat) + "/api/store"@);
    assert(scheme + ("["@ + server.host@ + "]:"@ + decimal(server.port as nat)) + "/api/store"@
        =~= scheme + "["@ + server.host@ + "]:"@ + decimal(server.port as nat) + "/api/store"@);
}

} // verus!
