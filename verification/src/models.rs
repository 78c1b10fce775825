//! Request and response models of the Malody store API.
use vstd::prelude::*;

verus! {

/// Malody game mode definitions per the Malody Store API spec.
/// Each mode has a number on the wire (see [`MalodyMode::as_i32`]).
#[derive(Debug, Clone, Copy, PartialEq, Eq, Structural)]
pub enum MalodyMode {
    Any,
    Key,
    Catch,
    Pad,
    Taiko,
    Ring,
    Slide,
    Live,
    Cube,
}

/// The osu! game modes.
#[derive(Debug, Clone, Copy, PartialEq, Eq, Structural)]
pub enum GameMode {
    Osu,
    Taiko,
    Catch,
    Mania,
}

/// The wire number of a Malody mode.
pub open spec fn mode_number(m: MalodyMode) -> int {
    match m {
        MalodyMode::Any => -1,
        MalodyMode::Key => 0,
        MalodyMode::Catch => 3,
        MalodyMode::Pad => 4,
        MalodyMode::Taiko => 5,
        MalodyMode::Ring => 6,
        MalodyMode::Slide => 7,
        MalodyMode::Live => 8,
        MalodyMode::Cube => 9,
    }
}

/// The Malody mode with wire number `value`, if any.
pub open spec fn mode_of_number(value: int) -> Option<MalodyMode> {
    if value == -1 {
        Some(MalodyMode::Any)
    } else if value == 0 {
        Some(MalodyMode::Key)
    } else if value == 3 {
        Some(MalodyMode::Catch)
    } else if value == 4 {
        Some(MalodyMode::Pad)
    } else if value == 5 {
        Some(MalodyMode::Taiko)
    } else if value == 6 {
        Some(MalodyMode::Ring)
    } else if value == 7 {
        Some(MalodyMode::Slide)
    } else if value == 8 {
        Some(MalodyMode::Live)
    } else if value == 9 {
        Some(MalodyMode::Cube)
    } else {
        None
    }
}

/// Modes that have an osu! counterpart to search in.
pub open spec fn searchable(m: MalodyMode) -> bool {
    m == MalodyMode::Any || m == MalodyMode::Key || m == MalodyMode::Catch || m
        == MalodyMode::Taiko
}

pub open spec fn osu_mode_of(m: MalodyMode) -> GameMode {
    match m {
        MalodyMode::Catch => GameMode::Catch,
        MalodyMode::Taiko => GameMode::Taiko,
        _ => GameMode::Mania,
    }
}

pub open spec fn malody_mode_of(g: GameMode) -> MalodyMode {
    match g {
        GameMode::Osu => MalodyMode::Key,
        GameMode::Taiko => MalodyMode::Taiko,
        GameMode::Catch => MalodyMode::Catch,
        GameMode::Mania => MalodyMode::Key,
    }
}

impl MalodyMode {
    pub fn from_i32(value: i32) -> (r: Option<Self>)
        ensures
            r == mode_of_number(value as int),
    {
        match value {
            -1 => Some(Self::Any),
            0 => Some(Self::Key),
            3 => Some(Self::Catch),
            4 => Some(Self::Pad),
            5 => Some(Self::Taiko),
            6 => Some(Self::Ring),
            7 => Some(Self::Slide),
            8 => Some(Self::Live),
            9 => Some(Self::Cube),
            _ => None,
        }
    }

    /// The number of this mode on the wire.
    pub fn as_i32(self) -> (r: i32)
        ensures
            r == mode_number(self),
    {
        match self {
            Self::Any => -1,
            Self::Key => 0,
            Self::Catch => 3,
            Self::Pad => 4,
            Self::Taiko => 5,
            Self::Ring => 6,
            Self::Slide => 7,
            Self::Live => 8,
            Self::Cube => 9,
        }
    }

    /// Whether this mode maps to an osu! game mode we can actually search.
    /// Modes without an osu! equivalent (Pad, Ring, Slide, Live, Cube)
    /// return false — the caller should return empty results, not an error.
    pub fn is_osu_searchable(self) -> (r: bool)
        ensures
            r == searchable(self),
    {
        matches!(self, Self::Any | Self::Key | Self::Catch | Self::Taiko)
    }

    /// Map Malody mode to the osu! GameMode used for API searches.
    /// Only meaningful when `is_osu_searchable()` is true.
    pub fn to_osu_game_mode(self) -> (r: GameMode)
        ensures
            r == osu_mode_of(self),
    {
        match self {
            Self::Catch => GameMode::Catch,
            Self::Taiko => GameMode::Taiko,
            // Any, Key, and all Malody-only modes default to Mania
            _ => GameMode::Mania,
        }
    }

    /// Convert an osu! beatmap's GameMode to the corresponding Malody mode.
    pub fn from_osu_game_mode(mode: GameMode) -> (r: Self)
        ensures
            r == malody_mode_of(mode),
    {
        match mode {
            GameMode::Osu => Self::Key,
            GameMode::Taiko => Self::Taiko,
            GameMode::Catch => Self::Catch,
            GameMode::Mania => Self::Key,
        }
    }
}

impl Default for MalodyMode {
    fn default() -> (r: Self)
        ensures
            r == MalodyMode::Any,
    {
        Self::Any
    }
}

/// The mode a query takes when it names none.
pub fn default_mode() -> (r: MalodyMode)
    ensures
        r == MalodyMode::Any,
{
    MalodyMode::Any
}

/// Every mode's number reads back as that mode, and a number reads as a mode
/// only if it is that mode's number.
pub proof fn law_mode_number_roundtrip(m: MalodyMode, value: i32)
    ensures
        mode_of_number(mode_number(m)) == Some(m),
        mode_of_number(value as int) == Some(m) ==> mode_number(m) == value,
{
}

/// A searchable mode other than `Any` survives the trip to osu! and back.
pub proof fn law_searchable_mode_roundtrip(m: MalodyMode)
    requires
        searchable(m),
        m != MalodyMode::Any,
    ensures
        malody_mode_of(osu_mode_of(m)) == m,
{
}

/// One chart (an osu! difficulty) as the Malody store lists it.
#[derive(Debug, Clone)]
pub struct Chart {
    pub cid: i32,
    pub uid: i32,
    pub creator: String,
    pub version: String,
    pub level: i32,
    pub length: i32,
    pub chart_type: i32,
    pub size: i32,
    pub mode: i32,
}

/// One song (an osu! beatmapset) as the Malody store lists it.
/// `bpm_bits` holds the IEEE-754 bits of the single-precision BPM.
#[derive(Debug, Clone)]
pub struct Song {
    pub sid: i32,
    pub cover: String,
    pub length: i32,
    pub bpm_bits: u32,
    pub title: String,
    pub artist: String,
    pub mode: i32,
    pub time: i64,
}

#[derive(Debug, Clone)]
pub struct DownloadItem {
    pub name: String,
    pub hash: String,
    pub file: String,
}

#[derive(Debug)]
pub struct DownloadResponse {
    pub code: i32,
    pub items: Vec<DownloadItem>,
    pub sid: i32,
    pub cid: i32,
}

#[derive(Debug)]
pub struct PagedResponse<T> {
    pub data: Vec<T>,
    pub code: i32,
    pub has_more: bool,
    pub next: i32,
}

#[derive(Debug)]
pub struct ServerInfoResponse {
    pub code: i32,
    pub api: i32,
    pub min: i32,
    pub welcome: String,
}

#[derive(Debug, Clone)]
pub struct ListQueryParams {
    pub word: Option<String>,
    pub org: Option<i32>,
    pub mode: MalodyMode,
    pub lvge: Option<i32>,
    pub lvle: Option<i32>,
    pub beta: Option<i32>,
    pub from: Option<i32>,
    /// Malody client auth: user ID (global param per spec)
    pub uid: Option<i32>,
    /// Malody client auth: verification key (global param per spec)
    pub key: Option<String>,
    /// Malody client auth: client API version (global param per spec)
    pub api: Option<i32>,
}

#[derive(Debug, Clone)]
pub struct PromoteQueryParams {
    pub org: Option<i32>,
    pub mode: MalodyMode,
    pub from: Option<i32>,
    pub uid: Option<i32>,
    pub key: Option<String>,
    pub api: Option<i32>,
}

#[derive(Debug)]
pub struct ChartsQueryParams {
    pub sid: i32,
    pub beta: Option<i32>,
    pub mode: MalodyMode,
    pub from: Option<i32>,
    pub promote: Option<i32>,
    pub uid: Option<i32>,
    pub key: Option<String>,
    pub api: Option<i32>,
}

#[derive(Debug)]
pub struct DownloadQueryParams {
    pub cid: i32,
    pub uid: Option<i32>,
    pub key: Option<String>,
    pub api: Option<i32>,
}

#[derive(Debug)]
pub struct ResourceQueryParams {
    pub resource_type: String,
    pub uid: Option<i32>,
    pub key: Option<String>,
    pub api: Option<i32>,
}

#[derive(Debug)]
pub struct SongQueryParams {
    pub sid: Option<i32>,
    pub cid: Option<i32>,
    pub org: Option<i32>,
    pub uid: Option<i32>,
    pub key: Option<String>,
    pub api: Option<i32>,
}

#[derive(Debug, Clone)]
pub struct FriendQueryParams {
    pub org: Option<i32>,
    pub from: Option<i32>,
    pub uid: Option<i32>,
    pub key: Option<String>,
    pub api: Option<i32>,
}

/// The text of an optional owned string, as the borrowed form the getters return.
pub open spec fn opt_str_view(o: Option<&str>) -> Option<Seq<char>> {
    match o {
        Some(s) => Some(s@),
        None => None,
    }
}

pub open spec fn opt_string_view(o: Option<String>) -> Option<Seq<char>> {
    match o {
        Some(s) => Some(s@),
        None => None,
    }
}

fn borrow_key(key: &Option<String>) -> (r: Option<&str>)
    ensures
        opt_str_view(r) == opt_string_view(*key),
{
    match key {
        Some(k) => Some(k.as_str()),
        None => None,
    }
}

impl ListQueryParams {
    pub fn uid(&self) -> (r: Option<i32>)
        ensures
            r == self.uid,
    {
        self.uid
    }

    pub fn key(&self) -> (r: Option<&str>)
        ensures
            opt_str_view(r) == opt_string_view(self.key),
    {
        borrow_key(&self.key)
    }

    pub fn api(&self) -> (r: Option<i32>)
        ensures
            r == self.api,
    {
        self.api
    }
}

impl PromoteQueryParams {
    pub fn uid(&self) -> (r: Option<i32>)
        ensures
            r == self.uid,
    {
        self.uid
    }

    pub fn key(&self) -> (r: Option<&str>)
        ensures
            opt_str_view(r) == opt_string_view(self.key),
    {
        borrow_key(&self.key)
    }

    pub fn api(&self) -> (r: Option<i32>)
        ensures
            r == self.api,
    {
        self.api
    }
}

impl FriendQueryParams {
    pub fn uid(&self) -> (r: Option<i32>)
        ensures
            r == self.uid,
    {
        self.uid
    }

    pub fn key(&self) -> (r: Option<&str>)
        ensures
            opt_str_view(r) == opt_string_view(self.key),
    {
        borrow_key(&self.key)
    }

    pub fn api(&self) -> (r: Option<i32>)
        ensures
            r == self.api,
    {
        self.api
    }
}

impl ChartsQueryParams {
    pub fn uid(&self) -> (r: Option<i32>)
        ensures
            r == self.uid,
    {
        self.uid
    }

    pub fn key(&self) -> (r: Option<&str>)
        ensures
            opt_str_view(r) == opt_string_view(self.key),
    {
        borrow_key(&self.key)
    }

    pub fn api(&self) -> (r: Option<i32>)
        ensures
            r == self.api,
    {
        self.api
    }
}

impl DownloadQueryParams {
    pub fn uid(&self) -> (r: Option<i32>)
        ensures
            r == self.uid,
    {
        self.uid
    }

    pub fn key(&self) -> (r: Option<&str>)
        ensures
            opt_str_view(r) == opt_string_view(self.key),
    {
        borrow_key(&self.key)
    }

    pub fn api(&self) -> (r: Option<i32>)
        ensures
            r == self.api,
    {
        self.api
    }
}

impl ResourceQueryParams {
    pub fn uid(&self) -> (r: Option<i32>)
        ensures
            r == self.uid,
    {
        self.uid
    }

    pub fn key(&self) -> (r: Option<&str>)
        ensures
            opt_str_view(r) == opt_string_view(self.key),
    {
        borrow_key(&self.key)
    }

    pub fn api(&self) -> (r: Option<i32>)
        ensures
            r == self.api,
    {
        self.api
    }
}

impl SongQueryParams {
    pub fn uid(&self) -> (r: Option<i32>)
        ensures
            r == self.uid,
    {
        self.uid
    }

    pub fn key(&self) -> (r: Option<&str>)
        ensures
            opt_str_view(r) == opt_string_view(self.key),
    {
        borrow_key(&self.key)
    }

    pub fn api(&self) -> (r: Option<i32>)
        ensures
            r == self.api,
    {
        self.api
    }
}

} // verus!
