//! Turning osu! search results into Malody song listings.
use vstd::prelude::*;

use crate::models::{malody_mode_of, mode_number, GameMode, MalodyMode, PagedResponse, Song};

verus! {

/// One difficulty of a mapset, as far as a song listing needs it.
#[derive(Clone, Copy, Debug)]
pub struct MapInfo {
    pub mode: GameMode,
    pub seconds_total: u32,
}

/// An osu! mapset, as far as a song listing needs it.
/// `bpm_bits` holds the IEEE-754 bits of the single-precision BPM;
/// `last_updated` is a Unix timestamp in seconds.
#[derive(Clone, Debug)]
pub struct MapsetInfo {
    pub mapset_id: u32,
    pub title: String,
    pub title_unicode: Option<String>,
    pub artist: String,
    pub cover_list_2x: String,
    pub bpm_bits: u32,
    pub maps: Option<Vec<MapInfo>>,
    pub last_updated: i64,
}

/// The plain values of a [`MapsetInfo`], field by field.
pub type MapsetView = (
    u32,
    Seq<char>,
    Option<Seq<char>>,
    Seq<char>,
    Seq<char>,
    u32,
    Option<Seq<MapInfo>>,
    i64,
);

impl View for MapsetInfo {
    type V = MapsetView;

    open spec fn view(&self) -> MapsetView {
        (
            self.mapset_id,
            self.title@,
            match self.title_unicode {
                Some(t) => Some(t@),
                None => None,
            },
            self.artist@,
            self.cover_list_2x@,
            self.bpm_bits,
            match self.maps {
                Some(v) => Some(v@),
                None => None,
            },
            self.last_updated,
        )
    }
}

/// One page of an osu! mapset search.
#[derive(Clone, Debug)]
pub struct SearchResultInfo {
    pub mapsets: Vec<MapsetInfo>,
    /// Total amount of mapsets that fit the search query.
    pub total: u32,
    /// Whether the search has a next page.
    pub has_more: bool,
}

/// The title a listing shows: the romanised one for `org == 0`, else the
/// original-language one when the mapset has it.
pub open spec fn title_of(m: MapsetInfo, org: i32) -> Seq<char> {
    if org == 0 {
        m.title@
    } else {
        match m.title_unicode {
            Some(t) => t@,
            None => m.title@,
        }
    }
}

/// The shortest length among `maps` (0 when there are none).
pub open spec fn min_seconds(maps: Seq<MapInfo>) -> u32
    decreases maps.len(),
{
    if maps.len() == 0 {
        0
    } else if maps.len() == 1 {
        maps[0].seconds_total
    } else {
        let rest = min_seconds(maps.drop_last());
        if maps.last().seconds_total < rest {
            maps.last().seconds_total
        } else {
            rest
        }
    }
}

pub open spec fn has_mode(maps: Seq<MapInfo>, m: MalodyMode) -> bool {
    exists|i: int| 0 <= i < maps.len() && malody_mode_of(#[trigger] maps[i].mode) == m
}

/// The Malody modes of `maps` as a bit set: bit `n` is set when some map
/// plays in the Malody mode numbered `n` (Key 0, Catch 3, Taiko 5).
pub open spec fn mode_mask(maps: Seq<MapInfo>) -> int {
    (if has_mode(maps, MalodyMode::Key) {
        1int
    } else {
        0int
    }) + (if has_mode(maps, MalodyMode::Catch) {
        8int
    } else {
        0int
    }) + (if has_mode(maps, MalodyMode::Taiko) {
        32int
    } else {
        0int
    })
}

pub open spec fn maps_of(m: MapsetInfo) -> Seq<MapInfo> {
    match m.maps {
        Some(v) => v@,
        None => Seq::empty(),
    }
}

/// `s` is the song that lists mapset `m` for `org`.
pub open spec fn is_song_of(s: Song, m: MapsetInfo, org: i32) -> bool {
    &&& s.sid == m.mapset_id as i32
    &&& s.cover@ == m.cover_list_2x@
    &&& s.length == min_seconds(maps_of(m)) as i32
    &&& s.bpm_bits == m.bpm_bits
    &&& s.title@ == title_of(m, org)
    &&& s.artist@ == m.artist@
    &&& s.mode == mode_mask(maps_of(m))
    &&& s.time == m.last_updated
}

proof fn lemma_min_seconds_step(maps: Seq<MapInfo>, i: int)
    requires
        1 <= i < maps.len(),
    ensures
        min_seconds(maps.take(i + 1)) == if maps[i].seconds_total < min_seconds(maps.take(i)) {
            maps[i].seconds_total
        } else {
            min_seconds(maps.take(i))
        },
{
    assert(maps.take(i + 1).drop_last() =~= maps.take(i));
}

fn min_map_seconds(maps: &Vec<MapInfo>) -> (r: u32)
    ensures
        r == min_seconds(maps@),
{
    if maps.len() == 0 {
        return 0;
    }
    let mut best = maps[0].seconds_total;
    let mut i: usize = 1;
    assert(maps@.take(1) =~= seq![maps@[0]]);
    while i < maps.len()
        invariant
            1 <= i <= maps@.len(),
            best == min_seconds(maps@.take(i as int)),
        decreases maps@.len() - i,
    {
        proof {
            lemma_min_seconds_step(maps@, i as int);
        }
        if maps[i].seconds_total < best {
            best = maps[i].seconds_total;
        }
        i = i + 1;
    }
    assert(maps@.take(maps@.len() as int) =~= maps@);
    best
}

fn map_mode_mask(maps: &Vec<MapInfo>) -> (r: i32)
    ensures
        r == mode_mask(maps@),
{
    let mut key = false;
    let mut catch = false;
    let mut taiko = false;
    let mut i: usize = 0;
    while i < maps.len()
        invariant
            i <= maps@.len(),
            key == has_mode(maps@.take(i as int), MalodyMode::Key),
            catch == has_mode(maps@.take(i as int), MalodyMode::Catch),
            taiko == has_mode(maps@.take(i as int), MalodyMode::Taiko),
        decreases maps@.len() - i,
    {
        let m = MalodyMode::from_osu_game_mode(maps[i].mode);
        proof {
            let next = maps@.take(i + 1);
            assert(next[i as int] == maps@[i as int]);
            assert forall|x: MalodyMode| has_mode(next, x) == (has_mode(maps@.take(i as int), x)
                || malody_mode_of(maps@[i as int].mode) == x) by {
                if has_mode(next, x) {
                    let j = choose|j: int| 0 <= j < next.len() && malody_mode_of(#[trigger] next[j].mode) == x;
                    if j < i {
                        assert(maps@.take(i as int)[j] == next[j]);
                    }
                }
                if has_mode(maps@.take(i as int), x) {
                    let j = choose|j: int|
                        0 <= j < i && malody_mode_of(#[trigger] maps@.take(i as int)[j].mode) == x;
                    assert(next[j] == maps@.take(i as int)[j]);
                }
            }
        }
        match m {
            MalodyMode::Key => key = true,
            MalodyMode::Catch => catch = true,
            MalodyMode::Taiko => taiko = true,
            _ => {},
        }
        i = i + 1;
    }
    assert(maps@.take(maps@.len() as int) =~= maps@);
    let a: i32 = if key {
        1
    } else {
        0
    };
    let b: i32 = if catch {
        8
    } else {
        0
    };
    let c: i32 = if taiko {
        32
    } else {
        0
    };
    a + b + c
}

pub fn mapset_to_song(mapset: &MapsetInfo, org: i32) -> (r: Song)
    ensures
        is_song_of(r, *mapset, org),
{
    let title = if org == 0 {
        mapset.title.clone()
    } else {
        match &mapset.title_unicode {
            Some(t) => t.clone(),
            None => mapset.title.clone(),
        }
    };
    let (length, mode_bitmask) = match &mapset.maps {
        Some(maps) => (min_map_seconds(maps), map_mode_mask(maps)),
        None => {
            assert(maps_of(*mapset) =~= Seq::<MapInfo>::empty());
            (0u32, 0i32)
        },
    };
    Song {
        sid: mapset.mapset_id as i32,
        cover: mapset.cover_list_2x.clone(),
        length: length as i32,
        bpm_bits: mapset.bpm_bits,
        title,
        artist: mapset.artist.clone(),
        mode: mode_bitmask,
        time: mapset.last_updated,
    }
}

/// The mode bit set only ever holds the bits of Key, Catch and Taiko, and
/// holds a mode's bit exactly when some map plays in it.
pub proof fn law_mode_mask_bits(maps: Seq<MapInfo>)
    ensures
        0 <= mode_mask(maps) <= 41,
        mode_mask(maps) % 2 == 1 <==> has_mode(maps, MalodyMode::Key),
        (mode_mask(maps) / 8) % 2 == 1 <==> has_mode(maps, MalodyMode::Catch),
        mode_mask(maps) / 32 == 1 <==> has_mode(maps, MalodyMode::Taiko),
        has_mode(maps, MalodyMode::Pad) == false,
{
    if has_mode(maps, MalodyMode::Pad) {
        let i = choose|i: int| 0 <= i < maps.len() && malody_mode_of(#[trigger] maps[i].mode) == MalodyMode::Pad;
        assert(malody_mode_of(maps[i].mode) != MalodyMode::Pad);
    }
}

/// `r` lists `result` from offset `from`: code 1 with nothing when the search
/// found nothing; otherwise code 0, one song per mapset in order, the next
/// offset just past them, and whether osu! has more.
pub open spec fn is_listing_of(r: PagedResponse<Song>, result: SearchResultInfo, from: i32, org: i32) -> bool {
    if result.total == 0 {
        r.code == 1 && !r.has_more && r.next == 0 && r.data@.len() == 0
    } else {
        &&& r.code == 0
        &&& r.has_more == result.has_more
        &&& r.next == from + result.mapsets@.len()
        &&& r.data@.len() == result.mapsets@.len()
        &&& forall|i: int| 0 <= i < r.data@.len() ==> is_song_of(#[trigger] r.data@[i], result.mapsets@[i], org)
    }
}

pub fn search_result_to_paged_songs(result: &SearchResultInfo, from: i32, org: i32) -> (r:
    PagedResponse<Song>)
    requires
        from + result.mapsets@.len() <= i32::MAX,
        result.mapsets@.len() <= i32::MAX,
    ensures
        is_listing_of(r, *result, from, org),
{
    if result.total == 0 {
        return PagedResponse { code: 1, has_more: false, next: 0, data: Vec::new() };
    }
    let mut songs: Vec<Song> = Vec::new();
    let mut i: usize = 0;
    while i < result.mapsets.len()
        invariant
            i <= result.mapsets@.len(),
            songs@.len() == i,
            forall|j: int| 0 <= j < i ==> is_song_of(#[trigger] songs@[j], result.mapsets@[j], org),
        decreases result.mapsets@.len() - i,
    {
        songs.push(mapset_to_song(&result.mapsets[i], org));
        i = i + 1;
    }
    let next = from + songs.len() as i32;
    PagedResponse { code: 0, has_more: result.has_more, next, data: songs }
}

/// What a song query looks up: the mapset of a chart when it names a chart
/// (`cid`), else the mapset it names (`sid`).
#[derive(Clone, Copy, Debug, PartialEq, Eq, Structural)]
pub enum SongQueryTarget {
    Chart(u32),
    Mapset(u32),
}

/// The lookup a query with `sid` and `cid` asks for: `None` when it names
/// neither ("sid or cid must be provided").
pub fn song_query_target(sid: Option<i32>, cid: Option<i32>) -> (r: Option<SongQueryTarget>)
    ensures
        match cid {
            Some(c) => r == Some(SongQueryTarget::Chart(c as u32)),
            None => match sid {
                Some(s) => r == Some(SongQueryTarget::Mapset(s as u32)),
                None => r is None,
            },
        },
{
    if let Some(c) = cid {
        Some(SongQueryTarget::Chart(c as u32))
    } else if let Some(s) = sid {
        Some(SongQueryTarget::Mapset(s as u32))
    } else {
        None
    }
}

/// The answer to a song query: the one song, code 0, no more pages.
pub fn single_song_page(mapset: &MapsetInfo, org: i32) -> (r: PagedResponse<Song>)
    ensures
        r.code == 0,
        !r.has_more,
        r.next == 0,
        r.data@.len() == 1,
        is_song_of(r.data@[0], *mapset, org),
{
    let mut data: Vec<Song> = Vec::new();
    data.push(mapset_to_song(mapset, org));
    PagedResponse { code: 0, has_more: false, next: 0, data }
}

/// Some map of `maps` plays in the Malody mode numbered `b`.
pub open spec fn plays_mode_number(maps: Seq<MapInfo>, b: int) -> bool {
    exists|i: int| 0 <= i < maps.len() && mode_number(malody_mode_of(#[trigger] maps[i].mode)) == b
}

/// A song's mode field is the bit set of the Malody modes its maps play in:
/// bit `b` (of six, so the value is below 64) is set exactly when some map
/// plays in the mode numbered `b`. No other bit is ever set.
pub proof fn law_mode_mask_is_bit_set(maps: Seq<MapInfo>)
    ensures
        0 <= mode_mask(maps) < 64,
        forall|b: int|
            0 <= b < 6 ==> ((mode_mask(maps) / vstd::arithmetic::power2::pow2(b as nat) as int)
                % 2 == 1 <==> plays_mode_number(maps, b)),
{
    vstd::arithmetic::power2::lemma2_to64();
    let key = has_mode(maps, MalodyMode::Key);
    let catch = has_mode(maps, MalodyMode::Catch);
    let taiko = has_mode(maps, MalodyMode::Taiko);
    assert forall|b: int| 0 <= b < 6 implies (#[trigger] plays_mode_number(maps, b) <==> ((b == 0 && key) || (
    b == 3 && catch) || (b == 5 && taiko))) by {
        if plays_mode_number(maps, b) {
            let i = choose|i: int|
                0 <= i < maps.len() && mode_number(malody_mode_of(#[trigger] maps[i].mode)) == b;
            assert(malody_mode_of(maps[i].mode) == MalodyMode::Key || malody_mode_of(maps[i].mode)
                == MalodyMode::Catch || malody_mode_of(maps[i].mode) == MalodyMode::Taiko);
        }
        if b == 0 && key {
            let i = choose|i: int| 0 <= i < maps.len() && malody_mode_of(#[trigger] maps[i].mode) == MalodyMode::Key;
            assert(mode_number(malody_mode_of(maps[i].mode)) == b);
        }
        if b == 3 && catch {
            let i = choose|i: int| 0 <= i < maps.len() && malody_mode_of(#[trigger] maps[i].mode) == MalodyMode::Catch;
            assert(mode_number(malody_mode_of(maps[i].mode)) == b);
        }
        if b == 5 && taiko {
            let i = choose|i: int| 0 <= i < maps.len() && malody_mode_of(#[trigger] maps[i].mode) == MalodyMode::Taiko;
            assert(mode_number(malody_mode_of(maps[i].mode)) == b);
        }
    }
    let m = mode_mask(maps);
    assert forall|b: int| 0 <= b < 6 implies ((m / vstd::arithmetic::power2::pow2(b as nat) as int)
        % 2 == 1 <==> #[trigger] plays_mode_number(maps, b)) by {
        assert(plays_mode_number(maps, b) <==> ((b == 0 && key) || (b == 3 && catch) || (b == 5
            && taiko)));
        assert(m == (if key { 1int } else { 0int }) + (if catch { 8int } else { 0int }) + (if taiko { 32int } else { 0int }));
        if b == 0 {
            assert(vstd::arithmetic::power2::pow2(0) == 1);
        } else if b == 1 {
            assert(vstd::arithmetic::power2::pow2(1) == 2);
        } else if b == 2 {
            assert(vstd::arithmetic::power2::pow2(2) == 4);
        } else if b == 3 {
            assert(vstd::arithmetic::power2::pow2(3) == 8);
        } else if b == 4 {
            assert(vstd::arithmetic::power2::pow2(4) == 16);
        } else {
            assert(vstd::arithmetic::power2::pow2(5) == 32);
        }
    }
}

} // verus!
