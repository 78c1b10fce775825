//! Turning osu! difficulties into Malody charts.
use vstd::prelude::*;

use crate::models::{malody_mode_of, mode_number, Chart, GameMode, MalodyMode, PagedResponse};
use crate::text::{append_decimal, decimal};

verus! {

broadcast use vstd::string::group_string_axioms;

/// One osu! difficulty, as far as a chart needs it. `stars` is the star
/// rating in its display form and `level` that rating rounded to the
/// nearest whole number (halves up).
#[derive(Clone, Debug)]
pub struct BeatmapInfo {
    pub map_id: u32,
    pub creator_id: u32,
    pub version: String,
    pub stars: String,
    pub level: i32,
    pub seconds_total: u32,
    pub mode: GameMode,
}

/// The name a difficulty goes by: `"{version} R.{stars}"`.
pub open spec fn display_version(version: Seq<char>, stars: Seq<char>) -> Seq<char> {
    version + " R."@ + stars
}

pub fn version_label(version: &str, stars: &str) -> (r: String)
    ensures
        r@ == display_version(version@, stars@),
{
    let mut s = String::new();
    s.append(version);
    s.append(" R.");
    s.append(stars);
    assert(s@ =~= display_version(version@, stars@));
    s
}

/// `c` is the chart of difficulty `b`.
pub open spec fn is_chart_of(c: Chart, b: BeatmapInfo) -> bool {
    &&& c.cid == b.map_id as i32
    &&& c.uid == b.creator_id as i32
    &&& c.creator@ == decimal(b.creator_id as nat)
    &&& c.version@ == display_version(b.version@, b.stars@)
    &&& c.level == b.level
    &&& c.length == b.seconds_total as i32
    &&& c.chart_type == 1
    &&& c.size == 0
    &&& c.mode == mode_number(malody_mode_of(b.mode))
}

pub fn beatmap_to_chart(beatmap: &BeatmapInfo) -> (r: Chart)
    ensures
        is_chart_of(r, *beatmap),
{
    let malody_mode = MalodyMode::from_osu_game_mode(beatmap.mode);
    let mut creator = String::new();
    append_decimal(&mut creator, beatmap.creator_id as u64);
    assert(creator@ =~= decimal(beatmap.creator_id as nat));
    Chart {
        cid: beatmap.map_id as i32,
        uid: beatmap.creator_id as i32,
        creator,
        version: version_label(beatmap.version.as_str(), beatmap.stars.as_str()),
        level: beatmap.level,
        length: beatmap.seconds_total as i32,
        chart_type: 1,
        size: 0,
        mode: malody_mode.as_i32(),
    }
}

/// The chart listing of a mapset whose difficulties are `maps` (none when
/// the mapset came without them): code 0, one chart per difficulty, no more pages.
pub fn charts_page(maps: Option<&Vec<BeatmapInfo>>) -> (r: PagedResponse<Chart>)
    ensures
        r.code == 0,
        !r.has_more,
        r.next == 0,
        match maps {
            Some(v) => r.data@.len() == v@.len() && forall|i: int|
                0 <= i < v@.len() ==> is_chart_of(#[trigger] r.data@[i], v@[i]),
            None => r.data@.len() == 0,
        },
{
    let mut charts: Vec<Chart> = Vec::new();
    if let Some(v) = maps {
        let mut i: usize = 0;
        while i < v.len()
            invariant
                i <= v@.len(),
                charts@.len() == i,
                forall|j: int| 0 <= j < i ==> is_chart_of(#[trigger] charts@[j], v@[j]),
            decreases v@.len() - i,
        {
            charts.push(beatmap_to_chart(&v[i]));
            i = i + 1;
        }
    }
    PagedResponse { code: 0, has_more: false, next: 0, data: charts }
}

} // verus!
