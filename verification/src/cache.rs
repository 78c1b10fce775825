//! Caches of osu! data and the keys of cached searches.
//!
//! * [`BeatmapCache`] and [`BeatmapsetCache`]: beatmap and mapset metadata
//!   by id, held in `moka` caches with a size bound and a time to live.
//! * [`SearchChain`]: the pages of one search, in order, each with the
//!   count of mapsets on it, so that an offset can be found in them.
//! * Search keys: a hash of the search parameters other than the offset.
use vstd::prelude::*;

use crate::models::{mode_number, FriendQueryParams, ListQueryParams, PromoteQueryParams};
use crate::services::search::{MapsetInfo, MapsetView};

verus! {

// ---------------------------------------------------------------------------
// Beatmap cache
// ---------------------------------------------------------------------------

/// Beatmap metadata as the store keeps it. `stars` is the star rating in the
/// text form it is shown in (`"{version} R.{stars}"`).
#[derive(Clone, Debug)]
pub struct BeatmapCacheEntry {
    pub map_id: u32,
    pub mapset_id: u32,
    pub checksum: String,
    pub version: String,
    pub stars: String,
    pub seconds_total: u32,
    pub creator_id: u32,
}

/// The plain values of a [`BeatmapCacheEntry`], field by field.
pub type EntryView = (u32, u32, Seq<char>, Seq<char>, Seq<char>, u32, u32);

impl View for BeatmapCacheEntry {
    type V = EntryView;

    open spec fn view(&self) -> EntryView {
        (
            self.map_id,
            self.mapset_id,
            self.checksum@,
            self.version@,
            self.stars@,
            self.seconds_total,
            self.creator_id,
        )
    }
}

#[verifier::external_type_specification]
#[verifier::external_body]
#[verifier::reject_recursive_types(K)]
#[verifier::reject_recursive_types(V)]
#[verifier::reject_recursive_types(S)]
pub struct ExMokaCache<K, V, S>(moka::sync::Cache<K, V, S>);

/// The longest time to live moka accepts: 1000 years, in seconds (`build`
/// panics above it).
const MAX_TIME_TO_LIVE_SECS: u64 = 31_536_000_000;

/// Every `(key, entry)` pair ever inserted into a beatmap cache. Entries may
/// leave the cache (size bound, time to live), so this is what a lookup can
/// return, not what it must return.
pub uninterp spec fn beatmap_cache_entries(c: moka::sync::Cache<u32, BeatmapCacheEntry>) -> Set<
    (u32, EntryView),
>;

/// The limits a beatmap cache was built with: its maximum number of entries
/// and the time to live of an entry, in seconds.
pub uninterp spec fn beatmap_cache_limits(c: moka::sync::Cache<u32, BeatmapCacheEntry>) -> (u64, u64);

/// `moka::sync::Cache::builder()` with `max_capacity` and `time_to_live`,
/// then `build()`: a new cache holds nothing and keeps the limits it was
/// built with. `build` panics on a time to live over 1000 years.
#[verifier::external_body]
fn moka_beatmap_cache_new(max_capacity: u64, ttl_secs: u64) -> (c: moka::sync::Cache<
    u32,
    BeatmapCacheEntry,
>)
    requires
        ttl_secs <= MAX_TIME_TO_LIVE_SECS,
    ensures
        beatmap_cache_entries(c) == Set::<(u32, EntryView)>::empty(),
        beatmap_cache_limits(c) == (max_capacity, ttl_secs),
{
    moka::sync::Cache::builder().max_capacity(max_capacity).time_to_live(
        std::time::Duration::from_secs(ttl_secs),
    ).build()
}

/// `moka::sync::Cache::get`: a clone of a value inserted under `key`, or
/// nothing (never inserted, evicted or expired).
#[verifier::external_body]
fn moka_beatmap_cache_get(c: &moka::sync::Cache<u32, BeatmapCacheEntry>, key: u32) -> (r: Option<
    BeatmapCacheEntry,
>)
    ensures
        r matches Some(e) ==> beatmap_cache_entries(*c).contains((key, e@)),
{
    c.get(&key)
}

/// `moka::sync::Cache::insert`: records the pair (and replaces an older
/// value of `key`); the limits stay those the cache was built with.
#[verifier::external_body]
fn moka_beatmap_cache_insert(
    c: &mut moka::sync::Cache<u32, BeatmapCacheEntry>,
    key: u32,
    entry: BeatmapCacheEntry,
)
    ensures
        beatmap_cache_entries(*final(c)) == beatmap_cache_entries(*old(c)).insert((key, entry@)),
        beatmap_cache_limits(*final(c)) == beatmap_cache_limits(*old(c)),
{
    c.insert(key, entry)
}

/// Caches beatmap metadata by beatmap ID to avoid repeated osu!api calls.
pub struct BeatmapCache {
    cache: moka::sync::Cache<u32, BeatmapCacheEntry>,
}

impl View for BeatmapCache {
    type V = Set<(u32, EntryView)>;

    closed spec fn view(&self) -> Set<(u32, EntryView)> {
        beatmap_cache_entries(self.cache)
    }
}

impl BeatmapCache {
    /// The maximum number of entries and the time to live of an entry (seconds).
    pub closed spec fn limits(&self) -> (u64, u64) {
        beatmap_cache_limits(self.cache)
    }

    /// Up to 2000 entries, each kept for an hour.
    pub fn new() -> (r: Self)
        ensures
            r@ == Set::<(u32, EntryView)>::empty(),
            r.limits() == (2000u64, 3600u64),
    {
        Self { cache: moka_beatmap_cache_new(2000, 60 * 60) }
    }

    /// An entry put under `beatmap_id`, if the cache still holds one.
    pub fn get(&self, beatmap_id: u32) -> (r: Option<BeatmapCacheEntry>)
        ensures
            r matches Some(e) ==> self@.contains((beatmap_id, e@)),
    {
        moka_beatmap_cache_get(&self.cache, beatmap_id)
    }

    pub fn put(&mut self, beatmap_id: u32, entry: BeatmapCacheEntry)
        ensures
            final(self)@ == old(self)@.insert((beatmap_id, entry@)),
            final(self).limits() == old(self).limits(),
    {
        moka_beatmap_cache_insert(&mut self.cache, beatmap_id, entry)
    }
}

/// Every `(key, mapset)` pair ever inserted into a mapset cache; as with
/// [`beatmap_cache_entries`], a lookup can return only these.
pub uninterp spec fn beatmapset_cache_entries(c: moka::sync::Cache<u32, MapsetInfo>) -> Set<
    (u32, MapsetView),
>;

/// The limits a mapset cache was built with: its maximum number of entries
/// and the time to live of an entry, in seconds.
pub uninterp spec fn beatmapset_cache_limits(c: moka::sync::Cache<u32, MapsetInfo>) -> (u64, u64);

/// `moka::sync::Cache::builder()` with `max_capacity` and `time_to_live`,
/// then `build()`, for mapsets: a new cache holds nothing and keeps the
/// limits it was built with. `build` panics on a time to live over 1000 years.
#[verifier::external_body]
fn moka_mapset_cache_new(max_capacity: u64, ttl_secs: u64) -> (c: moka::sync::Cache<u32, MapsetInfo>)
    requires
        ttl_secs <= MAX_TIME_TO_LIVE_SECS,
    ensures
        beatmapset_cache_entries(c) == Set::<(u32, MapsetView)>::empty(),
        beatmapset_cache_limits(c) == (max_capacity, ttl_secs),
{
    moka::sync::Cache::builder().max_capacity(max_capacity).time_to_live(
        std::time::Duration::from_secs(ttl_secs),
    ).build()
}

/// `moka::sync::Cache::get` on a mapset cache: a clone of a value inserted
/// under `key`, or `None`.
#[verifier::external_body]
fn moka_mapset_cache_get(c: &moka::sync::Cache<u32, MapsetInfo>, key: u32) -> (r: Option<MapsetInfo>)
    ensures
        r matches Some(m) ==> beatmapset_cache_entries(*c).contains((key, m@)),
{
    c.get(&key)
}

/// `moka::sync::Cache::insert` on a mapset cache: records the pair; the
/// limits stay those the cache was built with.
#[verifier::external_body]
fn moka_mapset_cache_insert(c: &mut moka::sync::Cache<u32, MapsetInfo>, key: u32, mapset: MapsetInfo)
    ensures
        beatmapset_cache_entries(*final(c)) == beatmapset_cache_entries(*old(c)).insert(
            (key, mapset@),
        ),
        beatmapset_cache_limits(*final(c)) == beatmapset_cache_limits(*old(c)),
{
    c.insert(key, mapset)
}

/// Caches full beatmapset metadata by mapset ID.
pub struct BeatmapsetCache {
    cache: moka::sync::Cache<u32, MapsetInfo>,
}

impl View for BeatmapsetCache {
    type V = Set<(u32, MapsetView)>;

    closed spec fn view(&self) -> Set<(u32, MapsetView)> {
        beatmapset_cache_entries(self.cache)
    }
}

impl BeatmapsetCache {
    /// The maximum number of mapsets and the time to live of one (seconds).
    pub closed spec fn limits(&self) -> (u64, u64) {
        beatmapset_cache_limits(self.cache)
    }

    /// Up to 2000 mapsets, each kept for an hour.
    pub fn new() -> (r: Self)
        ensures
            r@ == Set::<(u32, MapsetView)>::empty(),
            r.limits() == (2000u64, 3600u64),
    {
        Self { cache: moka_mapset_cache_new(2000, 60 * 60) }
    }

    /// A mapset put under `mapset_id`, if the cache still holds one.
    pub fn get(&self, mapset_id: u32) -> (r: Option<MapsetInfo>)
        ensures
            r matches Some(m) ==> self@.contains((mapset_id, m@)),
    {
        moka_mapset_cache_get(&self.cache, mapset_id)
    }

    pub fn put(&mut self, mapset_id: u32, mapset: MapsetInfo)
        ensures
            final(self)@ == old(self)@.insert((mapset_id, mapset@)),
            final(self).limits() == old(self).limits(),
    {
        moka_mapset_cache_insert(&mut self.cache, mapset_id, mapset)
    }
}

/// What a lookup gives back of the writes, for both caches: after a `put`,
/// an entry found under an id is the one just put or one put before, and a
/// new cache finds nothing.
pub proof fn law_cache_hit_was_put<V>(before: Set<(u32, V)>, id: u32, entry: V, other_id: u32, found: V)
    requires
        before.insert((id, entry)).contains((other_id, found)),
    ensures
        (other_id, found) != (id, entry) ==> before.contains((other_id, found)),
        !Set::<(u32, V)>::empty().contains((other_id, found)),
{
}

// ---------------------------------------------------------------------------
// Search chains
// ---------------------------------------------------------------------------

/// One page of search results: the page itself, with the number of mapsets
/// on it and whether the search has a page after it.
#[derive(Clone, Debug)]
pub struct SearchPage<P> {
    pub result: P,
    pub mapset_count: u32,
    pub has_more: bool,
}

/// A chain of search result pages for a single query.
/// Pages[0] = page 1, Pages[1] = page 2, etc.
/// Each entry is the result for that page (which also contains the cursor
/// for the NEXT page). A chain always holds its first page.
pub struct SearchChain<P> {
    first: SearchPage<P>,
    rest: Vec<SearchPage<P>>,
}

impl<P> View for SearchChain<P> {
    type V = Seq<SearchPage<P>>;

    closed spec fn view(&self) -> Seq<SearchPage<P>> {
        seq![self.first] + self.rest@
    }
}

impl<P> SearchChain<P> {
    pub fn new(first_page: SearchPage<P>) -> (r: Self)
        ensures
            r@ == seq![first_page],
    {
        let r = Self { first: first_page, rest: Vec::new() };
        assert(r@ =~= seq![r.first]);
        r
    }

    pub fn last(&self) -> (r: &SearchPage<P>)
        ensures
            self@.len() >= 1,
            *r == self@.last(),
    {
        if self.rest.len() == 0 {
            &self.first
        } else {
            &self.rest[self.rest.len() - 1]
        }
    }

    pub fn push(&mut self, page: SearchPage<P>)
        ensures
            final(self)@ == old(self)@.push(page),
    {
        self.rest.push(page);
        assert(final(self)@ =~= old(self)@.push(page));
    }

    pub fn get(&self, index: usize) -> (r: Option<&SearchPage<P>>)
        ensures
            self@.len() >= 1,
            index < self@.len() ==> r == Some(&self@[index as int]),
            index >= self@.len() ==> r is None,
    {
        if index == 0 {
            Some(&self.first)
        } else if index - 1 < self.rest.len() {
            Some(&self.rest[index - 1])
        } else {
            None
        }
    }

    /// Whether the search goes on past the last cached page.
    pub fn has_more(&self) -> (r: bool)
        ensures
            self@.len() >= 1,
            r == self@.last().has_more,
    {
        self.last().has_more
    }

    /// The mapset count of every page, in order.
    pub fn page_counts(&self) -> (r: Vec<u32>)
        ensures
            r@.len() == self@.len(),
            forall|i: int| 0 <= i < r@.len() ==> r@[i] == #[trigger] self@[i].mapset_count,
    {
        let mut counts: Vec<u32> = Vec::new();
        counts.push(self.first.mapset_count);
        let mut i: usize = 0;
        while i < self.rest.len()
            invariant
                i <= self.rest@.len(),
                counts@.len() == i + 1,
                counts@[0] == self.first.mapset_count,
                forall|j: int| 0 <= j < i ==> counts@[j + 1] == #[trigger] self.rest@[j].mapset_count,
            decreases self.rest@.len() - i,
        {
            counts.push(self.rest[i].mapset_count);
            i = i + 1;
        }
        assert forall|k: int| 0 <= k < counts@.len() implies counts@[k] == #[trigger] self@[k].mapset_count by {
            if k > 0 {
                assert(counts@[(k - 1) + 1] == self.rest@[k - 1].mapset_count);
            }
        }
        counts
    }
}

/// Number of mapsets on the first `counts.len()` pages.
pub open spec fn page_total(counts: Seq<u32>) -> int
    decreases counts.len(),
{
    if counts.len() == 0 {
        0
    } else {
        page_total(counts.drop_last()) + counts.last()
    }
}

/// Page `i` covers the offsets `page_total(counts.take(i)) ..` up to its count.
pub open spec fn page_holds(counts: Seq<u32>, i: int, from: int) -> bool {
    page_total(counts.take(i)) <= from < page_total(counts.take(i)) + counts[i]
}

proof fn lemma_page_total_step(counts: Seq<u32>, i: int)
    requires
        0 <= i < counts.len(),
    ensures
        page_total(counts.take(i + 1)) == page_total(counts.take(i)) + counts[i],
{
    assert(counts.take(i + 1).drop_last() =~= counts.take(i));
}

proof fn lemma_page_total_monotone(counts: Seq<u32>, i: int, j: int)
    requires
        0 <= i <= j <= counts.len(),
    ensures
        page_total(counts.take(i)) <= page_total(counts.take(j)),
    decreases j - i,
{
    if i < j {
        lemma_page_total_step(counts, j - 1);
        lemma_page_total_monotone(counts, i, j - 1);
    }
}

/// `r` answers where `from` lies in pages holding `counts` mapsets: `Ok(i)`
/// for the first page that holds it, `Err(total)` with the number of mapsets
/// on all pages when none does.
pub open spec fn locates(counts: Seq<u32>, from: int, r: Result<usize, i64>) -> bool {
    match r {
        Ok(i) => i < counts.len() && page_holds(counts, i as int, from) && forall|j: int|
            0 <= j < i ==> !page_holds(counts, j, from),
        Err(total) => total == page_total(counts) && forall|j: int|
            0 <= j < counts.len() ==> !page_holds(counts, j, from),
    }
}

/// Where the offset `from` lies in a chain whose pages hold `counts` mapsets:
/// `Ok(i)` for the page that holds it, or `Err(total)` with the number of
/// mapsets on all pages when no page holds it.
pub fn locate_page(counts: &Vec<u32>, from: i32) -> (r: Result<usize, i64>)
    requires
        page_total(counts@) <= i32::MAX,
    ensures
        locates(counts@, from as int, r),
{
    let mut offset: i64 = 0;
    let mut i: usize = 0;
    assert(counts@.take(0) =~= Seq::<u32>::empty());
    while i < counts.len()
        invariant
            i <= counts@.len(),
            offset == page_total(counts@.take(i as int)),
            page_total(counts@) <= i32::MAX,
            forall|j: int| 0 <= j < i ==> !page_holds(counts@, j, from as int),
        decreases counts@.len() - i,
    {
        proof {
            lemma_page_total_step(counts@, i as int);
            lemma_page_total_monotone(counts@, i + 1, counts@.len() as int);
            assert(counts@.take(counts@.len() as int) =~= counts@);
        }
        let size = counts[i] as i64;
        if (from as i64) >= offset && (from as i64) < offset + size {
            return Ok(i);
        }
        offset = offset + size;
        i = i + 1;
    }
    assert(counts@.take(counts@.len() as int) =~= counts@);
    Err(offset)
}

/// Pages are contiguous from offset 0: every offset below the total is on some page.
pub proof fn law_cached_offsets_covered(counts: Seq<u32>, from: int)
    requires
        0 <= from < page_total(counts),
    ensures
        exists|i: int| 0 <= i < counts.len() && page_holds(counts, i, from),
    decreases counts.len(),
{
    let n = counts.len() as int;
    assert(counts.take(n) =~= counts);
    lemma_page_total_step(counts, n - 1);
    if from >= page_total(counts.take(n - 1)) {
        assert(page_holds(counts, n - 1, from));
    } else {
        let prefix = counts.take(n - 1);
        law_cached_offsets_covered(prefix, from);
        let i = choose|i: int| 0 <= i < prefix.len() && page_holds(prefix, i, from);
        assert(prefix.take(i) =~= counts.take(i));
        assert(page_holds(counts, i, from));
    }
}

/// The page a forward walk ends on. The search's pages hold `counts`
/// mapsets and `more[i]` tells whether page `i` reports a next page. The
/// walk stands on page `i`, whose end is the offset `offset`, and fetches the
/// next page while [`next_walk_step`] says so and there is one.
pub open spec fn walk_page(counts: Seq<u32>, more: Seq<bool>, i: int, offset: int, from: int) -> int
    decreases counts.len() - i,
{
    if 0 <= i && i + 1 < counts.len() && offset <= from && more[i] {
        walk_page(counts, more, i + 1, offset + counts[i + 1], from)
    } else {
        i
    }
}

/// The page served from a chain holding the first `j` pages of the search,
/// when looking the offset up in the chain gave `r`: the page found, or else
/// the end of a walk from the chain's last page.
pub open spec fn page_from_chain(counts: Seq<u32>, more: Seq<bool>, j: int, from: int, r: Result<
    usize,
    i64,
>) -> int {
    match r {
        Ok(i) => i as int,
        Err(total) => walk_page(counts, more, j - 1, total as int, from),
    }
}

proof fn lemma_walk_skips(counts: Seq<u32>, more: Seq<bool>, i: int, k: int, from: int)
    requires
        0 <= i <= k < counts.len(),
        more.len() == counts.len(),
        forall|m: int| i <= m < k ==> more[m] && page_total(counts.take(m + 1)) <= from,
    ensures
        walk_page(counts, more, i, page_total(counts.take(i + 1)), from) == walk_page(
            counts,
            more,
            k,
            page_total(counts.take(k + 1)),
            from,
        ),
    decreases k - i,
{
    if i < k {
        assert(more[i]);
        assert(page_total(counts.take(i + 1)) <= from);
        lemma_page_total_step(counts, i + 1);
        lemma_walk_skips(counts, more, i + 1, k, from);
    }
}

proof fn lemma_offsets_below(counts: Seq<u32>, from: int, j: int)
    requires
        from >= 0,
        0 <= j <= counts.len(),
        forall|m: int| 0 <= m < j ==> !page_holds(counts, m, from),
    ensures
        forall|m: int| 0 <= m <= j ==> page_total(counts.take(m)) <= from,
    decreases j,
{
    if j == 0 {
        assert(counts.take(0) =~= Seq::<u32>::empty());
    } else {
        lemma_offsets_below(counts, from, j - 1);
        lemma_page_total_step(counts, j - 1);
        assert(page_total(counts.take(j - 1)) <= from);
        assert(!page_holds(counts, j - 1, from));
        assert(page_total(counts.take(j)) <= from);
    }
}

/// A cached chain never changes which page is served, only how many pages
/// are fetched: with the first `j` pages of a search cached (every cached
/// page but the last reporting a next one), the page served for an offset
/// `from >= 0` is the page a walk from the first page alone ends on.
pub proof fn law_cached_chain_keeps_page(
    counts: Seq<u32>,
    more: Seq<bool>,
    j: int,
    from: int,
    r: Result<usize, i64>,
)
    requires
        1 <= j <= counts.len(),
        more.len() == counts.len(),
        forall|k: int| 0 <= k < j - 1 ==> more[k],
        from >= 0,
        locates(counts.take(j), from, r),
    ensures
        page_from_chain(counts, more, j, from, r) == walk_page(
            counts,
            more,
            0,
            counts[0] as int,
            from,
        ),
{
    let c = counts.take(j);
    assert forall|m: int| 0 <= m < j implies #[trigger] page_holds(c, m, from) == page_holds(
        counts,
        m,
        from,
    ) by {
        assert(c.take(m) =~= counts.take(m));
    }
    lemma_page_total_step(counts, 0);
    assert(counts.take(0) =~= Seq::<u32>::empty());
    match r {
        Ok(i) => {
            let i = i as int;
            assert forall|m: int| 0 <= m < i implies !page_holds(counts, m, from) by {
                assert(!page_holds(c, m, from));
            }
            lemma_offsets_below(counts, from, i);
            assert forall|m: int| 0 <= m < i implies more[m] && page_total(counts.take(m + 1))
                <= from by {}
            lemma_walk_skips(counts, more, 0, i, from);
            lemma_page_total_step(counts, i);
        },
        Err(total) => {
            assert forall|m: int| 0 <= m < j implies !page_holds(counts, m, from) by {
                assert(!page_holds(c, m, from));
            }
            lemma_offsets_below(counts, from, j);
            assert forall|m: int| 0 <= m < j - 1 implies more[m] && page_total(
                counts.take(m + 1),
            ) <= from by {}
            lemma_walk_skips(counts, more, 0, j - 1, from);
        },
    }
}

/// What to do next when walking a search forward to reach an offset.
#[derive(Clone, Copy, Debug, PartialEq, Eq, Structural)]
pub enum WalkStep {
    /// Fetch the page after the current one.
    FetchNext,
    /// The current page is the answer.
    Stop,
}

/// Walking on from a page that ends at `offset`: fetch the next page while
/// the offset `from` lies beyond it and the search has more.
pub fn next_walk_step(offset: i64, from: i32, has_more: bool) -> (r: WalkStep)
    ensures
        r == if offset <= from && has_more {
            WalkStep::FetchNext
        } else {
            WalkStep::Stop
        },
{
    if offset <= from as i64 && has_more {
        WalkStep::FetchNext
    } else {
        WalkStep::Stop
    }
}

// ---------------------------------------------------------------------------
// Cache key builders — hash search params (excluding `from`)
// ---------------------------------------------------------------------------

/// One step of the key hash: `h * 31 + x`, wrapping at 2^64.
pub open spec fn mix(h: u64, x: u64) -> u64 {
    vstd::wrapping::u64_specs::wrapping_add(vstd::wrapping::u64_specs::wrapping_mul(h, 31), x)
}

/// The hash of `bytes`, folded from 0 in order.
pub open spec fn bytes_hash(bytes: Seq<u8>) -> u64
    decreases bytes.len(),
{
    if bytes.len() == 0 {
        0
    } else {
        mix(bytes_hash(bytes.drop_last()), bytes.last() as u64)
    }
}

pub open spec fn word_bytes(word: Option<String>) -> Seq<u8> {
    match word {
        Some(w) => vstd::utf8::encode_utf8(w@),
        None => Seq::empty(),
    }
}

/// The key of a list search: the word's UTF-8 bytes, then org, mode, lvge,
/// lvle and beta (absent numbers as 0), each folded in with [`mix`].
pub open spec fn list_key(
    word: Seq<u8>,
    org: Option<i32>,
    mode: int,
    lvge: Option<i32>,
    lvle: Option<i32>,
    beta: Option<i32>,
) -> u64 {
    mix(
        mix(
            mix(
                mix(mix(bytes_hash(word), org.unwrap_or(0) as u64), mode as i32 as u64),
                lvge.unwrap_or(0) as u64,
            ),
            lvle.unwrap_or(0) as u64,
        ),
        beta.unwrap_or(0) as u64,
    )
}

fn hash_step(h: u64, x: u64) -> (r: u64)
    ensures
        r == mix(h, x),
{
    h.wrapping_mul(31).wrapping_add(x)
}

/// Build a cache key from search parameters (without `from` offset).
pub fn list_search_key(params: &ListQueryParams) -> (r: u64)
    ensures
        r == list_key(
            word_bytes(params.word),
            params.org,
            mode_number(params.mode),
            params.lvge,
            params.lvle,
            params.beta,
        ),
{
    let bytes: &[u8] = match &params.word {
        Some(w) => w.as_str().as_bytes(),
        None => &[],
    };
    assert(bytes@ == word_bytes(params.word));
    let mut h = 0u64;
    let mut i: usize = 0;
    assert(bytes@.take(0) =~= Seq::<u8>::empty());
    while i < bytes.len()
        invariant
            i <= bytes@.len(),
            h == bytes_hash(bytes@.take(i as int)),
        decreases bytes@.len() - i,
    {
        assert(bytes@.take(i + 1).drop_last() =~= bytes@.take(i as int));
        h = hash_step(h, bytes[i] as u64);
        i = i + 1;
    }
    assert(bytes@.take(bytes@.len() as int) =~= bytes@);
    let org = match params.org {
        Some(v) => v,
        None => 0,
    };
    let lvge = match params.lvge {
        Some(v) => v,
        None => 0,
    };
    let lvle = match params.lvle {
        Some(v) => v,
        None => 0,
    };
    let beta = match params.beta {
        Some(v) => v,
        None => 0,
    };
    h = hash_step(h, org as u64);
    h = hash_step(h, params.mode.as_i32() as u64);
    h = hash_step(h, lvge as u64);
    h = hash_step(h, lvle as u64);
    h = hash_step(h, beta as u64);
    h
}

pub fn promote_search_key(params: &PromoteQueryParams) -> (r: u64)
    ensures
        r == mix(params.org.unwrap_or(0) as u64, mode_number(params.mode) as i32 as u64),
{
    let org = match params.org {
        Some(v) => v,
        None => 0,
    };
    hash_step(org as u64, params.mode.as_i32() as u64)
}

pub fn friend_search_key(params: &FriendQueryParams) -> (r: u64)
    ensures
        r == params.org.unwrap_or(0) as u64,
{
    match params.org {
        Some(v) => v as u64,
        None => 0,
    }
}

/// The list key depends on the search alone: two queries that differ only in
/// their offset (`from`) or their client credentials share a key.
pub proof fn law_list_key_ignores_offset(p: ListQueryParams, q: ListQueryParams)
    requires
        word_bytes(p.word) == word_bytes(q.word),
        p.org == q.org,
        p.mode == q.mode,
        p.lvge == q.lvge,
        p.lvle == q.lvle,
        p.beta == q.beta,
    ensures
        list_key(word_bytes(p.word), p.org, mode_number(p.mode), p.lvge, p.lvle, p.beta)
            == list_key(word_bytes(q.word), q.org, mode_number(q.mode), q.lvge, q.lvle, q.beta),
{
}

/// `mix` is `h * 31 + x` reduced modulo 2^64.
proof fn lemma_mix_value(h: u64, x: u64)
    ensures
        mix(h, x) as int == (h * 31 + x) % 0x1_0000_0000_0000_0000,
{
    let r: int = 0x1_0000_0000_0000_0000;
    let m = vstd::wrapping::u64_specs::wrapping_mul(h, 31);
    assert(m as int == (h * 31) % r);
    vstd::arithmetic::div_mod::lemma_fundamental_div_mod(h * 31, r);
    let q = (h * 31) / r;
    assert((h * 31 + x) == r * q + (m + x));
    vstd::arithmetic::div_mod::lemma_mod_multiples_vanish(q, m + x, r);
    if m + x > u64::MAX {
        vstd::arithmetic::div_mod::lemma_mod_multiples_vanish(1, m + x - r, r);
        vstd::arithmetic::div_mod::lemma_small_mod((m + x - r) as nat, r as nat);
    } else {
        vstd::arithmetic::div_mod::lemma_small_mod((m + x) as nat, r as nat);
    }
}

/// A signed 32-bit value as `u64` is the value itself, or the value plus
/// 2^64 when it is negative.
proof fn lemma_i32_as_u64(v: i32)
    ensures
        v >= 0 ==> v as u64 as int == v as int,
        v < 0 ==> v as u64 as int == v + 0x1_0000_0000_0000_0000,
{
    assert(v >= 0 ==> v as u64 == v as u32 as u64) by (bit_vector);
    assert(v < 0 ==> v as u64 == 0xffff_ffff_0000_0000u64 + (v as u32 as u64)) by (bit_vector);
    assert(v < 0 ==> v as u32 as u64 == (v + 0x1_0000_0000) as u32 as u64) by (bit_vector);
}

/// Two promote searches share a key exactly when they have the same origin
/// filter (absent counting as 0) and the same mode: the offset and the
/// client credentials never change the key, and different searches never
/// share a chain.
pub proof fn law_promote_keys_distinct(p: PromoteQueryParams, q: PromoteQueryParams)
    ensures
        mix(p.org.unwrap_or(0) as u64, mode_number(p.mode) as i32 as u64) == mix(
            q.org.unwrap_or(0) as u64,
            mode_number(q.mode) as i32 as u64,
        ) <==> (p.org.unwrap_or(0) == q.org.unwrap_or(0) && p.mode == q.mode),
{
    let r: int = 0x1_0000_0000_0000_0000;
    let o1 = p.org.unwrap_or(0);
    let o2 = q.org.unwrap_or(0);
    let m1 = mode_number(p.mode) as i32;
    let m2 = mode_number(q.mode) as i32;
    lemma_mix_value(o1 as u64, m1 as u64);
    lemma_mix_value(o2 as u64, m2 as u64);
    lemma_i32_as_u64(o1);
    lemma_i32_as_u64(o2);
    lemma_i32_as_u64(m1);
    lemma_i32_as_u64(m2);
    let v1: int = 31 * o1 + m1;
    let v2: int = 31 * o2 + m2;
    let c1: int = 31 * (if o1 < 0 { 1int } else { 0int }) + (if m1 < 0 { 1int } else { 0int });
    let c2: int = 31 * (if o2 < 0 { 1int } else { 0int }) + (if m2 < 0 { 1int } else { 0int });
    assert((o1 as u64) * 31 + (m1 as u64) == r * c1 + v1) by (nonlinear_arith)
        requires
            o1 >= 0 ==> o1 as u64 as int == o1 as int,
            o1 < 0 ==> o1 as u64 as int == o1 + r,
            m1 >= 0 ==> m1 as u64 as int == m1 as int,
            m1 < 0 ==> m1 as u64 as int == m1 + r,
            c1 == 31 * (if o1 < 0 { 1int } else { 0int }) + (if m1 < 0 { 1int } else { 0int }),
            v1 == 31 * o1 + m1,
    ;
    assert((o2 as u64) * 31 + (m2 as u64) == r * c2 + v2) by (nonlinear_arith)
        requires
            o2 >= 0 ==> o2 as u64 as int == o2 as int,
            o2 < 0 ==> o2 as u64 as int == o2 + r,
            m2 >= 0 ==> m2 as u64 as int == m2 as int,
            m2 < 0 ==> m2 as u64 as int == m2 + r,
            c2 == 31 * (if o2 < 0 { 1int } else { 0int }) + (if m2 < 0 { 1int } else { 0int }),
            v2 == 31 * o2 + m2,
    ;
    vstd::arithmetic::div_mod::lemma_mod_multiples_vanish(c1, v1, r);
    vstd::arithmetic::div_mod::lemma_mod_multiples_vanish(c2, v2, r);
    if mix(o1 as u64, m1 as u64) == mix(o2 as u64, m2 as u64) {
        // Both lie within half a word of 0, so equal residues mean equal values.
        lemma_equal_residues(v1, v2, r);
        assert(31 * (o1 - o2) == m2 - m1) by (nonlinear_arith)
            requires
                v1 == v2,
                v1 == 31 * o1 + m1,
                v2 == 31 * o2 + m2,
        ;
        assert(o1 == o2) by (nonlinear_arith)
            requires
                31 * (o1 - o2) == m2 - m1,
                -1 <= m1 <= 9,
                -1 <= m2 <= 9,
        ;
    }
    crate::models::law_mode_number_roundtrip(p.mode, m2);
    crate::models::law_mode_number_roundtrip(q.mode, m1);
}

/// Two integers less than `r` apart with the same residue modulo `r` are equal.
proof fn lemma_equal_residues(a: int, b: int, r: int)
    requires
        r > 0,
        -r < a - b < r,
        a % r == b % r,
    ensures
        a == b,
{
    vstd::arithmetic::div_mod::lemma_fundamental_div_mod(a, r);
    vstd::arithmetic::div_mod::lemma_fundamental_div_mod(b, r);
    let qa = a / r;
    let qb = b / r;
    assert(r * (qa - qb) == a - b) by (nonlinear_arith)
        requires
            a == r * qa + a % r,
            b == r * qb + b % r,
            a % r == b % r,
    ;
    assert(qa == qb) by (nonlinear_arith)
        requires
            r * (qa - qb) == a - b,
            -r < a - b < r,
            r > 0,
    ;
}

/// One hash step loses nothing: from `mix(h, x)` and `h`, `x` is determined,
/// and from `mix(h, x)` and `x`, `h` is determined (31 is odd, so it is
/// invertible modulo 2^64).
proof fn lemma_mix_injective(h1: u64, h2: u64, x1: u64, x2: u64)
    requires
        mix(h1, x1) == mix(h2, x2),
    ensures
        h1 == h2 ==> x1 == x2,
        x1 == x2 ==> h1 == h2,
{
    let r: int = 0x1_0000_0000_0000_0000;
    lemma_mix_value(h1, x1);
    lemma_mix_value(h2, x2);
    if h1 == h2 {
        lemma_equal_residues(h1 * 31 + x1, h2 * 31 + x2, r);
    }
    if x1 == x2 {
        let a: int = h1 * 31 + x1;
        let b: int = h2 * 31 + x2;
        vstd::arithmetic::div_mod::lemma_fundamental_div_mod(a, r);
        vstd::arithmetic::div_mod::lemma_fundamental_div_mod(b, r);
        let q: int = a / r - b / r;
        let d: int = h1 - h2;
        assert(31 * d == r * q) by (nonlinear_arith)
            requires
                a == r * (a / r) + a % r,
                b == r * (b / r) + b % r,
                a % r == b % r,
                a == h1 * 31 + x1,
                b == h2 * 31 + x2,
                x1 == x2,
                d == h1 - h2,
                q == a / r - b / r,
        ;
        let inv: int = 0xef7bdef7bdef7bdf;
        assert(d == r * (inv * q - 29 * d)) by (nonlinear_arith)
            requires
                31 * d == r * q,
                r == 0x1_0000_0000_0000_0000,
                inv == 0xef7bdef7bdef7bdf,
        ;
        let t: int = inv * q - 29 * d;
        assert(t == 0) by (nonlinear_arith)
            requires
                d == r * t,
                -r < d < r,
                r > 0,
        ;
    }
}

/// List searches that differ only in their mode never share a key: two list
/// queries with the same word, origin filter, level bounds and beta flag
/// have equal keys exactly when their modes are equal.
pub proof fn law_list_key_separates_modes(p: ListQueryParams, q: ListQueryParams)
    requires
        word_bytes(p.word) == word_bytes(q.word),
        p.org == q.org,
        p.lvge == q.lvge,
        p.lvle == q.lvle,
        p.beta == q.beta,
    ensures
        list_key(word_bytes(p.word), p.org, mode_number(p.mode), p.lvge, p.lvle, p.beta) == list_key(
            word_bytes(q.word),
            q.org,
            mode_number(q.mode),
            q.lvge,
            q.lvle,
            q.beta,
        ) <==> p.mode == q.mode,
{
    let base = mix(bytes_hash(word_bytes(p.word)), p.org.unwrap_or(0) as u64);
    let m1 = mode_number(p.mode) as i32;
    let m2 = mode_number(q.mode) as i32;
    let a1 = mix(base, m1 as u64);
    let a2 = mix(base, m2 as u64);
    let b1 = mix(a1, p.lvge.unwrap_or(0) as u64);
    let b2 = mix(a2, p.lvge.unwrap_or(0) as u64);
    let c1 = mix(b1, p.lvle.unwrap_or(0) as u64);
    let c2 = mix(b2, p.lvle.unwrap_or(0) as u64);
    let k1 = mix(c1, p.beta.unwrap_or(0) as u64);
    let k2 = mix(c2, p.beta.unwrap_or(0) as u64);
    if k1 == k2 {
        lemma_mix_injective(c1, c2, p.beta.unwrap_or(0) as u64, p.beta.unwrap_or(0) as u64);
        lemma_mix_injective(b1, b2, p.lvle.unwrap_or(0) as u64, p.lvle.unwrap_or(0) as u64);
        lemma_mix_injective(a1, a2, p.lvge.unwrap_or(0) as u64, p.lvge.unwrap_or(0) as u64);
        lemma_mix_injective(base, base, m1 as u64, m2 as u64);
        lemma_i32_as_u64(m1);
        lemma_i32_as_u64(m2);
        crate::models::law_mode_number_roundtrip(p.mode, m2);
        crate::models::law_mode_number_roundtrip(q.mode, m1);
    }
}

} // verus!
