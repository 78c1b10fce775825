//! Keeping the `.osz` cache directory within its size bound: which files
//! count, in which order they go (least recently used first), and when to
//! stop deleting.
use vstd::prelude::*;

verus! {

/// One cached `.osz` file: its size in bytes and the time it was last
/// modified (nanoseconds after the Unix epoch; touched whenever it is served).
#[derive(Clone, Copy, Debug)]
pub struct OszFileInfo {
    pub size: u64,
    pub modified: u128,
}

/// Sum of the sizes of `files`.
pub open spec fn total_size(files: Seq<OszFileInfo>) -> int
    decreases files.len(),
{
    if files.len() == 0 {
        0
    } else {
        total_size(files.drop_last()) + files.last().size
    }
}

/// Sum of the sizes of the files at the positions `order`.
pub open spec fn order_size(files: Seq<OszFileInfo>, order: Seq<usize>) -> int
    decreases order.len(),
{
    if order.len() == 0 {
        0
    } else {
        files[order[0] as int].size + order_size(files, order.drop_first())
    }
}

/// File `a` goes before file `b`: it is older, or as old and listed first
/// (a stable sort by modification time).
pub open spec fn goes_before(files: Seq<OszFileInfo>, a: usize, b: usize) -> bool {
    files[a as int].modified < files[b as int].modified || (files[a as int].modified
        == files[b as int].modified && a < b)
}

/// `order` lists every position of `files` once, oldest first.
pub open spec fn is_eviction_order(files: Seq<OszFileInfo>, order: Seq<usize>) -> bool {
    &&& order.len() == files.len()
    &&& forall|k: int| 0 <= k < order.len() ==> #[trigger] order[k] < files.len()
    &&& forall|k: int, l: int|
        0 <= k < l < order.len() ==> goes_before(files, #[trigger] order[k], #[trigger] order[l])
    &&& forall|j: int| 0 <= j < files.len() ==> #[trigger] order.contains(j as usize)
}

proof fn lemma_order_size_insert(files: Seq<OszFileInfo>, order: Seq<usize>, p: int, x: usize)
    requires
        0 <= p <= order.len(),
    ensures
        order_size(files, order.insert(p, x)) == order_size(files, order) + files[x as int].size,
    decreases order.len(),
{
    if p == 0 {
        assert(order.insert(0, x).drop_first() =~= order);
    } else {
        assert(order.insert(p, x).drop_first() =~= order.drop_first().insert(p - 1, x));
        lemma_order_size_insert(files, order.drop_first(), p - 1, x);
    }
}

/// Positions of `files`, oldest first; ties keep their listing order.
pub fn eviction_order(files: &Vec<OszFileInfo>) -> (r: Vec<usize>)
    ensures
        is_eviction_order(files@, r@),
        order_size(files@, r@) == total_size(files@),
{
    let mut order: Vec<usize> = Vec::new();
    let mut i: usize = 0;
    assert(files@.take(0) =~= Seq::<OszFileInfo>::empty());
    while i < files.len()
        invariant
            i <= files@.len(),
            order@.len() == i,
            forall|k: int| 0 <= k < order@.len() ==> #[trigger] order@[k] < i,
            forall|k: int, l: int|
                0 <= k < l < order@.len() ==> goes_before(files@, #[trigger] order@[k], #[trigger] order@[l]),
            forall|j: int| 0 <= j < i ==> #[trigger] order@.contains(j as usize),
            order_size(files@, order@) == total_size(files@.take(i as int)),
        decreases files@.len() - i,
    {
        let m = files[i].modified;
        let mut p: usize = 0;
        while p < order.len() && files[order[p]].modified <= m
            invariant
                p <= order@.len(),
                order@.len() == i,
                i < files@.len(),
                m == files@[i as int].modified,
                forall|k: int| 0 <= k < order@.len() ==> #[trigger] order@[k] < i,
                forall|k: int| 0 <= k < p ==> files@[order@[k] as int].modified <= m,
            decreases order@.len() - p,
        {
            p = p + 1;
        }
        let ghost old_order = order@;
        proof {
            lemma_order_size_insert(files@, old_order, p as int, i);
            assert(files@.take(i + 1).drop_last() =~= files@.take(i as int));
        }
        order.insert(p, i);
        proof {
            let new = order@;
            assert(new =~= old_order.insert(p as int, i));
            assert forall|k: int| 0 <= k < new.len() implies #[trigger] new[k] < i + 1 by {
                if k < p {
                    assert(new[k] == old_order[k]);
                } else if k > p {
                    assert(new[k] == old_order[k - 1]);
                }
            }
            assert forall|k: int, l: int| 0 <= k < l < new.len() implies goes_before(files@, #[trigger] new[k], #[trigger] new[l]) by {
                if l < p {
                    assert(new[k] == old_order[k] && new[l] == old_order[l]);
                } else if l == p {
                    assert(new[k] == old_order[k]);
                    assert(files@[old_order[k] as int].modified <= m);
                } else if k < p {
                    assert(new[k] == old_order[k] && new[l] == old_order[l - 1]);
                } else if k == p {
                    assert(new[l] == old_order[l - 1]);
                    assert(files@[old_order[p as int] as int].modified > m);
                    if l - 1 > p {
                        assert(goes_before(files@, old_order[p as int], old_order[l - 1]));
                    }
                } else {
                    assert(new[k] == old_order[k - 1] && new[l] == old_order[l - 1]);
                }
            }
            assert forall|j: int| 0 <= j < i + 1 implies #[trigger] new.contains(j as usize) by {
                if j == i {
                    assert(new[p as int] == i);
                } else {
                    assert(old_order.contains(j as usize));
                    let k = choose|k: int| 0 <= k < old_order.len() && old_order[k] == j as usize;
                    if k < p {
                        assert(new[k] == j as usize);
                    } else {
                        assert(new[k + 1] == j as usize);
                    }
                }
            }
        }
        i = i + 1;
    }
    assert(files@.take(files@.len() as int) =~= files@);
    order
}

/// What the size bound asks of the cache directory.
pub enum CapacityPlan {
    /// The bound is 0: nothing is ever deleted.
    Unlimited,
    /// The files fit: nothing to delete.
    WithinLimit,
    /// The files hold `total` bytes, over the bound: delete in `order`.
    Evict { order: Vec<usize>, total: u64 },
}

/// Compare the cached files against the bound `limit` (bytes; 0 is unlimited).
pub fn plan_osz_capacity(files: &Vec<OszFileInfo>, limit: u64) -> (r: CapacityPlan)
    requires
        total_size(files@) <= u64::MAX,
    ensures
        limit == 0 <==> r is Unlimited,
        limit != 0 && total_size(files@) <= limit <==> r is WithinLimit,
        r matches CapacityPlan::Evict { order, total } ==> total == total_size(files@) && total
            > limit && is_eviction_order(files@, order@) && order_size(files@, order@) == total,
{
    if limit == 0 {
        return CapacityPlan::Unlimited;
    }
    let mut total: u64 = 0;
    let mut i: usize = 0;
    assert(files@.take(0) =~= Seq::<OszFileInfo>::empty());
    while i < files.len()
        invariant
            i <= files@.len(),
            total == total_size(files@.take(i as int)),
            total_size(files@) <= u64::MAX,
        decreases files@.len() - i,
    {
        proof {
            assert(files@.take(i + 1).drop_last() =~= files@.take(i as int));
            lemma_total_size_prefix(files@, i + 1);
        }
        total = total + files[i].size;
        i = i + 1;
    }
    assert(files@.take(files@.len() as int) =~= files@);
    if total <= limit {
        return CapacityPlan::WithinLimit;
    }
    CapacityPlan::Evict { order: eviction_order(files), total }
}

proof fn lemma_total_size_prefix(files: Seq<OszFileInfo>, k: int)
    requires
        0 <= k <= files.len(),
    ensures
        total_size(files.take(k)) <= total_size(files),
    decreases files.len(),
{
    if k < files.len() {
        assert(files.take(k) =~= files.drop_last().take(k));
        lemma_total_size_prefix(files.drop_last(), k);
    } else {
        assert(files.take(k) =~= files);
    }
}

/// Whether to delete another file: `freed` bytes of `total` are gone and
/// what is left is still over `limit`.
pub fn keep_evicting(total: u64, freed: u64, limit: u64) -> (r: bool)
    ensures
        r == (total - freed > limit),
{
    let left = if freed >= total {
        0
    } else {
        total - freed
    };
    proof {
        assert(freed >= total ==> total - freed <= 0);
    }
    left > limit
}

/// How many files, taken in `order`, go when every deletion succeeds: they
/// go one by one while what is left (`remaining`) is over `limit`.
pub open spec fn evicted_count(
    files: Seq<OszFileInfo>,
    order: Seq<usize>,
    remaining: int,
    limit: int,
) -> nat
    decreases order.len(),
{
    if order.len() == 0 || remaining <= limit {
        0
    } else {
        1 + evicted_count(
            files,
            order.drop_first(),
            remaining - files[order[0] as int].size,
            limit,
        )
    }
}

proof fn lemma_order_size_nonneg(files: Seq<OszFileInfo>, order: Seq<usize>)
    ensures
        order_size(files, order) >= 0,
    decreases order.len(),
{
    if order.len() > 0 {
        lemma_order_size_nonneg(files, order.drop_first());
    }
}

/// How many files, taken in `order`, the eviction deletes when every
/// deletion succeeds: it deletes while what is left of `total` is over `limit`.
pub fn eviction_count(files: &Vec<OszFileInfo>, order: &Vec<usize>, total: u64, limit: u64) -> (r:
    usize)
    requires
        forall|k: int| 0 <= k < order@.len() ==> #[trigger] order@[k] < files@.len(),
        total == order_size(files@, order@),
    ensures
        r == evicted_count(files@, order@, total as int, limit as int),
{
    let mut i: usize = 0;
    let mut remaining: u64 = total;
    assert(order@.skip(0) =~= order@);
    while i < order.len() && remaining > limit
        invariant
            i <= order@.len(),
            forall|k: int| 0 <= k < order@.len() ==> #[trigger] order@[k] < files@.len(),
            remaining == order_size(files@, order@.skip(i as int)),
            evicted_count(files@, order@, total as int, limit as int) == i + evicted_count(
                files@,
                order@.skip(i as int),
                remaining as int,
                limit as int,
            ),
        decreases order@.len() - i,
    {
        let ghost rest = order@.skip(i as int);
        assert(rest.drop_first() =~= order@.skip(i + 1));
        assert(rest[0] == order@[i as int]);
        proof {
            lemma_order_size_nonneg(files@, rest.drop_first());
        }
        remaining = remaining - files[order[i]].size;
        i = i + 1;
    }
    if i == order.len() {
        assert(order@.skip(i as int).len() == 0);
    }
    i
}

proof fn lemma_last_survives(files: Seq<OszFileInfo>, order: Seq<usize>, limit: int)
    requires
        order.len() >= 1,
        files[order.last() as int].size <= limit,
    ensures
        evicted_count(files, order, order_size(files, order), limit) < order.len(),
    decreases order.len(),
{
    assert(order_size(files, order) == files[order[0] as int].size + order_size(
        files,
        order.drop_first(),
    ));
    if order_size(files, order) > limit {
        if order.len() == 1 {
            assert(order_size(files, order.drop_first()) == 0);
            assert(order[0] == order.last());
        } else {
            assert(order.drop_first().last() == order.last());
            lemma_last_survives(files, order.drop_first(), limit);
        }
    }
}

proof fn lemma_evicted_fits(files: Seq<OszFileInfo>, order: Seq<usize>, limit: int)
    ensures
        ({
            let k = evicted_count(files, order, order_size(files, order), limit);
            &&& k <= order.len()
            &&& (k < order.len() ==> order_size(files, order.skip(k as int)) <= limit)
            &&& forall|j: int|
                0 <= j < k ==> order_size(files, order.skip(j)) > limit
        }),
    decreases order.len(),
{
    assert(order.skip(0) =~= order);
    if order.len() > 0 && order_size(files, order) > limit {
        lemma_evicted_fits(files, order.drop_first(), limit);
        let k = evicted_count(files, order, order_size(files, order), limit);
        assert forall|j: int| 1 <= j <= k implies order.skip(j) == order.drop_first().skip(j - 1) by {
            assert(order.skip(j) =~= order.drop_first().skip(j - 1));
        }
    }
}

/// Eviction takes the oldest files first and stops as soon as the rest fits:
/// when every deletion succeeds, the files deleted are the first `k` of the
/// order, everything after them fits the bound, and before each deletion the
/// files left did not. The newest file stays whenever it fits the bound by itself.
pub proof fn law_eviction_deletes_oldest_until_fits(
    files: Seq<OszFileInfo>,
    order: Seq<usize>,
    limit: u64,
)
    requires
        is_eviction_order(files, order),
        order_size(files, order) == total_size(files),
    ensures
        ({
            let k = evicted_count(files, order, total_size(files), limit as int);
            &&& k <= order.len()
            &&& (k < order.len() ==> order_size(files, order.skip(k as int)) <= limit)
            &&& forall|j: int| 0 <= j < k ==> order_size(files, order.skip(j)) > limit
            &&& (order.len() >= 1 && files[order.last() as int].size <= limit ==> k < order.len())
        }),
{
    lemma_evicted_fits(files, order, limit as int);
    if order.len() >= 1 && files[order.last() as int].size <= limit {
        lemma_last_survives(files, order, limit as int);
    }
}

/// Whether a directory entry is a cached archive: the extension of its file
/// name (after the last `.`, which must not be its first character) is
/// `osz` in any ASCII case.
pub open spec fn is_osz_name(name: Seq<char>) -> bool {
    let n = name.len();
    &&& n >= 5
    &&& name[n - 4] == '.'
    &&& (name[n - 3] == 'o' || name[n - 3] == 'O')
    &&& (name[n - 2] == 's' || name[n - 2] == 'S')
    &&& (name[n - 1] == 'z' || name[n - 1] == 'Z')
}

/// `Path::extension` of the file name, compared to `osz` ignoring ASCII case.
pub fn is_osz_file_name(name: &str) -> (r: bool)
    ensures
        r == is_osz_name(name@),
{
    let v = crate::text::chars_of(name);
    let n = v.len();
    n >= 5 && v[n - 4] == '.' && (v[n - 3] == 'o' || v[n - 3] == 'O') && (v[n - 2] == 's' || v[n
        - 2] == 'S') && (v[n - 1] == 'z' || v[n - 1] == 'Z')
}

} // verus!
