//! What holds of the cache over whole histories of lookups and insertions.

use vstd::prelude::*;
use crate::cache::{
    after_decode, after_eviction, after_get, after_insert, cached, holds, lemma_eviction,
    lemma_get_keeps, lemma_insert_keeps, lemma_position, lemma_without, position, well_formed,
    without, CacheModel,
};
use crate::thumbnail::ThumbnailView;

verus! {

/// One use of the cache.
pub ghost enum CacheOp {
    /// A lookup of a path.
    Get(Seq<char>),
    /// A thumbnail stored under a path.
    Insert(Seq<char>, ThumbnailView),
}

/// The cache after one more use.
pub open spec fn apply(m: CacheModel, cap: nat, op: CacheOp) -> CacheModel {
    match op {
        CacheOp::Get(path) => after_get(m, path),
        CacheOp::Insert(path, thumbnail) => after_insert(m, cap, path, thumbnail),
    }
}

/// The cache that a history of uses leaves, starting from an empty one.
pub open spec fn replay(cap: nat, ops: Seq<CacheOp>) -> CacheModel
    decreases ops.len(),
{
    if ops.len() == 0 {
        Seq::empty()
    } else {
        apply(replay(cap, ops.drop_last()), cap, ops.last())
    }
}

/// Whether `op`, made on the cache `m`, touches the entry of `path`: an
/// insertion under that path does, and a lookup that finds it.
pub open spec fn touches(m: CacheModel, op: CacheOp, path: Seq<char>) -> bool {
    match op {
        CacheOp::Get(p) => p == path && holds(m, path),
        CacheOp::Insert(p, _) => p == path,
    }
}

/// The index in `ops` of the last use that touched `path`, or -1 if none did.
pub open spec fn last_touch(cap: nat, ops: Seq<CacheOp>, path: Seq<char>) -> int
    decreases ops.len(),
{
    if ops.len() == 0 {
        -1
    } else if touches(replay(cap, ops.drop_last()), ops.last(), path) {
        ops.len() - 1
    } else {
        last_touch(cap, ops.drop_last(), path)
    }
}

/// The entries stand in the order of their last use, the latest first.
pub open spec fn ordered_by_use(cap: nat, ops: Seq<CacheOp>, m: CacheModel) -> bool {
    &&& forall|i: int| 0 <= i < m.len() ==> 0 <= last_touch(cap, ops, #[trigger] m[i].0)
    &&& forall|i: int, j: int|
        0 <= i < j < m.len() ==> last_touch(cap, ops, #[trigger] m[i].0) > last_touch(
            cap,
            ops,
            #[trigger] m[j].0,
        )
}

proof fn lemma_last_touch_bound(cap: nat, ops: Seq<CacheOp>, path: Seq<char>)
    ensures
        -1 <= last_touch(cap, ops, path) < ops.len(),
    decreases ops.len(),
{
    if ops.len() > 0 {
        lemma_last_touch_bound(cap, ops.drop_last(), path);
    }
}

/// Whatever the history of lookups and insertions, the cache never holds
/// more than its capacity, holds no path twice, and keeps its entries in the
/// order of their last use, so that the last entry is the one least recently
/// touched.
pub proof fn lemma_history(cap: nat, ops: Seq<CacheOp>)
    requires
        cap >= 1,
    ensures
        well_formed(replay(cap, ops), cap),
        ordered_by_use(cap, ops, replay(cap, ops)),
    decreases ops.len(),
{
    if ops.len() > 0 {
        let earlier = ops.drop_last();
        let n = ops.len() - 1;
        let m = replay(cap, earlier);
        let after = replay(cap, ops);
        lemma_history(cap, earlier);
        assert forall|path: Seq<char>| last_touch(cap, earlier, path) < n by {
            lemma_last_touch_bound(cap, earlier, path);
        }
        match ops.last() {
            CacheOp::Get(path) => {
                lemma_get_keeps(m, cap, path);
                if holds(m, path) {
                    let p = position(m, path);
                    assert forall|i: int| 0 < i < after.len() implies #[trigger] after[i]
                        == m[if i - 1 < p {
                        i - 1
                    } else {
                        i
                    }] && after[i].0 != path by {
                        let i0 = if i - 1 < p { i - 1 } else { i };
                        assert(after[i] == m.remove(p)[i - 1]);
                        assert(after[i] == m[i0]);
                        if i0 < p {
                            assert(m[i0].0 != m[p].0);
                        } else {
                            assert(m[p].0 != m[i0].0);
                        }
                    }
                    assert(after[0] == m[p]);
                    assert(ordered_by_use(cap, ops, after));
                } else {
                    assert(ordered_by_use(cap, ops, after));
                }
            },
            CacheOp::Insert(path, thumbnail) => {
                lemma_insert_keeps(m, cap, path, thumbnail);
                let e = after_eviction(m, cap);
                lemma_eviction(m, cap);
                lemma_without(e, path);
                let w = without(e, path);
                assert forall|i: int| 0 < i < after.len() implies #[trigger] after[i].0 != path
                    && exists|i0: int|
                    0 <= i0 < m.len() && after[i] == m[i0] && survivor_index(
                        holds(e, path),
                        position(e, path),
                        i,
                        i0,
                    ) by {
                    assert(after[i] == w[i - 1]);
                    if holds(e, path) {
                        let p = position(e, path);
                        let i0 = if i - 1 < p { i - 1 } else { i };
                        assert(w[i - 1] == e[i0]);
                        assert(e[i0] == m[i0]);
                        if i0 < p {
                            assert(e[i0].0 != e[p].0);
                        } else {
                            assert(e[p].0 != e[i0].0);
                        }
                        assert(survivor_index(true, p, i, i0));
                    } else {
                        assert(w[i - 1] == m[i - 1]);
                        assert(survivor_index(false, position(e, path), i, i - 1));
                    }
                }
                assert(after[0].0 == path);
                assert forall|i: int, j: int| 0 <= i < j < after.len() implies last_touch(
                    cap,
                    ops,
                    #[trigger] after[i].0,
                ) > last_touch(cap, ops, #[trigger] after[j].0) by {
                    let j0 = choose|j0: int|
                        0 <= j0 < m.len() && after[j] == m[j0] && survivor_index(
                            holds(e, path),
                            position(e, path),
                            j,
                            j0,
                        );
                    if i > 0 {
                        let i0 = choose|i0: int|
                            0 <= i0 < m.len() && after[i] == m[i0] && survivor_index(
                                holds(e, path),
                                position(e, path),
                                i,
                                i0,
                            );
                        assert(i0 < j0);
                    }
                }
                assert forall|i: int| 0 <= i < after.len() implies 0 <= last_touch(
                    cap,
                    ops,
                    #[trigger] after[i].0,
                ) by {
                    if i > 0 {
                        let i0 = choose|i0: int|
                            0 <= i0 < m.len() && after[i] == m[i0] && survivor_index(
                                holds(e, path),
                                position(e, path),
                                i,
                                i0,
                            );
                    }
                }
            },
        }
    } else {
        assert(replay(cap, ops) =~= Seq::empty());
    }
}

/// How the index `i` of a surviving entry after an insertion relates to the
/// index `i0` it had before: one to the right, or in place where the entry
/// of the same path was taken out before it.
pub open spec fn survivor_index(replaced: bool, p: int, i: int, i0: int) -> bool {
    if replaced && i - 1 >= p {
        i0 == i
    } else {
        i0 == i - 1
    }
}

/// When an insertion into a full cache evicts, the entry that goes is the
/// one that was touched least recently: every other cached path was touched
/// after it.
pub proof fn lemma_evicts_least_recent(
    cap: nat,
    ops: Seq<CacheOp>,
    path: Seq<char>,
    thumbnail: ThumbnailView,
)
    requires
        cap >= 1,
        replay(cap, ops).len() >= cap,
    ensures
        ({
            let m = replay(cap, ops);
            let victim = m.last().0;
            let after = replay(cap, ops.push(CacheOp::Insert(path, thumbnail)));
            &&& after.len() <= cap
            &&& victim != path ==> !holds(after, victim)
            &&& forall|other: Seq<char>|
                holds(m, other) && other != victim ==> last_touch(cap, ops, other) > last_touch(
                    cap,
                    ops,
                    victim,
                )
            &&& forall|other: Seq<char>|
                holds(m, other) && other != victim ==> holds(after, other)
        }),
{
    let m = replay(cap, ops);
    let victim = m.last().0;
    let longer = ops.push(CacheOp::Insert(path, thumbnail));
    assert(longer.drop_last() =~= ops);
    let after = replay(cap, longer);
    assert(after == after_insert(m, cap, path, thumbnail));
    lemma_history(cap, ops);
    lemma_history(cap, longer);
    let e = after_eviction(m, cap);
    assert(e == m.drop_last());
    lemma_eviction(m, cap);
    lemma_without(e, path);
    lemma_insert_keeps(m, cap, path, thumbnail);
    if holds(e, victim) {
        let k = position(e, victim);
        assert(e[k] == m[k]);
        assert(m[k].0 != m[m.len() - 1].0);
    }
    assert forall|other: Seq<char>| holds(m, other) && other != victim implies last_touch(
        cap,
        ops,
        other,
    ) > last_touch(cap, ops, victim) && holds(after, other) by {
        let k = position(m, other);
        assert(k < m.len() - 1);
        assert(m[k].0 == other);
        assert(e[k] == m[k]);
        lemma_position(e, k);
        if other == path {
            assert(after[0].0 == path);
        } else {
            assert(cached(after, other) == cached(e, other));
        }
    }
    if victim != path && holds(after, victim) {
        assert(cached(after, victim) == cached(e, victim));
    }
}

/// A failed decode is not remembered: the cache is as it was, the path is
/// still absent, and a later decode that succeeds is stored as if the
/// failure had never been.
pub proof fn lemma_failure_not_cached(
    m: CacheModel,
    cap: nat,
    path: Seq<char>,
    thumbnail: ThumbnailView,
)
    requires
        well_formed(m, cap),
        cap >= 1,
        !holds(m, path),
    ensures
        after_decode(m, cap, path, None) == m,
        cached(after_decode(m, cap, path, None), path) is None,
        after_decode(after_decode(m, cap, path, None), cap, path, Some(thumbnail))
            == after_insert(m, cap, path, thumbnail),
        cached(after_insert(m, cap, path, thumbnail), path) == Some(thumbnail),
{
    lemma_insert_keeps(m, cap, path, thumbnail);
}

} // verus!
