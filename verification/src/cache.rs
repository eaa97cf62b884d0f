//! A least-recently-used cache of thumbnails, keyed by file path.
//!
//! The cache is described by a sequence of `(path, thumbnail)` pairs in which
//! the most recently used pair stands first and no path occurs twice. Every
//! operation is stated as a function on that sequence.
//!
//! The pairs are kept in a deque in that order, so that the newest is
//! pushed at the front and the oldest taken from the back. A lookup walks
//! the deque, which never holds more than `CACHE_SIZE` pairs.

use vstd::prelude::*;
use std::collections::VecDeque;
use crate::text::same_text;
use crate::thumbnail::{Thumbnail, ThumbnailView};

verus! {

/// The number of thumbnails the cache holds at most.
pub const CACHE_SIZE: usize = 100;

/// The cache as a mathematical value: paths with their thumbnails, the most
/// recently used first.
pub type CacheModel = Seq<(Seq<char>, ThumbnailView)>;

/// Some entry of `m` belongs to `path`.
pub open spec fn holds(m: CacheModel, path: Seq<char>) -> bool {
    exists|i: int| 0 <= i < m.len() && (#[trigger] m[i]).0 == path
}

/// Where `path` stands in `m`, if `m` holds it.
pub open spec fn position(m: CacheModel, path: Seq<char>) -> int {
    choose|i: int| 0 <= i < m.len() && (#[trigger] m[i]).0 == path
}

/// The thumbnail cached for `path`, if there is one.
pub open spec fn cached(m: CacheModel, path: Seq<char>) -> Option<ThumbnailView> {
    if holds(m, path) {
        Some(m[position(m, path)].1)
    } else {
        None
    }
}

/// No path occurs twice.
pub open spec fn distinct_paths(m: CacheModel) -> bool {
    forall|i: int, j: int| 0 <= i < j < m.len() ==> (#[trigger] m[i]).0 != (#[trigger] m[j]).0
}

/// A cache of at most `cap` entries, no path twice.
pub open spec fn well_formed(m: CacheModel, cap: nat) -> bool {
    m.len() <= cap && distinct_paths(m)
}

/// The entry at `i` moved to the front, the others keeping their order.
pub open spec fn promote(m: CacheModel, i: int) -> CacheModel {
    seq![m[i]] + m.remove(i)
}

/// The cache after a lookup of `path`: a hit moves the entry to the front,
/// a miss changes nothing.
pub open spec fn after_get(m: CacheModel, path: Seq<char>) -> CacheModel {
    if holds(m, path) {
        promote(m, position(m, path))
    } else {
        m
    }
}

/// `m` without the entry of `path`.
pub open spec fn without(m: CacheModel, path: Seq<char>) -> CacheModel {
    if holds(m, path) {
        m.remove(position(m, path))
    } else {
        m
    }
}

/// A cache that is full gives up its last entry, the least recently used one.
pub open spec fn after_eviction(m: CacheModel, cap: nat) -> CacheModel {
    if m.len() >= cap && m.len() > 0 {
        m.drop_last()
    } else {
        m
    }
}

/// The cache after `thumbnail` was stored under `path`: a full cache first
/// evicts, then the new pair replaces any older one of the same path and
/// stands at the front.
pub open spec fn after_insert(
    m: CacheModel,
    cap: nat,
    path: Seq<char>,
    thumbnail: ThumbnailView,
) -> CacheModel {
    seq![(path, thumbnail)] + without(after_eviction(m, cap), path)
}

/// The cache after a miss on `path` was answered by a decoder: what it
/// produced is stored, a failure leaves no trace.
pub open spec fn after_decode(
    m: CacheModel,
    cap: nat,
    path: Seq<char>,
    decoded: Option<ThumbnailView>,
) -> CacheModel {
    match decoded {
        Some(thumbnail) => after_insert(m, cap, path, thumbnail),
        None => m,
    }
}

/// In a cache without repeated paths an entry is found where it stands.
pub proof fn lemma_position(m: CacheModel, i: int)
    requires
        distinct_paths(m),
        0 <= i < m.len(),
    ensures
        holds(m, m[i].0),
        position(m, m[i].0) == i,
        cached(m, m[i].0) == Some(m[i].1),
{
    let p = position(m, m[i].0);
    assert(m[p].0 == m[i].0);
    if p < i {
        assert(m[p].0 != m[i].0);
    } else if i < p {
        assert(m[i].0 != m[p].0);
    }
}

/// Removing an entry leaves the paths distinct, and the removed path absent.
pub proof fn lemma_without(m: CacheModel, path: Seq<char>)
    requires
        distinct_paths(m),
    ensures
        distinct_paths(without(m, path)),
        !holds(without(m, path), path),
        without(m, path).len() <= m.len(),
        holds(m, path) ==> without(m, path).len() == m.len() - 1,
        forall|other: Seq<char>|
            other != path ==> (holds(without(m, path), other) <==> holds(m, other)),
        forall|other: Seq<char>|
            other != path ==> cached(without(m, path), other) == cached(m, other),
{
    let w = without(m, path);
    if holds(m, path) {
        let p = position(m, path);
        assert forall|i: int, j: int| 0 <= i < j < w.len() implies (#[trigger] w[i]).0 != (
        #[trigger] w[j]).0 by {
            let i0 = if i < p { i } else { i + 1 };
            let j0 = if j < p { j } else { j + 1 };
            assert(w[i] == m[i0]);
            assert(w[j] == m[j0]);
        }
        if holds(w, path) {
            let q = position(w, path);
            let q0 = if q < p { q } else { q + 1 };
            assert(w[q] == m[q0]);
            lemma_position(m, q0);
        }
        assert forall|other: Seq<char>| other != path implies (holds(w, other) <==> holds(
            m,
            other,
        )) && cached(w, other) == cached(m, other) by {
            if holds(m, other) {
                let k = position(m, other);
                let k1 = if k < p { k } else { k - 1 };
                assert(w[k1] == m[k]);
                lemma_position(w, k1);
            }
            if holds(w, other) {
                let k = position(w, other);
                let k0 = if k < p { k } else { k + 1 };
                assert(w[k] == m[k0]);
                lemma_position(m, k0);
            }
        }
    }
}

/// Eviction takes the last entry at most: the others stay where they are,
/// and their paths stay distinct.
pub proof fn lemma_eviction(m: CacheModel, cap: nat)
    requires
        distinct_paths(m),
    ensures
        distinct_paths(after_eviction(m, cap)),
        after_eviction(m, cap).len() <= m.len(),
        cap >= 1 && m.len() <= cap ==> after_eviction(m, cap).len() < cap,
        forall|i: int|
            0 <= i < after_eviction(m, cap).len() ==> (#[trigger] after_eviction(m, cap)[i])
                == m[i],
{
    let e = after_eviction(m, cap);
    assert forall|i: int, j: int| 0 <= i < j < e.len() implies (#[trigger] e[i]).0 != (
    #[trigger] e[j]).0 by {
        assert(e[i] == m[i]);
        assert(e[j] == m[j]);
    }
}

/// A lookup keeps the cache well formed and its contents: only the order changes.
pub proof fn lemma_get_keeps(m: CacheModel, cap: nat, path: Seq<char>)
    requires
        well_formed(m, cap),
    ensures
        well_formed(after_get(m, path), cap),
        after_get(m, path).len() == m.len(),
        forall|other: Seq<char>| cached(after_get(m, path), other) == cached(m, other),
        holds(m, path) ==> after_get(m, path)[0] == m[position(m, path)],
{
    let g = after_get(m, path);
    if holds(m, path) {
        let p = position(m, path);
        lemma_without(m, path);
        let w = without(m, path);
        assert(g =~= seq![m[p]] + w);
        assert forall|i: int, j: int| 0 <= i < j < g.len() implies (#[trigger] g[i]).0 != (
        #[trigger] g[j]).0 by {
            assert(g[j] == w[j - 1]);
            if i == 0 {
                assert(g[0] == m[p]);
            } else {
                assert(g[i] == w[i - 1]);
            }
        }
        assert forall|other: Seq<char>| cached(g, other) == cached(m, other) by {
            if other == path {
                assert(g[0].0 == path);
                lemma_position(g, 0);
            } else {
                if holds(w, other) {
                    let k = position(w, other);
                    assert(g[k + 1] == w[k]);
                    lemma_position(g, k + 1);
                }
                if holds(g, other) {
                    let k = position(g, other);
                    assert(g[k] == w[k - 1]);
                    lemma_position(w, k - 1);
                }
            }
        }
    }
}

/// Storing a thumbnail keeps the cache well formed; the new pair stands
/// first, and of the older entries exactly those go that the rule names:
/// the last one of a full cache and the one the new pair replaces.
pub proof fn lemma_insert_keeps(
    m: CacheModel,
    cap: nat,
    path: Seq<char>,
    thumbnail: ThumbnailView,
)
    requires
        well_formed(m, cap),
        cap >= 1,
    ensures
        well_formed(after_insert(m, cap, path, thumbnail), cap),
        after_insert(m, cap, path, thumbnail)[0] == (path, thumbnail),
        cached(after_insert(m, cap, path, thumbnail), path) == Some(thumbnail),
        forall|other: Seq<char>|
            other != path ==> cached(after_insert(m, cap, path, thumbnail), other) == cached(
                after_eviction(m, cap),
                other,
            ),
{
    let e = after_eviction(m, cap);
    lemma_eviction(m, cap);
    lemma_without(e, path);
    let w = without(e, path);
    let r = after_insert(m, cap, path, thumbnail);
    assert forall|i: int, j: int| 0 <= i < j < r.len() implies (#[trigger] r[i]).0 != (
    #[trigger] r[j]).0 by {
        assert(r[j] == w[j - 1]);
        if i > 0 {
            assert(r[i] == w[i - 1]);
        }
    }
    lemma_position(r, 0);
    assert forall|other: Seq<char>| other != path implies cached(r, other) == cached(
        e,
        other,
    ) by {
        if holds(w, other) {
            let k = position(w, other);
            assert(r[k + 1] == w[k]);
            lemma_position(r, k + 1);
        }
        if holds(r, other) {
            let k = position(r, other);
            assert(r[k] == w[k - 1]);
            lemma_position(w, k - 1);
        }
    }
}

struct CacheEntry {
    path: String,
    thumbnail: Thumbnail,
}

/// What a list of entries stands for.
spec fn model_of(entries: Seq<CacheEntry>) -> CacheModel {
    Seq::new(entries.len(), |i: int| (entries[i].path@, entries[i].thumbnail@))
}

/// Where `path` stands among `entries`.
fn find_in(entries: &VecDeque<CacheEntry>, path: &str) -> (found: Option<usize>)
    requires
        distinct_paths(model_of(entries@)),
    ensures
        match found {
            Some(i) => {
                &&& i < entries@.len()
                &&& model_of(entries@)[i as int].0 == path@
                &&& holds(model_of(entries@), path@)
                &&& position(model_of(entries@), path@) == i
            },
            None => !holds(model_of(entries@), path@),
        },
{
    let mut i: usize = 0;
    while i < entries.len()
        invariant
            i <= entries.len(),
            forall|k: int| 0 <= k < i ==> (#[trigger] model_of(entries@)[k]).0 != path@,
            distinct_paths(model_of(entries@)),
        decreases entries.len() - i,
    {
        if same_text(entries[i].path.as_str(), path) {
            proof {
                lemma_position(model_of(entries@), i as int);
            }
            return Some(i);
        }
        i += 1;
    }
    None
}

/// A cache of decoded thumbnails that forgets the least recently used one
/// when it is full.
pub struct ImageCache {
    /// The most recently used entry at the front.
    entries: VecDeque<CacheEntry>,
}

impl ImageCache {
    #[verifier::type_invariant]
    spec fn inv(&self) -> bool {
        well_formed(model_of(self.entries@), CACHE_SIZE as nat)
    }

    /// The cached pairs, the most recently used first.
    pub closed spec fn view(&self) -> CacheModel {
        model_of(self.entries@)
    }

    /// An empty cache.
    pub fn new() -> (cache: Self)
        ensures
            cache@ == Seq::<(Seq<char>, ThumbnailView)>::empty(),
    {
        let cache = ImageCache { entries: VecDeque::new() };
        assert(cache@ =~= Seq::<(Seq<char>, ThumbnailView)>::empty());
        cache
    }

    /// The number of cached thumbnails.
    pub fn len(&self) -> (n: usize)
        ensures
            n == self@.len(),
            n <= CACHE_SIZE,
            well_formed(self@, CACHE_SIZE as nat),
    {
        proof {
            use_type_invariant(self);
        }
        self.entries.len()
    }

    /// Whether a thumbnail is cached for `path`. The order of use is not touched.
    pub fn contains(&self, path: &str) -> (found: bool)
        ensures
            found == holds(self@, path@),
    {
        self.find(path).is_some()
    }

    fn find(&self, path: &str) -> (found: Option<usize>)
        ensures
            match found {
                Some(i) => i < self@.len() && self@[i as int].0 == path@ && holds(self@, path@)
                    && position(self@, path@) == i,
                None => !holds(self@, path@),
            },
    {
        proof {
            use_type_invariant(self);
        }
        find_in(&self.entries, path)
    }

    /// Looks `path` up. A hit returns a copy of the thumbnail and makes the
    /// entry the most recently used one; a miss returns nothing and changes
    /// nothing.
    pub fn get(&mut self, path: &str) -> (found: Option<Thumbnail>)
        ensures
            final(self)@ == after_get(old(self)@, path@),
            match found {
                Some(thumbnail) => cached(old(self)@, path@) == Some(thumbnail@),
                None => cached(old(self)@, path@) is None,
            },
            well_formed(final(self)@, CACHE_SIZE as nat),
    {
        proof {
            use_type_invariant(&*self);
            lemma_get_keeps(self@, CACHE_SIZE as nat, path@);
        }
        match self.find(path) {
            None => None,
            Some(i) => {
                let ghost before = self.entries@;
                let copy = self.entries[i].thumbnail.clone();
                if i > 0 {
                    let ghost moved = before.remove(i as int).insert(0, before[i as int]);
                    proof {
                        assert(model_of(before.remove(i as int)) =~= without(
                            model_of(before),
                            path@,
                        ));
                        lemma_without(model_of(before), path@);
                        assert(model_of(moved) =~= after_get(model_of(before), path@));
                    }
                    let mut entries: VecDeque<CacheEntry> = VecDeque::new();
                    core::mem::swap(&mut self.entries, &mut entries);
                    match entries.remove(i) {
                        Some(entry) => {
                            assert(seq![entry] + entries@ =~= moved);
                            entries.push_front(entry);
                        },
                        None => {},
                    }
                    self.entries = entries;
                } else {
                    assert(after_get(self@, path@) =~= self@);
                }
                Some(copy)
            },
        }
    }

    /// Stores `thumbnail` under `path` as the most recently used entry. A
    /// full cache first gives up its least recently used entry; an older
    /// thumbnail of the same path is replaced.
    pub fn insert(&mut self, path: String, thumbnail: Thumbnail)
        ensures
            final(self)@ == after_insert(old(self)@, CACHE_SIZE as nat, path@, thumbnail@),
            well_formed(final(self)@, CACHE_SIZE as nat),
    {
        proof {
            use_type_invariant(&*self);
            lemma_insert_keeps(self@, CACHE_SIZE as nat, path@, thumbnail@);
        }
        let ghost before = model_of(self.entries@);
        let mut entries: VecDeque<CacheEntry> = VecDeque::new();
        core::mem::swap(&mut self.entries, &mut entries);
        if entries.len() >= CACHE_SIZE {
            proof {
                assert(model_of(entries@.drop_last()) =~= after_eviction(
                    before,
                    CACHE_SIZE as nat,
                ));
            }
            entries.pop_back();
        }
        let ghost evicted = model_of(entries@);
        assert(evicted == after_eviction(before, CACHE_SIZE as nat));
        proof {
            lemma_eviction(before, CACHE_SIZE as nat);
            lemma_without(evicted, path@);
        }
        match find_in(&entries, path.as_str()) {
            Some(i) => {
                proof {
                    assert(model_of(entries@.remove(i as int)) =~= without(evicted, path@));
                }
                entries.remove(i);
            },
            None => {},
        }
        let ghost kept = entries@;
        assert(model_of(kept) == without(evicted, path@));
        let entry = CacheEntry { path, thumbnail };
        proof {
            assert(model_of(kept.insert(0, entry)) =~= after_insert(
                before,
                CACHE_SIZE as nat,
                entry.path@,
                entry.thumbnail@,
            ));
        }
        assert(seq![entry] + kept =~= kept.insert(0, entry));
        entries.push_front(entry);
        self.entries = entries;
    }

    /// Finishes a lookup that missed: what the decoder produced for `path`
    /// is stored and handed back; after a failed decode the cache is as it
    /// was, so that the next lookup asks the decoder again.
    pub fn store_decoded(&mut self, path: &str, decoded: Option<Thumbnail>) -> (stored: Option<
        Thumbnail,
    >)
        ensures
            final(self)@ == after_decode(
                old(self)@,
                CACHE_SIZE as nat,
                path@,
                match decoded {
                    Some(thumbnail) => Some(thumbnail@),
                    None => None,
                },
            ),
            match decoded {
                Some(thumbnail) => stored matches Some(copy) && copy@ == thumbnail@,
                None => stored is None,
            },
            well_formed(final(self)@, CACHE_SIZE as nat),
    {
        proof {
            use_type_invariant(&*self);
        }
        match decoded {
            None => None,
            Some(thumbnail) => {
                let copy = thumbnail.clone();
                self.insert(path.to_owned(), thumbnail);
                Some(copy)
            },
        }
    }

    /// The cache-aside lookup: a cached thumbnail is returned and becomes the
    /// most recently used one; otherwise `decode` is asked for one no larger
    /// than `max_size` on its longer side, and what it produces is stored and
    /// returned. A failed decode returns nothing and is not remembered.
    pub fn get_or_insert<D: FnOnce(&str, i32) -> Option<Thumbnail>>(
        &mut self,
        path: &str,
        max_size: i32,
        decode: D,
    ) -> (found: Option<Thumbnail>)
        requires
            call_requires(decode, (path, max_size)),
        ensures
            well_formed(old(self)@, CACHE_SIZE as nat),
            well_formed(final(self)@, CACHE_SIZE as nat),
            holds(old(self)@, path@) ==> final(self)@ == after_get(old(self)@, path@) && (
            found matches Some(thumbnail) && cached(old(self)@, path@) == Some(thumbnail@)),
            !holds(old(self)@, path@) ==> exists|decoded: Option<Thumbnail>|
                {
                    &&& call_ensures(decode, (path, max_size), decoded)
                    &&& #[trigger] decode_settles(
                        old(self)@,
                        path@,
                        decoded,
                        final(self)@,
                        found,
                    )
                },
    {
        proof {
            use_type_invariant(&*self);
        }
        match self.get(path) {
            Some(thumbnail) => Some(thumbnail),
            None => {
                let decoded = decode(path, max_size);
                let ghost seen = decoded;
                let stored = self.store_decoded(path, decoded);
                assert(decode_settles(old(self)@, path@, seen, self@, stored));
                stored
            },
        }
    }
}

/// After a miss on `path` the decoder's answer `decoded` settles the lookup:
/// the cache `after` holds what was produced, and `found` is a copy of it.
pub open spec fn decode_settles(
    before: CacheModel,
    path: Seq<char>,
    decoded: Option<Thumbnail>,
    after: CacheModel,
    found: Option<Thumbnail>,
) -> bool {
    match decoded {
        Some(thumbnail) => {
            &&& after == after_insert(before, CACHE_SIZE as nat, path, thumbnail@)
            &&& found matches Some(copy) && copy@ == thumbnail@
        },
        None => after == before && found is None,
    }
}

} // verus!
