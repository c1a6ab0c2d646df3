//! Tile caches.
//!
//! `HgtCache` is the bounded, coalescing cache of decoded tiles: it holds up
//! to a configured number of entries in least-recently-used order, and it
//! tracks the cells whose load is in flight so that concurrent requests for
//! one cell share a single load. The cache itself is a sequential state
//! machine; the surrounding runtime serializes access to it and performs the
//! loads between the calls.
//!
//! `TileSetCache` is the plain unbounded map from a cell to its raw tile
//! bytes.

use crate::hgt::HGT;
use crate::types::CellKey;
use std::sync::Arc;
use vstd::prelude::*;

verus! {

/// Relies on alloc::sync::Arc::clone: the clone is a handle to the same
/// shared value.
#[verifier::external_body]
pub(crate) fn arc_clone(tile: &Arc<HGT>) -> (r: Arc<HGT>)
    ensures
        r == *tile,
{
    Arc::clone(tile)
}

/// `post` is `pre` with the element at one index holding `x` taken out.
pub open spec fn seq_removed<A>(pre: Seq<A>, post: Seq<A>, x: A) -> bool {
    exists|i: int|
        0 <= i < pre.len() && #[trigger] pre[i] == x && post == pre.remove(i)
}

/// What `get_or_begin_load` answers.
pub enum GetOrLoad {
    /// The tile is cached; here is a shared handle to it.
    Hit(Arc<HGT>),
    /// Nothing is cached or in flight: the caller must perform the load and
    /// then call `publish` or `fail_load`.
    Load,
    /// Another caller is already loading this cell: wait and ask again.
    Wait,
}

/// A bounded, coalescing, least-recently-used cache of decoded tiles.
///
/// Entries are kept in use order, least recent first. `pending` holds the
/// cells whose load is in flight.
pub struct HgtCache {
    capacity: usize,
    entries: Vec<(CellKey, Arc<HGT>)>,
    pending: Vec<CellKey>,
}

/// A hit for `k`: the stored handle `t` is returned, `k` moves to the
/// most-recently-used position, and nothing else changes.
pub open spec fn hit_step(pre: HgtCache, post: HgtCache, k: CellKey, t: Arc<HGT>) -> bool {
    &&& post.cap() == pre.cap()
    &&& post.pending_view() == pre.pending_view()
    &&& exists|i: int|
        0 <= i < pre.entries_view().len() && #[trigger] pre.entries_view()[i] == (k, t)
            && post.entries_view() == pre.entries_view().remove(i).push((k, t))
}

/// A miss for `k` with no load in flight: `k` is marked pending and the
/// caller is told to load; the entries do not change.
pub open spec fn start_step(pre: HgtCache, post: HgtCache, k: CellKey) -> bool {
    &&& !pre.cached(k)
    &&& !pre.is_pending(k)
    &&& post.cap() == pre.cap()
    &&& post.entries_view() == pre.entries_view()
    &&& post.pending_view() == pre.pending_view().push(k)
}

/// A completed load for `k` publishes `t`: `k` stops being pending and the
/// tile is stored at the most-recently-used position. When the cache is
/// already full the least-recently-used entry — the first one — is evicted;
/// a cache of capacity zero stores nothing.
pub open spec fn publish_step(pre: HgtCache, post: HgtCache, k: CellKey, t: Arc<HGT>) -> bool {
    &&& !pre.cached(k)
    &&& pre.is_pending(k)
    &&& post.cap() == pre.cap()
    &&& seq_removed(pre.pending_view(), post.pending_view(), k)
    &&& post.entries_view() == if pre.cap() == 0 {
        pre.entries_view()
    } else if pre.entries_view().len() < pre.cap() {
        pre.entries_view().push((k, t))
    } else {
        pre.entries_view().drop_first().push((k, t))
    }
}

/// A failed load for `k`: the pending slot is released and nothing is
/// stored, so a later request for `k` starts a fresh load.
pub open spec fn fail_step(pre: HgtCache, post: HgtCache, k: CellKey) -> bool {
    &&& pre.is_pending(k)
    &&& post.cap() == pre.cap()
    &&& post.entries_view() == pre.entries_view()
    &&& seq_removed(pre.pending_view(), post.pending_view(), k)
}

impl HgtCache {
    /// The stored entries, least recently used first.
    pub closed spec fn entries_view(self) -> Seq<(CellKey, Arc<HGT>)> {
        self.entries@
    }

    /// The cells whose load is in flight.
    pub closed spec fn pending_view(self) -> Seq<CellKey> {
        self.pending@
    }

    /// The configured maximum number of entries.
    pub closed spec fn cap(self) -> int {
        self.capacity as int
    }

    /// The cached cells, least recently used first.
    pub open spec fn order(self) -> Seq<CellKey> {
        self.entries_view().map_values(|e: (CellKey, Arc<HGT>)| e.0)
    }

    pub open spec fn cached(self, k: CellKey) -> bool {
        self.order().contains(k)
    }

    pub open spec fn is_pending(self, k: CellKey) -> bool {
        self.pending_view().contains(k)
    }

    pub open spec fn len_spec(self) -> int {
        self.entries_view().len() as int
    }

    /// Each cell is stored at most once, each pending cell is marked once,
    /// and the size never exceeds the capacity.
    pub open spec fn wf(self) -> bool {
        &&& self.order().no_duplicates()
        &&& self.pending_view().no_duplicates()
        &&& self.len_spec() <= self.cap()
    }

    /// An empty cache that will hold up to `capacity` tiles.
    pub fn new(capacity: usize) -> (r: HgtCache)
        ensures
            r.wf(),
            r.cap() == capacity,
            r.entries_view() == Seq::<(CellKey, Arc<HGT>)>::empty(),
            r.pending_view() == Seq::<CellKey>::empty(),
    {
        HgtCache { capacity, entries: Vec::new(), pending: Vec::new() }
    }

    pub fn capacity(&self) -> (r: usize)
        ensures
            r == self.cap(),
    {
        self.capacity
    }

    pub fn len(&self) -> (r: usize)
        ensures
            r == self.len_spec(),
    {
        self.entries.len()
    }

    /// Whether a tile for `key` is cached.
    pub fn contains(&self, key: CellKey) -> (r: bool)
        ensures
            r == self.cached(key),
    {
        match self.find_entry(key) {
            Some(i) => {
                proof {
                    assert(self.order()[i as int] == key);
                }
                true
            },
            None => false,
        }
    }

    /// Whether a load for `key` is in flight.
    pub fn pending_contains(&self, key: CellKey) -> (r: bool)
        ensures
            r == self.is_pending(key),
    {
        self.find_pending(key).is_some()
    }

    /// The index of `key` among the entries, together with the knowledge
    /// that it is the first one.
    fn find_entry(&self, key: CellKey) -> (r: Option<usize>)
        ensures
            match r {
                Some(i) => {
                    &&& i < self.entries_view().len()
                    &&& self.entries_view()[i as int].0 == key
                    &&& forall|j: int| 0 <= j < i ==> self.entries_view()[j].0 != key
                },
                None => !self.cached(key),
            },
    {
        let n = self.entries.len();
        let mut i: usize = 0;
        while i < n
            invariant
                i <= n,
                n == self.entries_view().len(),
                forall|j: int| 0 <= j < i ==> self.entries_view()[j].0 != key,
            decreases n - i,
        {
            if self.entries[i].0 == key {
                return Some(i);
            }
            i = i + 1;
        }
        proof {
            assert(forall|j: int|
                0 <= j < self.order().len() ==> self.order()[j] != key);
        }
        None
    }

    /// The index of `key` among the pending cells.
    fn find_pending(&self, key: CellKey) -> (r: Option<usize>)
        ensures
            match r {
                Some(i) => {
                    &&& i < self.pending_view().len()
                    &&& self.pending_view()[i as int] == key
                },
                None => !self.is_pending(key),
            },
    {
        let n = self.pending.len();
        let mut i: usize = 0;
        while i < n
            invariant
                i <= n,
                n == self.pending_view().len(),
                forall|j: int| 0 <= j < i ==> self.pending_view()[j] != key,
            decreases n - i,
        {
            if self.pending[i] == key {
                return Some(i);
            }
            i = i + 1;
        }
        None
    }

    /// One `get_or_load` decision. A cached cell is a `Hit` and is promoted
    /// to most recently used; a cell with a load in flight answers `Wait`;
    /// otherwise the cell becomes pending and the caller is told to `Load`.
    ///
    /// At most one caller is ever told to load a given cell: a load answer
    /// marks the cell pending, and a pending cell never answers `Load` again
    /// until `publish` or `fail_load` releases it.
    pub fn get_or_begin_load(&mut self, key: CellKey) -> (r: GetOrLoad)
        requires
            old(self).wf(),
        ensures
            final(self).wf(),
            match r {
                GetOrLoad::Hit(t) => old(self).cached(key) && hit_step(
                    *old(self),
                    *final(self),
                    key,
                    t,
                ),
                GetOrLoad::Load => start_step(*old(self), *final(self), key),
                GetOrLoad::Wait => {
                    &&& !old(self).cached(key)
                    &&& old(self).is_pending(key)
                    &&& *final(self) == *old(self)
                },
            },
            old(self).cached(key) ==> r is Hit,
            !old(self).cached(key) && old(self).is_pending(key) ==> r is Wait,
            !old(self).cached(key) && !old(self).is_pending(key) ==> r is Load,
    {
        match self.find_entry(key) {
            Some(i) => {
                proof {
                    assert(old(self).order()[i as int] == key);
                }
                let entry = self.entries.remove(i);
                let tile = arc_clone(&entry.1);
                self.entries.push(entry);
                proof {
                    let pre = *old(self);
                    let post = *self;
                    assert(pre.entries_view()[i as int] == (key, tile));
                    assert(post.entries_view() == pre.entries_view().remove(i as int).push(
                        (key, tile),
                    ));
                    assert(hit_step(pre, post, key, tile));
                    lemma_promote_keeps_wf(pre, post, key, tile, i as int);
                }
                GetOrLoad::Hit(tile)
            },
            None => {
                match self.find_pending(key) {
                    Some(_) => GetOrLoad::Wait,
                    None => {
                        self.pending.push(key);
                        proof {
                            lemma_push_new_no_dup(old(self).pending_view(), key);
                        }
                        GetOrLoad::Load
                    },
                }
            },
        }
    }

    /// Publishes the tile a load produced: the pending slot for `key` is
    /// released and the tile is stored as most recently used, evicting the
    /// least-recently-used entry if the cache is full.
    pub fn publish(&mut self, key: CellKey, tile: Arc<HGT>)
        requires
            old(self).wf(),
            old(self).is_pending(key),
            !old(self).cached(key),
        ensures
            final(self).wf(),
            publish_step(*old(self), *final(self), key, tile),
    {
        let ghost pre = *old(self);
        let i = self.find_pending(key).unwrap();
        self.pending.remove(i);
        proof {
            lemma_remove_keeps_no_dup(pre.pending_view(), i as int);
            assert(seq_removed(pre.pending_view(), self.pending@, key));
        }
        if self.capacity == 0 {
            return ;
        }
        if self.entries.len() == self.capacity {
            self.entries.remove(0);
            proof {
                assert(self.entries@ =~= pre.entries_view().drop_first());
            }
        }
        let ghost mid = self.entries@;
        self.entries.push((key, tile));
        proof {
            let post = *self;
            assert(post.entries_view() == mid.push((key, tile)));
            lemma_store_keeps_wf(pre, post, key, tile);
        }
    }

    /// Releases the pending slot for `key` after a failed load. The error is
    /// not cached: nothing is stored, and the next request for `key` starts
    /// a fresh load.
    pub fn fail_load(&mut self, key: CellKey)
        requires
            old(self).wf(),
            old(self).is_pending(key),
        ensures
            final(self).wf(),
            fail_step(*old(self), *final(self), key),
    {
        let ghost pre = *old(self);
        let i = self.find_pending(key).unwrap();
        self.pending.remove(i);
        proof {
            lemma_remove_keeps_no_dup(pre.pending_view(), i as int);
            assert(seq_removed(pre.pending_view(), self.pending@, key));
        }
    }
}

/// Single flight: once a request has been told to load a cell, the cell is
/// pending, and no later request can be told to load it again before the
/// first load publishes or fails.
pub proof fn lemma_single_flight(s0: HgtCache, s1: HgtCache, k: CellKey)
    requires
        start_step(s0, s1, k),
    ensures
        s1.is_pending(k),
        forall|s2: HgtCache| !start_step(s1, s2, k),
{
    assert(s1.pending_view()[s0.pending_view().len() as int] == k);
}

/// Two hits for one cell, one after the other, hand out the same tile.
pub proof fn lemma_hit_idempotent(
    s0: HgtCache,
    s1: HgtCache,
    s2: HgtCache,
    k: CellKey,
    t1: Arc<HGT>,
    t2: Arc<HGT>,
)
    requires
        s0.wf(),
        hit_step(s0, s1, k, t1),
        hit_step(s1, s2, k, t2),
    ensures
        t1 == t2,
{
    let e0 = s0.entries_view();
    let i = choose|i: int|
        0 <= i < e0.len() && #[trigger] e0[i] == (k, t1) && s1.entries_view() == e0.remove(i).push(
            (k, t1),
        );
    let e1 = s1.entries_view();
    let j = choose|j: int|
        0 <= j < e1.len() && #[trigger] e1[j] == (k, t2) && s2.entries_view() == e1.remove(j).push(
            (k, t2),
        );
    e0.remove_ensures(i);
    if j < e1.len() - 1 {
        let j0 = if j < i {
            j
        } else {
            j + 1
        };
        assert(e1[j] == e0[j0]);
        assert(s0.order()[j0] == k && s0.order()[i] == k && j0 != i);
    }
}

/// A hit only promotes: the set of cached cells and the cache's size are
/// exactly what they were.
pub proof fn lemma_hit_preserves_contents(s0: HgtCache, s1: HgtCache, k: CellKey, t: Arc<HGT>)
    requires
        s0.wf(),
        hit_step(s0, s1, k, t),
    ensures
        s1.len_spec() == s0.len_spec(),
        forall|j: CellKey| #[trigger] s1.cached(j) <==> s0.cached(j),
{
    let e0 = s0.entries_view();
    let i = choose|i: int|
        0 <= i < e0.len() && #[trigger] e0[i] == (k, t) && s1.entries_view() == e0.remove(i).push(
            (k, t),
        );
    e0.remove_ensures(i);
    assert forall|j: CellKey| s1.cached(j) implies s0.cached(j) by {
        let q = choose|q: int| 0 <= q < s1.order().len() && s1.order()[q] == j;
        assert(s1.order()[q] == s1.entries_view()[q].0);
        if q == s1.order().len() - 1 {
            assert(s0.order()[i] == k);
        } else {
            let q0 = if q < i {
                q
            } else {
                q + 1
            };
            assert(s1.entries_view()[q] == e0[q0]);
            assert(s0.order()[q0] == j);
        }
    }
    assert forall|j: CellKey| s0.cached(j) implies s1.cached(j) by {
        let q = choose|q: int| 0 <= q < s0.order().len() && s0.order()[q] == j;
        assert(s0.order()[q] == e0[q].0);
        if q == i {
            assert(s1.order()[s1.order().len() - 1] == k);
        } else {
            let q1 = if q < i {
                q
            } else {
                q - 1
            };
            assert(s1.entries_view()[q1] == e0[q]);
            assert(s1.order()[q1] == j);
        }
    }
}

/// Every waiter observes the published tile: a hit that follows a publish
/// for the same cell hands out exactly the tile that was published.
pub proof fn lemma_publish_then_hit(
    s0: HgtCache,
    s1: HgtCache,
    s2: HgtCache,
    k: CellKey,
    t: Arc<HGT>,
    t2: Arc<HGT>,
)
    requires
        s0.wf(),
        s0.cap() >= 1,
        publish_step(s0, s1, k, t),
        hit_step(s1, s2, k, t2),
    ensures
        t2 == t,
{
    let e0 = s0.entries_view();
    let e1 = s1.entries_view();
    let j = choose|j: int|
        0 <= j < e1.len() && #[trigger] e1[j] == (k, t2) && s2.entries_view() == e1.remove(j).push(
            (k, t2),
        );
    if j < e1.len() - 1 {
        if e0.len() < s0.cap() {
            assert(e1[j] == e0[j]);
            assert(s0.order()[j] == k);
        } else {
            assert(e1[j] == e0.drop_first()[j]);
            assert(e0.drop_first()[j] == e0[j + 1]);
            assert(s0.order()[j + 1] == k);
        }
    }
}

/// A publish into a full cache evicts exactly the least-recently-used cell:
/// that cell leaves, the published cell is stored, and every other cached
/// cell stays.
pub proof fn lemma_evicts_only_lru(pre: HgtCache, post: HgtCache, k: CellKey, t: Arc<HGT>)
    requires
        pre.wf(),
        pre.cap() >= 1,
        pre.len_spec() == pre.cap(),
        publish_step(pre, post, k, t),
    ensures
        !post.cached(pre.order()[0]),
        post.cached(k),
        forall|j: CellKey| pre.cached(j) && j != pre.order()[0] ==> post.cached(j),
{
    let po = pre.order();
    let no = post.order();
    assert(no =~= po.drop_first().push(k)) by {
        assert forall|q: int| 0 <= q < no.len() implies no[q] == po.drop_first().push(k)[q] by {
            assert(no[q] == post.entries_view()[q].0);
            if q < no.len() - 1 {
                assert(post.entries_view()[q] == pre.entries_view().drop_first()[q]);
                assert(pre.entries_view().drop_first()[q] == pre.entries_view()[q + 1]);
            }
        }
    }
    assert(post.cached(k)) by {
        assert(no[no.len() - 1] == k);
    }
    assert(!post.cached(po[0])) by {
        assert(!pre.cached(k));
        assert(po.contains(po[0]));
        assert(po[0] != k);
        assert forall|q: int| 0 <= q < no.len() implies no[q] != po[0] by {
            if q < no.len() - 1 {
                assert(no[q] == po[q + 1]);
            }
        }
    }
    assert forall|j: CellKey| pre.cached(j) && j != po[0] implies post.cached(j) by {
        let q = choose|q: int| 0 <= q < po.len() && po[q] == j;
        assert(q != 0);
        assert(no[q - 1] == po[q]);
    }
}

/// A publish into a cache that still has room evicts nothing: every cached
/// cell stays, and the published cell is stored.
pub proof fn lemma_no_eviction_below_capacity(pre: HgtCache, post: HgtCache, k: CellKey, t: Arc<HGT>)
    requires
        pre.wf(),
        pre.len_spec() < pre.cap(),
        publish_step(pre, post, k, t),
    ensures
        post.cached(k),
        forall|j: CellKey| pre.cached(j) ==> post.cached(j),
{
    let po = pre.order();
    let no = post.order();
    assert(no =~= po.push(k)) by {
        assert forall|q: int| 0 <= q < no.len() implies no[q] == po.push(k)[q] by {
            assert(no[q] == post.entries_view()[q].0);
        }
    }
    assert(no[no.len() - 1] == k);
    assert forall|j: CellKey| pre.cached(j) implies post.cached(j) by {
        let q = choose|q: int| 0 <= q < po.len() && po[q] == j;
        assert(no[q] == po[q]);
    }
}

/// A failed load is not cached: after the pending slot is released the cell
/// is neither cached nor pending, so the next request for it starts a fresh
/// load rather than observing the error.
pub proof fn lemma_failure_not_cached(s0: HgtCache, s1: HgtCache, k: CellKey)
    requires
        s0.wf(),
        !s0.cached(k),
        fail_step(s0, s1, k),
    ensures
        !s1.cached(k),
        !s1.is_pending(k),
        s1.entries_view() == s0.entries_view(),
{
    let p0 = s0.pending_view();
    let i = choose|i: int| 0 <= i < p0.len() && #[trigger] p0[i] == k && s1.pending_view() == p0.remove(i);
    p0.remove_ensures(i);
    assert forall|j: int| 0 <= j < s1.pending_view().len() implies s1.pending_view()[j] != k by {
        let j0 = if j < i {
            j
        } else {
            j + 1
        };
        assert(s1.pending_view()[j] == p0[j0]);
        assert(j0 != i);
    }
}

/// The map that a key-value sequence holds, later entries overriding
/// earlier ones.
pub open spec fn assoc_map(s: Seq<((i32, i32), Vec<u8>)>) -> Map<(i32, i32), Seq<u8>>
    decreases s.len(),
{
    if s.len() == 0 {
        Map::empty()
    } else {
        assoc_map(s.drop_last()).insert(s.last().0, s.last().1@)
    }
}

/// An unbounded map from a cell — as the pair of its floored coordinates —
/// to the raw bytes of its tile.
pub struct TileSetCache {
    cache: Vec<((i32, i32), Vec<u8>)>,
}

impl View for TileSetCache {
    type V = Map<(i32, i32), Seq<u8>>;

    closed spec fn view(&self) -> Map<(i32, i32), Seq<u8>> {
        assoc_map(self.cache@)
    }
}

impl TileSetCache {
    /// An empty cache.
    pub fn new() -> (r: TileSetCache)
        ensures
            r@ == Map::<(i32, i32), Seq<u8>>::empty(),
    {
        TileSetCache { cache: Vec::new() }
    }

    /// A copy of the bytes stored for `key`, if any are.
    pub fn get(&self, key: &(i32, i32)) -> (r: Option<Vec<u8>>)
        ensures
            match r {
                Some(v) => self@.contains_key(*key) && v@ == self@[*key],
                None => !self@.contains_key(*key),
            },
    {
        let ghost s = self.cache@;
        let mut j = self.cache.len();
        proof {
            assert(s.take(j as int) =~= s);
        }
        while j > 0
            invariant
                j <= self.cache@.len(),
                s == self.cache@,
                self@.contains_key(*key) == assoc_map(s.take(j as int)).contains_key(*key),
                self@.contains_key(*key) ==> self@[*key] == assoc_map(s.take(j as int))[*key],
            decreases j,
        {
            j = j - 1;
            proof {
                assert(s.take(j + 1).drop_last() =~= s.take(j as int));
                assert(s.take(j + 1).last() == s[j as int]);
            }
            let entry_key = self.cache[j].0;
            if entry_key.0 == key.0 && entry_key.1 == key.1 {
                proof {
                    assert(s[j as int].0 == *key);
                }
                let v = self.cache[j].1.clone();
                proof {
                    assert(v@ =~= s[j as int].1@);
                }
                return Some(v);
            }
        }
        proof {
            assert(s.take(0) =~= Seq::<((i32, i32), Vec<u8>)>::empty());
        }
        None
    }

    /// Stores `value` for `key`, replacing what was stored before.
    pub fn insert(&mut self, key: (i32, i32), value: Vec<u8>)
        ensures
            final(self)@ == old(self)@.insert(key, value@),
    {
        self.cache.push((key, value));
        proof {
            assert(self.cache@.drop_last() =~= old(self).cache@);
            assert(self.cache@.last() == (key, value));
        }
    }
}

/// Removing one element of a duplicate-free sequence keeps it
/// duplicate-free.
proof fn lemma_remove_keeps_no_dup<A>(s: Seq<A>, i: int)
    requires
        s.no_duplicates(),
        0 <= i < s.len(),
    ensures
        s.remove(i).no_duplicates(),
{
    s.remove_ensures(i);
    let r = s.remove(i);
    assert forall|a: int, b: int|
        0 <= a < r.len() && 0 <= b < r.len() && a != b implies r[a] != r[b] by {
        let a0 = if a < i {
            a
        } else {
            a + 1
        };
        let b0 = if b < i {
            b
        } else {
            b + 1
        };
        assert(r[a] == s[a0] && r[b] == s[b0]);
    }
}

/// Appending an element that a duplicate-free sequence lacks keeps it
/// duplicate-free.
proof fn lemma_push_new_no_dup<A>(s: Seq<A>, x: A)
    requires
        s.no_duplicates(),
        !s.contains(x),
    ensures
        s.push(x).no_duplicates(),
{
    let p = s.push(x);
    assert forall|a: int, b: int|
        0 <= a < p.len() && 0 <= b < p.len() && a != b implies p[a] != p[b] by {
        if a < s.len() && b < s.len() {
            assert(p[a] == s[a] && p[b] == s[b]);
        } else if a < s.len() {
            assert(p[a] == s[a] && p[b] == x);
            assert(s[a] != x);
        } else {
            assert(p[a] == x && p[b] == s[b]);
            assert(s[b] != x);
        }
    }
}

/// A promotion keeps the cache well formed.
proof fn lemma_promote_keeps_wf(pre: HgtCache, post: HgtCache, k: CellKey, t: Arc<HGT>, i: int)
    requires
        pre.wf(),
        0 <= i < pre.entries_view().len(),
        pre.entries_view()[i] == (k, t),
        post.entries_view() == pre.entries_view().remove(i).push((k, t)),
        post.pending_view() == pre.pending_view(),
        post.cap() == pre.cap(),
    ensures
        post.wf(),
{
    let po = pre.order();
    let no = post.order();
    assert(po[i] == k);
    assert(no =~= po.remove(i).push(k)) by {
        pre.entries_view().remove_ensures(i);
        po.remove_ensures(i);
        assert forall|j: int| 0 <= j < no.len() implies no[j] == po.remove(i).push(k)[j] by {
            assert(no[j] == post.entries_view()[j].0);
        }
    }
    lemma_remove_keeps_no_dup(po, i);
    assert(!po.remove(i).contains(k)) by {
        po.remove_ensures(i);
        assert forall|j: int| 0 <= j < po.remove(i).len() implies po.remove(i)[j] != k by {
            let j0 = if j < i {
                j
            } else {
                j + 1
            };
            assert(po.remove(i)[j] == po[j0]);
            assert(j0 != i);
        }
    }
    lemma_push_new_no_dup(po.remove(i), k);
}

/// Storing a freshly loaded tile keeps the cache well formed.
proof fn lemma_store_keeps_wf(pre: HgtCache, post: HgtCache, k: CellKey, t: Arc<HGT>)
    requires
        pre.wf(),
        !pre.cached(k),
        post.cap() == pre.cap(),
        post.pending_view().no_duplicates(),
        post.entries_view() == if pre.cap() == 0 {
            pre.entries_view()
        } else if pre.entries_view().len() < pre.cap() {
            pre.entries_view().push((k, t))
        } else {
            pre.entries_view().drop_first().push((k, t))
        },
    ensures
        post.wf(),
{
    let po = pre.order();
    let no = post.order();
    if pre.cap() == 0 {
        assert(no =~= po);
    } else if pre.entries_view().len() < pre.cap() {
        assert(no =~= po.push(k)) by {
            assert forall|j: int| 0 <= j < no.len() implies no[j] == po.push(k)[j] by {
                assert(no[j] == post.entries_view()[j].0);
            }
        }
        lemma_push_new_no_dup(po, k);
    } else {
        let dropped = po.drop_first();
        assert(no =~= dropped.push(k)) by {
            assert forall|j: int| 0 <= j < no.len() implies no[j] == dropped.push(k)[j] by {
                assert(no[j] == post.entries_view()[j].0);
            }
        }
        assert(dropped.no_duplicates()) by {
            assert forall|a: int, b: int|
                0 <= a < dropped.len() && 0 <= b < dropped.len() && a != b implies dropped[a]
                != dropped[b] by {
                assert(dropped[a] == po[a + 1] && dropped[b] == po[b + 1]);
            }
        }
        assert(!dropped.contains(k)) by {
            assert forall|j: int| 0 <= j < dropped.len() implies dropped[j] != k by {
                assert(dropped[j] == po[j + 1]);
                assert(!po.contains(k));
            }
        }
        lemma_push_new_no_dup(dropped, k);
    }
}

} // verus!
