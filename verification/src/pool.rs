//! The pool: a bounded store of reference-counted cells, a free queue of
//! their indices, and the reservation arithmetic that ties capacity,
//! allocated cells and queued cells together.

use vstd::prelude::*;

use crate::entry::{Entry, OwnedEntry, Prc};
use crate::queue::{ring_bound, ring_len, ring_new, ring_pop, ring_push, ring_slots};

verus! {

/// A reset applied to a cell's payload when the cell returns to the free
/// queue. Implementors state in `cleared` how the payload after the reset
/// relates to the payload before it, and prove that `clear` meets that
/// relation.
pub trait ClearHook<T>: Sized {
    /// How a cleared payload relates to the payload it came from.
    spec fn cleared(&self, before: T, after: T) -> bool;

    /// Clear one payload before its cell is recycled.
    fn clear(&self, t: T) -> (r: T)
        ensures
            self.cleared(t, r),
    ;
}

/// The hook of a pool that clears nothing: payloads return to the free queue
/// exactly as their last holder left them.
pub struct NoHook;

impl<T> ClearHook<T> for NoHook {
    open spec fn cleared(&self, before: T, after: T) -> bool {
        after == before
    }

    fn clear(&self, t: T) -> (r: T) {
        t
    }
}

/// A stock hook for pools of strings: recycling truncates the payload to the
/// empty string.
pub struct ClearString;

impl ClearHook<String> for ClearString {
    open spec fn cleared(&self, before: String, after: String) -> bool {
        after@ == Seq::<char>::empty()
    }

    fn clear(&self, t: String) -> (r: String) {
        String::new()
    }
}

/// Configuration for the pool. Zero-valued heuristic thresholds stand for
/// defaults that are resolved from the capacity before the pool is built.
pub struct Config<H = NoHook> {
    /// Maximum number of cells the pool will ever hold at once.
    pub capacity: usize,
    /// Number of cells constructed eagerly when the pool is built.
    pub prealloc: usize,
    /// Master switch for the reclaim heuristic.
    pub auto_reclaim: bool,
    /// Length of a surplus-pull streak that triggers one reclaim step,
    /// when `auto_reclaim` is enabled. Zero stands for the default.
    pub surpluspull_threshold_for_reclaim: usize,
    /// Minimum queue length, after a pop, that makes that pop a surplus-pull,
    /// when `auto_reclaim` is enabled. Zero stands for the default.
    pub idle_threshold_for_surpluspull: usize,
    /// Optional reset applied to a payload each time its cell is recycled.
    pub clear_func: Option<H>,
    /// Whether the pull path runs the reclaim heuristic. Resolved from
    /// `auto_reclaim`, `prealloc` and `capacity` before the pool is built;
    /// any value set here is overwritten then.
    pub need_process_reclamation: bool,
}

/// The idle threshold that a zero configuration value stands for.
pub open spec fn resolved_idle_threshold(capacity: usize, given: usize) -> int {
    if given == 0 {
        if capacity / 20 < 1 {
            1
        } else {
            capacity as int / 20
        }
    } else {
        given as int
    }
}

/// The streak threshold that a zero configuration value stands for.
pub open spec fn resolved_surplus_threshold(capacity: usize, given: usize) -> int {
    if given == 0 {
        if capacity / 100 < 2 {
            2
        } else {
            capacity as int / 100
        }
    } else {
        given as int
    }
}

impl<H> Config<H> {
    /// Whether the pull path runs the reclaim heuristic: reclamation can make
    /// progress only when it is switched on and not every cell is
    /// preallocated.
    pub open spec fn reclaim_active(self) -> bool {
        self.need_process_reclamation
    }

    /// A post-processed configuration: thresholds resolved to at least one,
    /// and the reclaim switch consistent with the other fields.
    pub closed spec fn wf(self) -> bool {
        &&& self.idle_threshold_for_surpluspull >= 1
        &&& self.surpluspull_threshold_for_reclaim >= 1
        &&& self.need_process_reclamation == (self.auto_reclaim && self.prealloc
            != self.capacity)
    }

    /// Resolve zero-valued thresholds to their defaults and decide whether
    /// the reclaim heuristic runs.
    pub fn post_process(&mut self)
        ensures
            final(self).capacity == old(self).capacity,
            final(self).prealloc == old(self).prealloc,
            final(self).auto_reclaim == old(self).auto_reclaim,
            final(self).clear_func == old(self).clear_func,
            final(self).idle_threshold_for_surpluspull == resolved_idle_threshold(
                old(self).capacity,
                old(self).idle_threshold_for_surpluspull,
            ),
            final(self).surpluspull_threshold_for_reclaim == resolved_surplus_threshold(
                old(self).capacity,
                old(self).surpluspull_threshold_for_reclaim,
            ),
            final(self).reclaim_active() == (old(self).auto_reclaim && old(self).prealloc != old(
                self,
            ).capacity),
            final(self).wf(),
    {
        if self.idle_threshold_for_surpluspull == 0 {
            let base = self.capacity / 20;
            self.idle_threshold_for_surpluspull = if base < 1 {
                1
            } else {
                base
            };
        }
        if self.surpluspull_threshold_for_reclaim == 0 {
            let base = self.capacity / 100;
            self.surpluspull_threshold_for_reclaim = if base < 2 {
                2
            } else {
                base
            };
        }
        if self.auto_reclaim && self.prealloc != self.capacity {
            self.need_process_reclamation = true;
        } else {
            self.need_process_reclamation = false;
        }
    }
}

impl<H> Default for Config<H> {
    /// A configuration with the stock capacity, nothing preallocated, no
    /// hook, and the reclaim heuristic off.
    fn default() -> (r: Self)
        ensures
            r.capacity == 1024,
            r.prealloc == 0,
            r.auto_reclaim == false,
            r.surpluspull_threshold_for_reclaim == 0,
            r.idle_threshold_for_surpluspull == 0,
            r.clear_func is None,
            r.reclaim_active() == false,
    {
        Config {
            capacity: 1024,
            prealloc: 0,
            auto_reclaim: false,
            surpluspull_threshold_for_reclaim: 0,
            idle_threshold_for_surpluspull: 0,
            clear_func: None,
            need_process_reclamation: false,
        }
    }
}

/// How many slab slots hold a live cell.
spec fn n_some<T>(s: Seq<Option<Prc<T>>>) -> nat
    decreases s.len(),
{
    if s.len() == 0 {
        0
    } else {
        n_some(s.drop_last()) + (if s.last() is Some {
            1nat
        } else {
            0nat
        })
    }
}

broadcast proof fn lemma_n_some_push<T>(s: Seq<Option<Prc<T>>>, x: Option<Prc<T>>)
    ensures
        #[trigger] n_some(s.push(x)) == n_some(s) + (if x is Some {
            1nat
        } else {
            0nat
        }),
{
    assert(s.push(x).drop_last() =~= s);
    assert(s.push(x).last() == x);
}

broadcast proof fn lemma_n_some_update<T>(s: Seq<Option<Prc<T>>>, i: int, x: Option<Prc<T>>)
    requires
        0 <= i < s.len(),
    ensures
        #[trigger] n_some(s.update(i, x)) + (if s[i] is Some {
            1nat
        } else {
            0nat
        }) == n_some(s) + (if x is Some {
            1nat
        } else {
            0nat
        }),
    decreases s.len(),
{
    let t = s.update(i, x);
    if i == s.len() - 1 {
        assert(t.drop_last() =~= s.drop_last());
        assert(t.last() == x);
        assert(s.last() == s[i]);
    } else {
        assert(t.drop_last() =~= s.drop_last().update(i, x));
        assert(t.last() == s.last());
        lemma_n_some_update(s.drop_last(), i, x);
        assert(s.drop_last()[i] == s[i]);
    }
}

/// A sequence of distinct indices of live slots cannot outnumber the live
/// slots.
proof fn lemma_distinct_live_card<T>(s: Seq<Option<Prc<T>>>, q: Seq<usize>)
    requires
        q.no_duplicates(),
        forall|k: int|
            0 <= k < q.len() ==> (#[trigger] q[k]) < s.len() && s[q[k] as int] is Some,
    ensures
        q.len() <= n_some(s),
    decreases q.len(),
{
    if q.len() > 0 {
        let j = q.last();
        let t = s.update(j as int, None);
        let q2 = q.drop_last();
        assert(forall|k: int|
            0 <= k < q2.len() ==> (#[trigger] q2[k]) == q[k] && q2[k] != j);
        assert(forall|k: int|
            0 <= k < q2.len() ==> (#[trigger] q2[k]) < t.len() && t[q2[k] as int] is Some);
        lemma_distinct_live_card(t, q2);
        lemma_n_some_update(s, j as int, None);
    }
}

/// A pool of reusable cells.
///
/// The pool owns a slab of reference-counted cells and a bounded lock-free
/// ring holding the indices of the free ones. A pull pops an index or, when
/// the ring is empty and room remains, constructs a fresh cell; releasing the
/// last handle to a cell recycles its index into the ring. When
/// `auto_reclaim` is on, a long enough streak of surplus-pulls destroys one
/// surplus cell per pull. Dropping the pool drops the slab, and with it
/// every cell the pool still owns.
pub struct Pool<T: Default, H: ClearHook<T> = NoHook> {
    /// Configuration, immutable after construction.
    config: Config<H>,
    /// The slab: every cell the pool currently owns, live cells `Some`.
    slots: Vec<Option<Prc<T>>>,
    /// Free queue of slab indices whose cells have count zero.
    ring: crossbeam_queue::ArrayQueue<usize>,
    /// Slab indices whose cells were destroyed and may be reused.
    spare: Vec<usize>,
    /// Number of live cells (in the ring plus out on loan).
    allocated: usize,
    /// Current streak of consecutive surplus-pulls.
    surpluspulls: usize,
    /// Whether a cell beyond the preallocated set currently exists.
    additional_allocated: bool,
    /// How many payloads were ever constructed over the pool's lifetime.
    total_created: Ghost<nat>,
}

impl<T: Default, H: ClearHook<T>> Pool<T, H> {
    /// The pool's configuration after post-processing.
    pub closed spec fn cfg(self) -> Config<H> {
        self.config
    }

    /// Upper bound on the number of live cells.
    pub open spec fn cap(self) -> int {
        self.cfg().capacity as int
    }

    /// Number of live cells: in the free queue plus out on loan.
    pub closed spec fn n_allocated(self) -> int {
        self.allocated as int
    }

    /// The slab indices waiting in the free queue, next to be pulled first.
    pub closed spec fn freelist(self) -> Seq<usize> {
        ring_slots(self.ring)
    }

    /// Number of cells waiting in the free queue.
    pub open spec fn n_free(self) -> int {
        self.freelist().len() as int
    }

    /// Number of cells out on loan.
    pub open spec fn n_in_use(self) -> int {
        self.n_allocated() - self.n_free()
    }

    /// Number of pulls that would succeed without an intervening release:
    /// queued cells plus room for fresh ones.
    pub open spec fn n_available(self) -> int {
        self.cap() - self.n_in_use()
    }

    /// Whether slab index `i` holds a live cell.
    pub closed spec fn live(self, i: int) -> bool {
        0 <= i < self.slots@.len() && self.slots@[i] is Some
    }

    /// Reference count of the live cell at slab index `i`.
    pub closed spec fn cell_count(self, i: int) -> int {
        (self.slots@[i]->Some_0).spec_count() as int
    }

    /// Payload of the live cell at slab index `i`.
    pub closed spec fn cell_data(self, i: int) -> T {
        (self.slots@[i]->Some_0).spec_data()
    }

    /// Current streak of consecutive surplus-pulls.
    pub closed spec fn streak(self) -> int {
        self.surpluspulls as int
    }

    /// Whether a cell beyond the preallocated set currently exists.
    pub closed spec fn extra_allocated(self) -> bool {
        self.additional_allocated
    }

    /// How many payloads were ever constructed over the pool's lifetime.
    pub closed spec fn created(self) -> nat {
        self.total_created@
    }

    /// A handle is valid while it refers to a live cell with at least one
    /// outstanding reference.
    pub open spec fn valid_handle(self, i: int) -> bool {
        self.live(i) && self.cell_count(i) >= 1
    }

    /// The pool's invariant.
    pub closed spec fn wf(self) -> bool {
        let s = self.slots@;
        let q = self.freelist();
        &&& self.config.wf()
        &&& self.config.prealloc <= self.config.capacity
        &&& ring_bound(self.ring) == (if self.config.capacity < 1 {
            1int
        } else {
            self.config.capacity as int
        })
        &&& self.allocated == n_some(s)
        &&& self.allocated <= self.config.capacity
        &&& q.no_duplicates()
        &&& forall|k: int|
            0 <= k < q.len() ==> (#[trigger] q[k]) < s.len() && s[q[k] as int] is Some && (
            s[q[k] as int]->Some_0).spec_count() == 0
        &&& q.len() <= self.allocated
        &&& self.spare@.no_duplicates()
        &&& forall|k: int|
            0 <= k < self.spare@.len() ==> (#[trigger] self.spare@[k]) < s.len() && s[self.spare@[k] as int] is None
        &&& s.len() == self.allocated + self.spare@.len()
        &&& self.total_created@ >= self.allocated
        &&& (!self.config.need_process_reclamation ==> self.total_created@ == self.allocated)
    }

    /// Create a pool from a configuration. Thresholds are resolved, the free
    /// queue is created with room for every cell the pool may hold (at least
    /// one slot, so that a degenerate zero-capacity pool is constructible),
    /// and `prealloc` zero-count cells are built and queued.
    pub fn with_config(config: Config<H>) -> (p: Self)
        requires
            config.prealloc <= config.capacity,
            config.capacity <= usize::MAX / 2,
        ensures
            p.wf(),
            p.cap() == config.capacity,
            p.n_allocated() == config.prealloc,
            p.n_free() == config.prealloc,
            p.created() == config.prealloc,
            p.streak() == 0,
            p.extra_allocated() == false,
            p.cfg().capacity == config.capacity,
            p.cfg().prealloc == config.prealloc,
            p.cfg().auto_reclaim == config.auto_reclaim,
            p.cfg().clear_func == config.clear_func,
            p.cfg().idle_threshold_for_surpluspull == resolved_idle_threshold(
                config.capacity,
                config.idle_threshold_for_surpluspull,
            ),
            p.cfg().surpluspull_threshold_for_reclaim == resolved_surplus_threshold(
                config.capacity,
                config.surpluspull_threshold_for_reclaim,
            ),
            p.cfg().reclaim_active() == (config.auto_reclaim && config.prealloc
                != config.capacity),
            forall|k: int|
                0 <= k < p.freelist().len() ==> call_ensures(
                    T::default,
                    (),
                    p.cell_data(#[trigger] p.freelist()[k] as int),
                ),
    {
        let mut config = config;
        config.post_process();
        let prealloc = config.prealloc;
        let ring_cap = if config.capacity < 1 {
            1
        } else {
            config.capacity
        };
        let mut pool = Pool {
            ring: ring_new(ring_cap),
            slots: Vec::new(),
            spare: Vec::new(),
            allocated: prealloc,
            surpluspulls: 0,
            additional_allocated: false,
            total_created: Ghost(prealloc as nat),
            config,
        };
        let ghost cfg_snap = pool.config;
        let mut i: usize = 0;
        while i < prealloc
            invariant
                i <= prealloc,
                prealloc <= cfg_snap.capacity,
                pool.config == cfg_snap,
                pool.allocated == prealloc,
                pool.surpluspulls == 0,
                pool.additional_allocated == false,
                pool.total_created@ == prealloc,
                pool.spare@.len() == 0,
                ring_bound(pool.ring) == (if cfg_snap.capacity < 1 {
                    1int
                } else {
                    cfg_snap.capacity as int
                }),
                pool.slots@.len() == i,
                n_some(pool.slots@) == i,
                forall|k: int|
                    0 <= k < i ==> (#[trigger] pool.slots@[k]) is Some && (
                    pool.slots@[k]->Some_0).spec_count() == 0 && call_ensures(
                        T::default,
                        (),
                        (pool.slots@[k]->Some_0).spec_data(),
                    ),
                ring_slots(pool.ring) == Seq::new(i as nat, |k: int| k as usize),
            decreases prealloc - i,
        {
            let cell = Prc::new_zero(T::default());
            proof {
                lemma_n_some_push(pool.slots@, Some(cell));
            }
            pool.slots.push(Some(cell));
            let _ = ring_push(&mut pool.ring, i);
            proof {
                assert(ring_slots(pool.ring) =~= Seq::new((i + 1) as nat, |k: int| k as usize));
            }
            i = i + 1;
        }
        proof {
            let q = ring_slots(pool.ring);
            assert(forall|k1: int, k2: int|
                0 <= k1 < q.len() && 0 <= k2 < q.len() && k1 != k2 ==> q[k1] != q[k2]);
            assert(q.no_duplicates());
        }
        pool
    }

    /// Create a pool with the given preallocation and capacity, every other
    /// option at its default.
    pub fn new(prealloc: usize, capacity: usize) -> (p: Self)
        requires
            prealloc <= capacity,
            capacity <= usize::MAX / 2,
        ensures
            p.wf(),
            p.cap() == capacity,
            p.n_allocated() == prealloc,
            p.n_free() == prealloc,
            p.created() == prealloc,
            p.streak() == 0,
            p.extra_allocated() == false,
            p.cfg().capacity == capacity,
            p.cfg().prealloc == prealloc,
            p.cfg().auto_reclaim == false,
            p.cfg().clear_func is None,
            p.cfg().reclaim_active() == false,
            forall|k: int|
                0 <= k < p.freelist().len() ==> call_ensures(
                    T::default,
                    (),
                    p.cell_data(#[trigger] p.freelist()[k] as int),
                ),
    {
        let mut config: Config<H> = Config::default();
        config.capacity = capacity;
        config.prealloc = prealloc;
        Self::with_config(config)
    }

    /// Create a pool with the given capacity, fully preallocated.
    pub fn with_capacity(capacity: usize) -> (p: Self)
        requires
            capacity <= usize::MAX / 2,
        ensures
            p.wf(),
            p.cap() == capacity,
            p.n_allocated() == capacity,
            p.n_free() == capacity,
            p.created() == capacity,
            p.streak() == 0,
            p.extra_allocated() == false,
            p.cfg().capacity == capacity,
            p.cfg().prealloc == capacity,
            p.cfg().auto_reclaim == false,
            p.cfg().clear_func is None,
            p.cfg().reclaim_active() == false,
            forall|k: int|
                0 <= k < p.freelist().len() ==> call_ensures(
                    T::default,
                    (),
                    p.cell_data(#[trigger] p.freelist()[k] as int),
                ),
    {
        Self::new(capacity, capacity)
    }

    /// Create a pool with the given capacity and half of it preallocated.
    pub fn with_capacity_half_prealloc(capacity: usize) -> (p: Self)
        requires
            capacity <= usize::MAX / 2,
        ensures
            p.wf(),
            p.cap() == capacity,
            p.n_allocated() == capacity / 2,
            p.n_free() == capacity / 2,
            p.created() == capacity / 2,
            p.streak() == 0,
            p.extra_allocated() == false,
            p.cfg().capacity == capacity,
            p.cfg().prealloc == capacity / 2,
            p.cfg().auto_reclaim == false,
            p.cfg().clear_func is None,
            p.cfg().reclaim_active() == false,
            forall|k: int|
                0 <= k < p.freelist().len() ==> call_ensures(
                    T::default,
                    (),
                    p.cell_data(#[trigger] p.freelist()[k] as int),
                ),
    {
        Self::new(capacity / 2, capacity)
    }

    /// Number of cells out on loan.
    pub fn in_use(&self) -> (r: usize)
        requires
            self.wf(),
        ensures
            r == self.n_in_use(),
    {
        self.allocated - ring_len(&self.ring)
    }

    /// Number of live cells: in the free queue plus out on loan.
    pub fn allocated(&self) -> (r: usize)
        ensures
            r == self.n_allocated(),
    {
        self.allocated
    }

    /// Number of pulls that would succeed without an intervening release.
    pub fn available(&self) -> (r: usize)
        requires
            self.wf(),
        ensures
            r == self.n_available(),
    {
        self.config.capacity - self.in_use()
    }

    /// Number of cells waiting in the free queue; pulls beyond this number
    /// construct fresh cells.
    pub fn available_noalloc(&self) -> (r: usize)
        ensures
            r == self.n_free(),
    {
        ring_len(&self.ring)
    }

    /// Whether every pull would report exhaustion.
    pub fn is_empty(&self) -> (r: bool)
        requires
            self.wf(),
        ensures
            r == (self.n_available() == 0),
    {
        self.available() == 0
    }

    /// Queue law: the free queue holds distinct indices of live cells, and a
    /// queued cell always has a reference count of zero.
    pub proof fn lemma_freelist_cells(self)
        requires
            self.wf(),
        ensures
            self.freelist().no_duplicates(),
            forall|k: int|
                0 <= k < self.freelist().len() ==> self.live(
                    #[trigger] self.freelist()[k] as int,
                ) && self.cell_count(self.freelist()[k] as int) == 0,
    {
    }

    /// Exhaustion law: a pull reports exhaustion exactly when nothing is
    /// available, that is, when the pool is empty.
    pub proof fn lemma_exhausted_iff_unavailable(self)
        requires
            self.wf(),
        ensures
            self.exhausted() <==> self.n_available() == 0,
    {
    }

    /// Accounting law: the cells out on loan and the pulls still available
    /// always split the capacity exactly, and neither count strays outside
    /// it.
    pub proof fn lemma_accounting(self)
        requires
            self.wf(),
        ensures
            self.n_in_use() + self.n_available() == self.cap(),
            0 <= self.n_in_use() <= self.cap(),
            0 <= self.n_available() <= self.cap(),
    {
    }

    /// Bound law: the free queue never holds more cells than are allocated,
    /// and the allocation never passes the capacity.
    pub proof fn lemma_bounds(self)
        requires
            self.wf(),
        ensures
            0 <= self.n_free() <= self.n_allocated() <= self.cap(),
    {
    }

    /// Lifetime law: while the reclaim heuristic is off, no cell is ever
    /// destroyed, so the payloads constructed over the pool's whole lifetime
    /// are exactly the allocated cells and never outnumber the capacity.
    pub proof fn lemma_created_bounded(self)
        requires
            self.wf(),
            !self.cfg().reclaim_active(),
        ensures
            self.created() == self.n_allocated(),
            self.created() <= self.cap(),
    {
    }

    /// Reclaim progress law: every pull on which the reclaim heuristic fires
    /// destroys exactly one surplus cell, and the surplus marker is clear as
    /// soon as the allocation is back at the preallocated set.
    pub proof fn lemma_reclaim_progress(pre: Self, post: Self, i: int)
        requires
            pre.wf(),
            pre.n_free() > 0,
            Self::reclaim_fires(pre),
            Self::pull_step(pre, post, i),
        ensures
            post.n_allocated() == pre.n_allocated() - 1,
            post.n_allocated() <= pre.cfg().prealloc ==> !post.extra_allocated(),
    {
    }

    /// Reclaim trend law: across a run of pulls on each of which the
    /// reclaim heuristic fires, the allocation falls by one cell per pull,
    /// toward the preallocated set.
    pub proof fn lemma_reclaim_trend(states: Seq<Self>)
        requires
            states.len() >= 1,
            forall|k: int|
                0 <= k < states.len() - 1 ==> (#[trigger] states[k]).wf() && states[k].n_free() > 0
                    && Self::reclaim_fires(states[k]) && exists|i: int|
                    #[trigger] Self::pull_step(states[k], states[k + 1], i),
        ensures
            states.last().n_allocated() == states[0].n_allocated() - (states.len() - 1),
        decreases states.len(),
    {
        if states.len() > 1 {
            let front = states.drop_last();
            assert(forall|k: int| 0 <= k < front.len() ==> #[trigger] front[k] == states[k]);
            assert forall|k: int| 0 <= k < front.len() - 1 implies (#[trigger] front[k]).wf()
                && front[k].n_free() > 0 && Self::reclaim_fires(front[k]) && exists|i: int|
                #[trigger] Self::pull_step(front[k], front[k + 1], i) by {
                let i = choose|i: int| #[trigger] Self::pull_step(states[k], states[k + 1], i);
                assert(Self::pull_step(front[k], front[k + 1], i));
            }
            Self::lemma_reclaim_trend(front);
            assert(front.last() == states[states.len() - 2]);
            let k = states.len() - 2;
            let i = choose|i: int| #[trigger] Self::pull_step(states[k], states[k + 1], i);
            Self::lemma_reclaim_progress(states[k], states[k + 1], i);
        }
    }

    /// Recycling law: releasing the last handle to a cell puts that cell,
    /// with its count at zero, at the back of the free queue, and one more
    /// pull becomes available without an allocation.
    pub proof fn lemma_recycle_returns_cell(pre: Self, post: Self, i: int)
        requires
            Self::recycle_step(pre, post, i),
        ensures
            post.n_free() == pre.n_free() + 1,
            post.freelist().last() == i as usize,
            post.live(i),
            post.cell_count(i) == 0,
            post.n_allocated() == pre.n_allocated(),
    {
    }

    /// Round-trip law: taking one more handle to a cell and releasing it
    /// again leaves every observation of the pool exactly as it was, as if
    /// the handle had never been made.
    pub proof fn lemma_duplicate_release_round_trip(pre: Self, mid: Self, post: Self, i: int)
        requires
            pre.wf(),
            pre.valid_handle(i),
            Self::retain_step(pre, mid, i),
            Self::shared_release_step(mid, post, i),
        ensures
            post.cfg() == pre.cfg(),
            post.freelist() == pre.freelist(),
            post.n_allocated() == pre.n_allocated(),
            post.created() == pre.created(),
            post.streak() == pre.streak(),
            post.extra_allocated() == pre.extra_allocated(),
            forall|j: int| post.live(j) <==> pre.live(j),
            forall|j: int|
                #[trigger] pre.live(j) ==> post.cell_count(j) == pre.cell_count(j)
                    && post.cell_data(j) == pre.cell_data(j),
    {
        assert forall|j: int| post.live(j) <==> pre.live(j) by {
            if j != i {
                assert(!set![i].contains(j));
                if pre.live(j) {
                    assert(mid.live(j));
                }
                if post.live(j) {
                    assert(mid.live(j));
                }
            }
        }
        assert forall|j: int|
            #[trigger] pre.live(j) implies post.cell_count(j) == pre.cell_count(j)
            && post.cell_data(j) == pre.cell_data(j) by {
            if j != i {
                assert(!set![i].contains(j));
                assert(mid.live(j) && mid.cell_count(j) == pre.cell_count(j) && mid.cell_data(j)
                    == pre.cell_data(j));
            }
        }
    }

    /// Upper bound on the number of live cells.
    pub fn capacity(&self) -> (r: usize)
        ensures
            r == self.cap(),
    {
        self.config.capacity
    }

    /// Every cell outside `ex` is carried over untouched: same liveness, same
    /// count, same payload.
    pub open spec fn cells_unchanged_except(pre: Self, post: Self, ex: Set<int>) -> bool {
        &&& forall|j: int|
            #[trigger] pre.live(j) && !ex.contains(j) ==> post.live(j) && post.cell_count(j)
                == pre.cell_count(j) && post.cell_data(j) == pre.cell_data(j)
        &&& forall|j: int| #[trigger] post.live(j) && !ex.contains(j) ==> pre.live(j)
    }

    /// Every pull would report exhaustion: the free queue is empty and no
    /// room is left for a fresh cell.
    pub open spec fn exhausted(self) -> bool {
        self.n_free() == 0 && self.n_allocated() >= self.cap()
    }

    /// The surplus-pull streak after a pull that popped the free queue: it
    /// grows when the queue stays at or above the idle threshold, resets on a
    /// shorter queue, and rests while the reclaim heuristic is off. A streak
    /// at the top of the counter's range stays there.
    pub open spec fn streak_after_pop(pre: Self) -> int {
        if !pre.cfg().reclaim_active() {
            pre.streak()
        } else if pre.n_free() - 1 >= pre.cfg().idle_threshold_for_surpluspull {
            if pre.streak() < usize::MAX {
                pre.streak() + 1
            } else {
                pre.streak()
            }
        } else {
            0
        }
    }

    /// Whether a pull that pops the free queue destroys one surplus cell: the
    /// pop is a surplus-pull, the streak has reached the threshold, and a
    /// cell beyond the preallocated set exists.
    pub open spec fn reclaim_fires(pre: Self) -> bool {
        &&& pre.cfg().reclaim_active()
        &&& pre.n_free() - 1 >= pre.cfg().idle_threshold_for_surpluspull
        &&& Self::streak_after_pop(pre) >= pre.cfg().surpluspull_threshold_for_reclaim
        &&& pre.extra_allocated()
    }

    /// Bookkeeping of a successful pull that returned the cell at `i`. The
    /// payload of `i` itself is stated by each pull variant.
    pub open spec fn pull_step(pre: Self, post: Self, i: int) -> bool {
        &&& post.cfg() == pre.cfg()
        &&& post.valid_handle(i)
        &&& post.cell_count(i) == 1
        &&& if pre.n_free() > 0 {
            &&& i == pre.freelist()[0] as int
            &&& pre.live(i)
            &&& post.created() == pre.created()
            &&& post.streak() == Self::streak_after_pop(pre)
            &&& if Self::reclaim_fires(pre) {
                let j = pre.freelist()[1] as int;
                &&& post.freelist() == pre.freelist().subrange(2, pre.freelist().len() as int)
                &&& !post.live(j)
                &&& post.n_allocated() == pre.n_allocated() - 1
                &&& post.extra_allocated() == (pre.n_allocated() - 1 > pre.cfg().prealloc)
                &&& Self::cells_unchanged_except(pre, post, set![i, j])
            } else {
                &&& post.freelist() == pre.freelist().drop_first()
                &&& post.n_allocated() == pre.n_allocated()
                &&& post.extra_allocated() == pre.extra_allocated()
                &&& Self::cells_unchanged_except(pre, post, set![i])
            }
        } else {
            &&& !pre.live(i)
            &&& pre.n_allocated() < pre.cap()
            &&& post.freelist() == pre.freelist()
            &&& post.n_allocated() == pre.n_allocated() + 1
            &&& post.created() == pre.created() + 1
            &&& post.extra_allocated() == true
            &&& post.streak() == (if pre.cfg().reclaim_active() {
                0int
            } else {
                pre.streak()
            })
            &&& Self::cells_unchanged_except(pre, post, set![i])
        }
    }

    /// Bookkeeping of a pull that reported exhaustion: no cell moves, but the
    /// empty pop leaves its mark on the heuristic state.
    pub open spec fn pull_failed_step(pre: Self, post: Self) -> bool {
        &&& post.cfg() == pre.cfg()
        &&& post.freelist() == pre.freelist()
        &&& Self::cells_unchanged_except(pre, post, Set::empty())
        &&& post.n_allocated() == pre.n_allocated()
        &&& post.created() == pre.created()
        &&& post.extra_allocated() == true
        &&& post.streak() == (if pre.cfg().reclaim_active() {
            0int
        } else {
            pre.streak()
        })
    }

    /// One more handle now refers to the cell at `i`; nothing else moved.
    pub open spec fn retain_step(pre: Self, post: Self, i: int) -> bool {
        &&& post.cfg() == pre.cfg()
        &&& post.live(i)
        &&& post.cell_count(i) == pre.cell_count(i) + 1
        &&& post.cell_data(i) == pre.cell_data(i)
        &&& Self::cells_unchanged_except(pre, post, set![i])
        &&& post.freelist() == pre.freelist()
        &&& post.n_allocated() == pre.n_allocated()
        &&& post.created() == pre.created()
        &&& post.streak() == pre.streak()
        &&& post.extra_allocated() == pre.extra_allocated()
    }

    /// One handle to the cell at `i` went away while others remain; nothing
    /// else moved.
    pub open spec fn shared_release_step(pre: Self, post: Self, i: int) -> bool {
        &&& post.cfg() == pre.cfg()
        &&& post.live(i)
        &&& post.cell_count(i) == pre.cell_count(i) - 1
        &&& post.cell_data(i) == pre.cell_data(i)
        &&& Self::cells_unchanged_except(pre, post, set![i])
        &&& post.freelist() == pre.freelist()
        &&& post.n_allocated() == pre.n_allocated()
        &&& post.created() == pre.created()
        &&& post.streak() == pre.streak()
        &&& post.extra_allocated() == pre.extra_allocated()
    }

    /// The last handle to the cell at `i` went away: the payload passes
    /// through the clear hook, the count rests at zero, and the cell's index
    /// returns to the back of the free queue.
    pub open spec fn recycle_step(pre: Self, post: Self, i: int) -> bool {
        &&& post.cfg() == pre.cfg()
        &&& post.live(i)
        &&& post.cell_count(i) == 0
        &&& (match pre.cfg().clear_func {
            Some(h) => h.cleared(pre.cell_data(i), post.cell_data(i)),
            None => post.cell_data(i) == pre.cell_data(i),
        })
        &&& Self::cells_unchanged_except(pre, post, set![i])
        &&& post.freelist() == pre.freelist().push(i as usize)
        &&& post.n_allocated() == pre.n_allocated()
        &&& post.created() == pre.created()
        &&& post.streak() == pre.streak()
        &&& post.extra_allocated() == pre.extra_allocated()
    }

    /// Read the payload of the live cell at `idx`.
    pub(crate) fn cell_ref(&self, idx: usize) -> (r: &T)
        requires
            self.live(idx as int),
        ensures
            *r == self.cell_data(idx as int),
    {
        self.slots[idx].as_ref().unwrap().borrow_data()
    }

    /// The reference count of the live cell at `idx`.
    pub(crate) fn cell_count_exec(&self, idx: usize) -> (r: usize)
        requires
            self.live(idx as int),
        ensures
            r == self.cell_count(idx as int),
    {
        self.slots[idx].as_ref().unwrap().ref_count()
    }

    /// Write the payload of the live cell at `idx` through an exclusive
    /// reference.
    pub(crate) fn cell_mut(&mut self, idx: usize) -> (r: &mut T)
        requires
            old(self).wf(),
            old(self).live(idx as int),
        ensures
            *r == old(self).cell_data(idx as int),
            final(self).wf(),
            final(self).cfg() == old(self).cfg(),
            final(self).live(idx as int),
            final(self).cell_count(idx as int) == old(self).cell_count(idx as int),
            final(self).cell_data(idx as int) == *final(r),
            Self::cells_unchanged_except(*old(self), *final(self), set![idx as int]),
            final(self).freelist() == old(self).freelist(),
            final(self).n_allocated() == old(self).n_allocated(),
            final(self).created() == old(self).created(),
            final(self).streak() == old(self).streak(),
            final(self).extra_allocated() == old(self).extra_allocated(),
    {
        broadcast use lemma_n_some_update;

        let slot = &mut self.slots[idx];
        let cell = slot.as_mut().unwrap();
        Prc::get_mut_unchecked(cell)
    }

    /// Destroy one surplus cell, when the free queue still holds one: its
    /// payload is dropped, its slab slot is kept for reuse, and the bookkeeping
    /// follows the cell out.
    fn reclaim(&mut self)
        requires
            old(self).wf(),
            old(self).cfg().reclaim_active(),
        ensures
            final(self).wf(),
            final(self).cfg() == old(self).cfg(),
            final(self).streak() == old(self).streak(),
            old(self).n_free() == 0 ==> {
                &&& final(self).freelist() == old(self).freelist()
                &&& Self::cells_unchanged_except(*old(self), *final(self), Set::empty())
                &&& final(self).n_allocated() == old(self).n_allocated()
                &&& final(self).created() == old(self).created()
                &&& final(self).extra_allocated() == old(self).extra_allocated()
            },
            old(self).n_free() > 0 ==> {
                let j = old(self).freelist()[0] as int;
                &&& !final(self).live(j)
                &&& final(self).freelist() == old(self).freelist().drop_first()
                &&& final(self).n_allocated() == old(self).n_allocated() - 1
                &&& final(self).created() == old(self).created()
                &&& final(self).extra_allocated() == (old(self).extra_allocated() && old(
                    self,
                ).n_allocated() - 1 > old(self).cfg().prealloc)
                &&& Self::cells_unchanged_except(*old(self), *final(self), set![j])
            },
    {
        let ghost pre = *self;
        match ring_pop(&mut self.ring) {
            Some(j) => {
                proof {
                    assert(pre.freelist()[0] == j);
                    assert(pre.live(j as int));
                    lemma_distinct_live_card(pre.slots@, seq![j]);
                }
                let slot = &mut self.slots[j];
                let destroyed = slot.take();
                proof {
                    lemma_n_some_update(pre.slots@, j as int, None);
                }
                self.spare.push(j);
                self.allocated = self.allocated - 1;
                if self.config.need_process_reclamation && self.allocated <= self.config.prealloc {
                    if self.additional_allocated {
                        self.additional_allocated = false;
                    }
                }
                proof {
                    let q2 = final(self).freelist();
                    assert(q2 =~= pre.freelist().drop_first());
                    assert(forall|k: int|
                        0 <= k < q2.len() ==> #[trigger] q2[k] == pre.freelist()[k + 1]);
                    assert(forall|k: int|
                        0 <= k < pre.spare@.len() ==> #[trigger] pre.spare@[k] != j);
                }
            }
            None => {},
        }
    }

    /// Return the count-zero cell at `idx` to the free queue, after the clear
    /// hook has run over its payload. The queue always has room: live cells
    /// never outnumber its capacity.
    pub(crate) fn recycle(&mut self, idx: usize)
        requires
            old(self).wf(),
            old(self).live(idx as int),
            old(self).cell_count(idx as int) == 0,
            !old(self).freelist().contains(idx),
        ensures
            final(self).wf(),
            Self::recycle_step(*old(self), *final(self), idx as int),
    {
        let ghost pre = *self;
        let slot = &mut self.slots[idx];
        let cell = slot.take().unwrap();
        let data = cell.into_data();
        let cleared = match &self.config.clear_func {
            Some(h) => h.clear(data),
            None => data,
        };
        *slot = Some(Prc::new_zero(cleared));
        proof {
            assert(self.slots@ =~= pre.slots@.update(idx as int, self.slots@[idx as int]));
            lemma_n_some_update(pre.slots@, idx as int, self.slots@[idx as int]);
        }
        let ghost mid = *self;
        proof {
            let q = mid.freelist();
            assert(q == pre.freelist());
            lemma_distinct_live_card(mid.slots@, q.push(idx));
            assert(q.push(idx).no_duplicates());
            assert(ring_bound(mid.ring) == ring_bound(pre.ring));
        }
        let res = ring_push(&mut self.ring, idx);
        proof {
            assert(res is Ok);
            assert(final(self).freelist() =~= pre.freelist().push(idx));
        }
    }

    /// Drop one handle's reference to the cell at `idx`: the count falls by
    /// one, and a count of zero sends the cell back through `recycle`.
    pub(crate) fn release_at(&mut self, idx: usize)
        requires
            old(self).wf(),
            old(self).valid_handle(idx as int),
        ensures
            final(self).wf(),
            old(self).cell_count(idx as int) > 1 ==> Self::shared_release_step(
                *old(self),
                *final(self),
                idx as int,
            ),
            old(self).cell_count(idx as int) == 1 ==> Self::recycle_step(
                *old(self),
                *final(self),
                idx as int,
            ),
    {
        let ghost pre = *self;
        let slot = &mut self.slots[idx];
        let prev = slot.as_mut().unwrap().dec_ref();
        proof {
            assert(self.slots@ =~= pre.slots@.update(idx as int, self.slots@[idx as int]));
            lemma_n_some_update(pre.slots@, idx as int, self.slots@[idx as int]);
            let q = self.freelist();
            assert forall|k: int| 0 <= k < q.len() implies #[trigger] q[k] != idx by {
                assert(pre.cell_count(q[k] as int) == 0);
                assert(pre.cell_count(idx as int) >= 1);
            }
            assert(forall|k: int|
                0 <= k < self.spare@.len() ==> #[trigger] self.spare@[k] != idx);
        }
        if prev == 1 {
            proof {
                assert(!self.freelist().contains(idx));
            }
            let ghost mid = *self;
            self.recycle(idx);
            proof {
                let i = idx as int;
                assert forall|j: int|
                    #[trigger] pre.live(j) && !set![i].contains(j) implies self.live(j)
                    && self.cell_count(j) == pre.cell_count(j) && self.cell_data(j)
                    == pre.cell_data(j) by {
                    assert(j != i);
                    assert(mid.live(j) && mid.cell_count(j) == pre.cell_count(j)
                        && mid.cell_data(j) == pre.cell_data(j));
                }
                assert forall|j: int|
                    #[trigger] self.live(j) && !set![i].contains(j) implies pre.live(j) by {
                    assert(j != i);
                    assert(mid.live(j));
                }
                assert(Self::recycle_step(pre, *self, i));
            }
        }
    }

    /// The single pull primitive: pop a free cell, or construct a fresh one
    /// while room remains, or report exhaustion. On the pop path it also
    /// drives the surplus-pull streak and, when the streak is long enough,
    /// destroys one surplus cell.
    fn pull_inner(&mut self) -> (r: Option<usize>)
        requires
            old(self).wf(),
        ensures
            final(self).wf(),
            r is None <==> old(self).exhausted(),
            r is None ==> Self::pull_failed_step(*old(self), *final(self)),
            r matches Some(i) ==> Self::pull_step(*old(self), *final(self), i as int) && (if old(
                self,
            ).n_free() > 0 {
                final(self).cell_data(i as int) == old(self).cell_data(i as int)
            } else {
                call_ensures(T::default, (), final(self).cell_data(i as int))
            }),
    {
        broadcast use lemma_n_some_push;
        broadcast use lemma_n_some_update;

        let ghost pre = *self;
        match ring_pop(&mut self.ring) {
            None => {
                if !self.additional_allocated {
                    self.additional_allocated = true;
                }
                if self.config.need_process_reclamation {
                    self.surpluspulls = 0;
                }
                if self.allocated < self.config.capacity {
                    self.allocated = self.allocated + 1;
                    self.total_created = Ghost(self.total_created@ + 1);
                    let cell = Prc::new(T::default());
                    let idx: usize;
                    match self.spare.pop() {
                        Some(j) => {
                            let slot = &mut self.slots[j];
                            *slot = Some(cell);
                            idx = j;
                            proof {
                                assert(self.slots@ =~= pre.slots@.update(
                                    j as int,
                                    self.slots@[j as int],
                                ));
                                assert(forall|k: int|
                                    0 <= k < self.spare@.len() ==> #[trigger] self.spare@[k]
                                        == pre.spare@[k]);
                                assert forall|k: int|
                                    0 <= k < self.spare@.len() implies #[trigger] self.spare@[k]
                                    != j by {
                                    assert(pre.spare@[pre.spare@.len() - 1] == j);
                                }
                            }
                        },
                        None => {
                            idx = self.slots.len();
                            self.slots.push(Some(cell));
                        },
                    }
                    proof {
                        assert(self.wf());
                        assert(Self::pull_step(pre, *self, idx as int));
                    }
                    Some(idx)
                } else {
                    None
                }
            },
            Some(i) => {
                proof {
                    assert(i == pre.freelist()[0]);
                    assert(pre.live(i as int) && pre.cell_count(i as int) == 0);
                    let q1 = self.freelist();
                    assert(q1 =~= pre.freelist().drop_first());
                    assert(q1.no_duplicates());
                    assert(self.wf());
                }
                if self.config.need_process_reclamation {
                    let left = ring_len(&self.ring);
                    if left >= self.config.idle_threshold_for_surpluspull {
                        let cur = self.surpluspulls;
                        let bumped = if cur < usize::MAX {
                            cur + 1
                        } else {
                            cur
                        };
                        self.surpluspulls = bumped;
                        let ghost m1 = *self;
                        if bumped >= self.config.surpluspull_threshold_for_reclaim
                            && self.additional_allocated {
                            proof {
                                assert(Self::reclaim_fires(pre));
                                assert(m1.n_free() > 0);
                                assert(m1.freelist()[0] == pre.freelist()[1]);
                                assert(pre.freelist()[1] != i);
                            }
                            self.reclaim();
                            proof {
                                assert(self.freelist() =~= pre.freelist().subrange(
                                    2,
                                    pre.freelist().len() as int,
                                ));
                                assert(m1.live(i as int) && m1.cell_count(i as int) == 0
                                    && m1.cell_data(i as int) == pre.cell_data(i as int));
                                assert(self.live(i as int) && self.cell_count(i as int) == 0
                                    && self.cell_data(i as int) == pre.cell_data(i as int));
                                let jj = pre.freelist()[1] as int;
                                assert forall|x: int|
                                    #[trigger] pre.live(x) && x != jj implies self.live(x)
                                    && self.cell_count(x) == pre.cell_count(x)
                                    && self.cell_data(x) == pre.cell_data(x) by {
                                    assert(!set![jj].contains(x));
                                    assert(m1.live(x) && m1.cell_count(x) == pre.cell_count(x)
                                        && m1.cell_data(x) == pre.cell_data(x));
                                }
                                assert forall|x: int|
                                    #[trigger] self.live(x) && x != jj implies pre.live(x) by {
                                    assert(!set![jj].contains(x));
                                    assert(m1.live(x));
                                }
                            }
                        } else {
                            proof {
                                assert(!Self::reclaim_fires(pre));
                            }
                        }
                    } else {
                        self.surpluspulls = 0;
                        proof {
                            assert(!Self::reclaim_fires(pre));
                        }
                    }
                } else {
                    proof {
                        assert(!Self::reclaim_fires(pre));
                    }
                }
                let ghost m2 = *self;
                let slot = &mut self.slots[i];
                let prevcount = slot.as_mut().unwrap().inc_ref();
                proof {
                    assert(self.slots@ =~= m2.slots@.update(i as int, self.slots@[i as int]));
                    lemma_n_some_update(m2.slots@, i as int, self.slots@[i as int]);
                    let q = self.freelist();
                    assert forall|k: int| 0 <= k < q.len() implies #[trigger] q[k] != i by {
                        if Self::reclaim_fires(pre) {
                            assert(q[k] == pre.freelist()[k + 2]);
                        } else {
                            assert(q[k] == pre.freelist()[k + 1]);
                        }
                    }
                    assert(self.wf());
                    if Self::reclaim_fires(pre) {
                        let jj = pre.freelist()[1] as int;
                        let ex = set![i as int, jj];
                        assert forall|x: int|
                            #[trigger] pre.live(x) && !ex.contains(x) implies self.live(x)
                            && self.cell_count(x) == pre.cell_count(x) && self.cell_data(x)
                            == pre.cell_data(x) by {
                            assert(x != jj && x != i as int);
                            assert(m2.live(x) && m2.cell_count(x) == pre.cell_count(x)
                                && m2.cell_data(x) == pre.cell_data(x));
                        }
                        assert forall|x: int|
                            #[trigger] self.live(x) && !ex.contains(x) implies pre.live(x) by {
                            assert(x != jj && x != i as int);
                            assert(m2.live(x));
                        }
                    }
                    assert(Self::pull_step(pre, *self, i as int));
                }
                Some(i)
            },
        }
    }

    /// Pull a cell and apply `func` to its payload; shared by the two
    /// `*_with` variants.
    fn pull_with_inner<F: FnOnce(T) -> T>(&mut self, func: F) -> (r: Option<usize>)
        requires
            old(self).wf(),
            forall|t: T| call_requires(func, (t,)),
        ensures
            final(self).wf(),
            r is None <==> old(self).exhausted(),
            r is None ==> Self::pull_failed_step(*old(self), *final(self)),
            r matches Some(i) ==> Self::pull_step(*old(self), *final(self), i as int) && (if old(
                self,
            ).n_free() > 0 {
                call_ensures(
                    func,
                    (old(self).cell_data(i as int),),
                    final(self).cell_data(i as int),
                )
            } else {
                exists|d0: T|
                    #[trigger] call_ensures(T::default, (), d0) && call_ensures(
                        func,
                        (d0,),
                        final(self).cell_data(i as int),
                    )
            }),
    {
        broadcast use lemma_n_some_update;

        let ghost pre = *self;
        match self.pull_inner() {
            Some(i) => {
                let ghost mid = *self;
                let slot = &mut self.slots[i];
                let cell = slot.take().unwrap();
                let data = cell.into_data();
                let changed = func(data);
                *slot = Some(Prc::new(changed));
                proof {
                    assert(self.slots@ =~= mid.slots@.update(i as int, self.slots@[i as int]));
                    let q = self.freelist();
                    assert forall|k: int| 0 <= k < q.len() implies #[trigger] q[k] != i by {
                        assert(mid.cell_count(q[k] as int) == 0);
                        assert(mid.cell_count(i as int) == 1);
                    }
                    assert(self.wf());
                    assert forall|x: int|
                        #[trigger] mid.live(x) && x != i as int implies self.live(x)
                        && self.cell_count(x) == mid.cell_count(x) && self.cell_data(x)
                        == mid.cell_data(x) by {}
                    assert forall|x: int|
                        #[trigger] self.live(x) && x != i as int implies mid.live(x) by {}
                    assert(Self::pull_step(pre, *self, i as int));
                }
                Some(i)
            },
            None => None,
        }
    }

    /// Pull a handle from the pool, or report exhaustion: the free queue is
    /// empty and the pool already holds as many cells as its capacity allows.
    /// The handle's cell carries one reference and, when it was popped from
    /// the queue, the payload the queue preserved; a fresh cell carries a
    /// default-constructed payload.
    pub fn pull(&mut self) -> (r: Option<Entry>)
        requires
            old(self).wf(),
        ensures
            final(self).wf(),
            r is None <==> old(self).exhausted(),
            r is None ==> Self::pull_failed_step(*old(self), *final(self)),
            r matches Some(e) ==> Self::pull_step(*old(self), *final(self), e.id()) && (if old(
                self,
            ).n_free() > 0 {
                final(self).cell_data(e.id()) == old(self).cell_data(e.id())
            } else {
                call_ensures(T::default, (), final(self).cell_data(e.id()))
            }),
    {
        match self.pull_inner() {
            Some(i) => Some(Entry::from_idx(i)),
            None => None,
        }
    }

    /// Pull a handle as [`Self::pull`] does, then apply `func` to the
    /// payload before handing the handle out.
    pub fn pull_with<F: FnOnce(T) -> T>(&mut self, func: F) -> (r: Option<Entry>)
        requires
            old(self).wf(),
            forall|t: T| call_requires(func, (t,)),
        ensures
            final(self).wf(),
            r is None <==> old(self).exhausted(),
            r is None ==> Self::pull_failed_step(*old(self), *final(self)),
            r matches Some(e) ==> Self::pull_step(*old(self), *final(self), e.id()) && (if old(
                self,
            ).n_free() > 0 {
                call_ensures(
                    func,
                    (old(self).cell_data(e.id()),),
                    final(self).cell_data(e.id()),
                )
            } else {
                exists|d0: T|
                    #[trigger] call_ensures(T::default, (), d0) && call_ensures(
                        func,
                        (d0,),
                        final(self).cell_data(e.id()),
                    )
            }),
    {
        match self.pull_with_inner(func) {
            Some(i) => Some(Entry::from_idx(i)),
            None => None,
        }
    }

    /// Pull a handle for callers that move handles between contexts;
    /// otherwise exactly [`Self::pull`].
    pub fn pull_owned(&mut self) -> (r: Option<OwnedEntry>)
        requires
            old(self).wf(),
        ensures
            final(self).wf(),
            r is None <==> old(self).exhausted(),
            r is None ==> Self::pull_failed_step(*old(self), *final(self)),
            r matches Some(e) ==> Self::pull_step(*old(self), *final(self), e.id()) && (if old(
                self,
            ).n_free() > 0 {
                final(self).cell_data(e.id()) == old(self).cell_data(e.id())
            } else {
                call_ensures(T::default, (), final(self).cell_data(e.id()))
            }),
    {
        match self.pull_inner() {
            Some(i) => Some(OwnedEntry::from_idx(i)),
            None => None,
        }
    }

    /// Pull an owned handle as [`Self::pull_owned`] does, then apply `func`
    /// to the payload before handing the handle out.
    pub fn pull_owned_with<F: FnOnce(T) -> T>(&mut self, func: F) -> (r: Option<OwnedEntry>)
        requires
            old(self).wf(),
            forall|t: T| call_requires(func, (t,)),
        ensures
            final(self).wf(),
            r is None <==> old(self).exhausted(),
            r is None ==> Self::pull_failed_step(*old(self), *final(self)),
            r matches Some(e) ==> Self::pull_step(*old(self), *final(self), e.id()) && (if old(
                self,
            ).n_free() > 0 {
                call_ensures(
                    func,
                    (old(self).cell_data(e.id()),),
                    final(self).cell_data(e.id()),
                )
            } else {
                exists|d0: T|
                    #[trigger] call_ensures(T::default, (), d0) && call_ensures(
                        func,
                        (d0,),
                        final(self).cell_data(e.id()),
                    )
            }),
    {
        match self.pull_with_inner(func) {
            Some(i) => Some(OwnedEntry::from_idx(i)),
            None => None,
        }
    }

    /// Let one more handle refer to the cell at `idx`.
    pub(crate) fn retain_at(&mut self, idx: usize)
        requires
            old(self).wf(),
            old(self).valid_handle(idx as int),
            old(self).cell_count(idx as int) < usize::MAX,
        ensures
            final(self).wf(),
            Self::retain_step(*old(self), *final(self), idx as int),
    {
        let ghost pre = *self;
        let slot = &mut self.slots[idx];
        let prev = slot.as_mut().unwrap().inc_ref();
        proof {
            assert(self.slots@ =~= pre.slots@.update(idx as int, self.slots@[idx as int]));
            lemma_n_some_update(pre.slots@, idx as int, self.slots@[idx as int]);
            let q = self.freelist();
            assert forall|k: int| 0 <= k < q.len() implies #[trigger] q[k] != idx by {
                assert(pre.cell_count(q[k] as int) == 0);
                assert(pre.cell_count(idx as int) >= 1);
            }
        }
    }
}

} // verus!
