//! A fluent builder for pools with custom configuration.

use vstd::prelude::*;

use crate::pool::{ClearHook, Config, NoHook, Pool};

verus! {

/// Collects configuration options and builds a [`Pool`] from them.
pub struct Builder<H = NoHook> {
    config: Config<H>,
}

impl<H> Builder<H> {
    /// The configuration collected so far.
    pub closed spec fn cfg(self) -> Config<H> {
        self.config
    }

    /// Start from the default configuration.
    pub fn new() -> (r: Self)
        ensures
            r.cfg().capacity == 1024,
            r.cfg().prealloc == 0,
            r.cfg().auto_reclaim == false,
            r.cfg().surpluspull_threshold_for_reclaim == 0,
            r.cfg().idle_threshold_for_surpluspull == 0,
            r.cfg().clear_func is None,
    {
        Builder { config: Config::default() }
    }

    /// Set the number of cells constructed eagerly when the pool is built.
    pub fn prealloc(&mut self, prealloc: usize) -> (r: &mut Self)
        ensures
            r.cfg() == (Config { prealloc, ..old(self).cfg() }),
            *final(self) == *final(r),
    {
        self.config.prealloc = prealloc;
        self
    }

    /// Set the maximum number of cells the pool will ever hold at once.
    pub fn capacity(&mut self, capacity: usize) -> (r: &mut Self)
        ensures
            r.cfg() == (Config { capacity, ..old(self).cfg() }),
            *final(self) == *final(r),
    {
        self.config.capacity = capacity;
        self
    }

    /// Set the reset applied to a payload each time its cell is recycled.
    pub fn clear_func(&mut self, func: H) -> (r: &mut Self)
        ensures
            r.cfg() == (Config { clear_func: Some(func), ..old(self).cfg() }),
            *final(self) == *final(r),
    {
        self.config.clear_func = Some(func);
        self
    }

    /// Switch the reclaim heuristic on or off.
    pub fn auto_reclaim(&mut self, enable: bool) -> (r: &mut Self)
        ensures
            r.cfg() == (Config { auto_reclaim: enable, ..old(self).cfg() }),
            *final(self) == *final(r),
    {
        self.config.auto_reclaim = enable;
        self
    }

    /// Switch the reclaim heuristic on.
    pub fn enable_auto_reclaim(&mut self) -> (r: &mut Self)
        ensures
            r.cfg() == (Config { auto_reclaim: true, ..old(self).cfg() }),
            *final(self) == *final(r),
    {
        self.auto_reclaim(true)
    }

    /// Set the streak length that triggers one reclaim step, when the
    /// reclaim heuristic is on. Zero stands for the default.
    pub fn fastpull_threshold_for_reclaim(&mut self, threshold: usize) -> (r: &mut Self)
        ensures
            r.cfg() == (Config {
                surpluspull_threshold_for_reclaim: threshold,
                ..old(self).cfg()
            }),
            *final(self) == *final(r),
    {
        self.config.surpluspull_threshold_for_reclaim = threshold;
        self
    }

    /// Set the minimum remaining queue length that makes a pop a
    /// surplus-pull, when the reclaim heuristic is on. Zero stands for the
    /// default.
    pub fn idle_threshold_for_fastpull(&mut self, threshold: usize) -> (r: &mut Self)
        ensures
            r.cfg() == (Config {
                idle_threshold_for_surpluspull: threshold,
                ..old(self).cfg()
            }),
            *final(self) == *final(r),
    {
        self.config.idle_threshold_for_surpluspull = threshold;
        self
    }

    /// Build a pool from the collected configuration and reset the builder
    /// to the default configuration.
    pub fn build<T: Default>(&mut self) -> (p: Pool<T, H>) where H: ClearHook<T>
        requires
            old(self).cfg().prealloc <= old(self).cfg().capacity,
            old(self).cfg().capacity <= usize::MAX / 2,
        ensures
            p.wf(),
            p.cap() == old(self).cfg().capacity,
            p.n_allocated() == old(self).cfg().prealloc,
            p.n_free() == old(self).cfg().prealloc,
            p.created() == old(self).cfg().prealloc,
            p.streak() == 0,
            p.extra_allocated() == false,
            p.cfg().capacity == old(self).cfg().capacity,
            p.cfg().prealloc == old(self).cfg().prealloc,
            p.cfg().auto_reclaim == old(self).cfg().auto_reclaim,
            p.cfg().clear_func == old(self).cfg().clear_func,
            p.cfg().idle_threshold_for_surpluspull == crate::pool::resolved_idle_threshold(
                old(self).cfg().capacity,
                old(self).cfg().idle_threshold_for_surpluspull,
            ),
            p.cfg().surpluspull_threshold_for_reclaim == crate::pool::resolved_surplus_threshold(
                old(self).cfg().capacity,
                old(self).cfg().surpluspull_threshold_for_reclaim,
            ),
            p.cfg().reclaim_active() == (old(self).cfg().auto_reclaim && old(self).cfg().prealloc
                != old(self).cfg().capacity),
            forall|k: int|
                0 <= k < p.freelist().len() ==> call_ensures(
                    T::default,
                    (),
                    p.cell_data(#[trigger] p.freelist()[k] as int),
                ),
            final(self).cfg().capacity == 1024,
            final(self).cfg().prealloc == 0,
            final(self).cfg().auto_reclaim == false,
            final(self).cfg().surpluspull_threshold_for_reclaim == 0,
            final(self).cfg().idle_threshold_for_surpluspull == 0,
            final(self).cfg().clear_func is None,
    {
        let mut config: Config<H> = Config::default();
        core::mem::swap(&mut config, &mut self.config);
        Pool::with_config(config)
    }
}

} // verus!
