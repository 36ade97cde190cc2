//! The pooled reference-counted cell and the handles the pool hands out.
//!
//! A `Prc` couples one payload with an explicit reference count. Nothing is
//! destroyed when the count reaches zero: a count of zero means the cell sits
//! in the pool's free queue, and the pool alone decides whether a cell is
//! recycled or destroyed.
//!
//! `Entry` and `OwnedEntry` are the handles. Each one stands for exactly one
//! unit of a cell's reference count, and every operation on a handle goes
//! through the pool that issued it.

use vstd::prelude::*;

use crate::pool::{ClearHook, Pool};

verus! {

/// A pooled reference-counted cell: one payload together with the number of
/// live handles that refer to it.
///
/// A count of zero marks a cell that rests in the pool's free queue; the
/// cell's payload stays constructed so that a later pull can reuse it.
pub struct Prc<T> {
    pub(crate) count: usize,
    pub(crate) data: T,
}

impl<T> Prc<T> {
    /// The number of live handles that refer to this cell.
    pub closed spec fn spec_count(self) -> nat {
        self.count as nat
    }

    /// The payload held by this cell.
    pub closed spec fn spec_data(self) -> T {
        self.data
    }

    /// Construct a cell whose count starts at zero: the state of a cell that
    /// is about to rest in the free queue without any handle referring to it.
    pub fn new_zero(data: T) -> (p: Prc<T>)
        ensures
            p.spec_count() == 0,
            p.spec_data() == data,
    {
        Prc { count: 0, data }
    }

    /// Construct a cell whose count starts at one: the state of a freshly
    /// allocated cell that is handed straight to a caller.
    pub fn new(data: T) -> (p: Prc<T>)
        ensures
            p.spec_count() == 1,
            p.spec_data() == data,
    {
        Prc { count: 1, data }
    }

    /// Increment the reference count; returns the previous count.
    pub fn inc_ref(&mut self) -> (r: usize)
        requires
            old(self).spec_count() < usize::MAX,
        ensures
            r == old(self).spec_count(),
            final(self).spec_count() == old(self).spec_count() + 1,
            final(self).spec_data() == old(self).spec_data(),
    {
        let prev = self.count;
        self.count = self.count + 1;
        prev
    }

    /// Decrement the reference count; returns the previous count. A previous
    /// count of one tells the caller that the last handle was just released.
    pub fn dec_ref(&mut self) -> (r: usize)
        requires
            old(self).spec_count() >= 1,
        ensures
            r == old(self).spec_count(),
            final(self).spec_count() == old(self).spec_count() - 1,
            final(self).spec_data() == old(self).spec_data(),
    {
        let prev = self.count;
        self.count = self.count - 1;
        prev
    }

    /// The current reference count.
    pub fn ref_count(&self) -> (r: usize)
        ensures
            r == self.spec_count(),
    {
        self.count
    }

    /// Destroy the cell and hand its payload back.
    pub fn into_data(self) -> (r: T)
        ensures
            r == self.spec_data(),
    {
        self.data
    }

    /// Read the payload.
    pub fn borrow_data(&self) -> (r: &T)
        ensures
            *r == self.spec_data(),
    {
        &self.data
    }

    /// Write the payload through an exclusive reference, without looking at
    /// the count; the exclusive borrow of the cell itself makes this safe.
    /// The count does not move.
    pub fn get_mut_unchecked(this: &mut Prc<T>) -> (r: &mut T)
        ensures
            *r == old(this).spec_data(),
            final(this).spec_data() == *final(r),
            final(this).spec_count() == old(this).spec_count(),
    {
        &mut this.data
    }

    /// Write the payload through an exclusive reference if at most one
    /// handle refers to this cell; otherwise refuse.
    pub fn get_mut(this: &mut Prc<T>) -> (r: Option<&mut T>)
        ensures
            old(this).spec_count() > 1 ==> r is None && *final(this) == *old(this),
            old(this).spec_count() <= 1 ==> (match r {
                Some(m) => {
                    &&& *m == old(this).spec_data()
                    &&& final(this).spec_data() == *final(m)
                    &&& final(this).spec_count() == old(this).spec_count()
                },
                None => false,
            }),
    {
        if this.ref_count() <= 1 {
            Some(Prc::get_mut_unchecked(this))
        } else {
            None
        }
    }
}

/// A handle to one cell of a pool, released by an explicit call rather than
/// by a destructor. Every operation names the pool the handle came from.
pub struct Entry {
    pub(crate) idx: usize,
}

impl Entry {
    /// The slab index of the cell this handle refers to.
    pub closed spec fn id(self) -> int {
        self.idx as int
    }

    pub(crate) fn from_idx(idx: usize) -> (e: Entry)
        ensures
            e.id() == idx,
    {
        Entry { idx }
    }

    pub(crate) fn index(&self) -> (i: usize)
        ensures
            i == self.id(),
    {
        self.idx
    }

    /// Read the payload this handle refers to.
    pub fn get<'a, T: Default, H: ClearHook<T>>(&self, pool: &'a Pool<T, H>) -> (r: &'a T)
        requires
            pool.valid_handle(self.id()),
        ensures
            *r == pool.cell_data(self.id()),
    {
        pool.cell_ref(self.index())
    }

    /// Write the payload this handle refers to, if this handle is the sole
    /// one; otherwise refuse.
    pub fn get_mut<'a, T: Default, H: ClearHook<T>>(&self, pool: &'a mut Pool<T, H>) -> (r:
        Option<&'a mut T>)
        requires
            old(pool).wf(),
            old(pool).valid_handle(self.id()),
        ensures
            old(pool).cell_count(self.id()) > 1 ==> r is None && *final(pool) == *old(pool),
            old(pool).cell_count(self.id()) == 1 ==> (match r {
                Some(m) => {
                    &&& *m == old(pool).cell_data(self.id())
                    &&& final(pool).wf()
                    &&& final(pool).cfg() == old(pool).cfg()
                    &&& final(pool).live(self.id())
                    &&& final(pool).cell_count(self.id()) == 1
                    &&& final(pool).cell_data(self.id()) == *final(m)
                    &&& Pool::cells_unchanged_except(*old(pool), *final(pool), set![self.id()])
                    &&& final(pool).freelist() == old(pool).freelist()
                    &&& final(pool).n_allocated() == old(pool).n_allocated()
                    &&& final(pool).created() == old(pool).created()
                    &&& final(pool).streak() == old(pool).streak()
                    &&& final(pool).extra_allocated() == old(pool).extra_allocated()
                },
                None => false,
            }),
    {
        if pool.cell_count_exec(self.index()) <= 1 {
            Some(pool.cell_mut(self.index()))
        } else {
            None
        }
    }

    /// Write the payload this handle refers to without asking whether other
    /// handles share the cell; the caller has established that none does.
    pub fn get_mut_unchecked<'a, T: Default, H: ClearHook<T>>(
        &self,
        pool: &'a mut Pool<T, H>,
    ) -> (r: &'a mut T)
        requires
            old(pool).wf(),
            old(pool).valid_handle(self.id()),
            old(pool).cell_count(self.id()) == 1,
        ensures
            *r == old(pool).cell_data(self.id()),
            final(pool).wf(),
            final(pool).cfg() == old(pool).cfg(),
            final(pool).live(self.id()),
            final(pool).cell_count(self.id()) == 1,
            final(pool).cell_data(self.id()) == *final(r),
            Pool::cells_unchanged_except(*old(pool), *final(pool), set![self.id()]),
            final(pool).freelist() == old(pool).freelist(),
            final(pool).n_allocated() == old(pool).n_allocated(),
            final(pool).created() == old(pool).created(),
            final(pool).streak() == old(pool).streak(),
            final(pool).extra_allocated() == old(pool).extra_allocated(),
    {
        pool.cell_mut(self.index())
    }

    /// A new handle to the same cell: the cell's count grows by one and the
    /// cell stays out of the free queue until every handle is released.
    pub fn duplicate<T: Default, H: ClearHook<T>>(&self, pool: &mut Pool<T, H>) -> (r: Entry)
        requires
            old(pool).wf(),
            old(pool).valid_handle(self.id()),
            old(pool).cell_count(self.id()) < usize::MAX,
        ensures
            final(pool).wf(),
            r.id() == self.id(),
            Pool::retain_step(*old(pool), *final(pool), self.id()),
    {
        pool.retain_at(self.index());
        Entry::from_idx(self.index())
    }

    /// Give this handle's reference back to the pool: the cell's count falls
    /// by one, and when this was the last handle the cell is recycled into
    /// the free queue.
    pub fn release<T: Default, H: ClearHook<T>>(self, pool: &mut Pool<T, H>)
        requires
            old(pool).wf(),
            old(pool).valid_handle(self.id()),
        ensures
            final(pool).wf(),
            old(pool).cell_count(self.id()) > 1 ==> Pool::shared_release_step(
                *old(pool),
                *final(pool),
                self.id(),
            ),
            old(pool).cell_count(self.id()) == 1 ==> Pool::recycle_step(
                *old(pool),
                *final(pool),
                self.id(),
            ),
    {
        pool.release_at(self.index())
    }
}

/// A handle to one cell of a pool, for callers that keep the pool behind a
/// shared owner and move handles between contexts. It behaves exactly as
/// `Entry` does.
pub struct OwnedEntry {
    pub(crate) idx: usize,
}

impl OwnedEntry {
    /// The slab index of the cell this handle refers to.
    pub closed spec fn id(self) -> int {
        self.idx as int
    }

    pub(crate) fn from_idx(idx: usize) -> (e: OwnedEntry)
        ensures
            e.id() == idx,
    {
        OwnedEntry { idx }
    }

    pub(crate) fn index(&self) -> (i: usize)
        ensures
            i == self.id(),
    {
        self.idx
    }

    /// Read the payload this handle refers to.
    pub fn get<'a, T: Default, H: ClearHook<T>>(&self, pool: &'a Pool<T, H>) -> (r: &'a T)
        requires
            pool.valid_handle(self.id()),
        ensures
            *r == pool.cell_data(self.id()),
    {
        pool.cell_ref(self.index())
    }

    /// Write the payload this handle refers to, if this handle is the sole
    /// one; otherwise refuse.
    pub fn get_mut<'a, T: Default, H: ClearHook<T>>(&self, pool: &'a mut Pool<T, H>) -> (r:
        Option<&'a mut T>)
        requires
            old(pool).wf(),
            old(pool).valid_handle(self.id()),
        ensures
            old(pool).cell_count(self.id()) > 1 ==> r is None && *final(pool) == *old(pool),
            old(pool).cell_count(self.id()) == 1 ==> (match r {
                Some(m) => {
                    &&& *m == old(pool).cell_data(self.id())
                    &&& final(pool).wf()
                    &&& final(pool).cfg() == old(pool).cfg()
                    &&& final(pool).live(self.id())
                    &&& final(pool).cell_count(self.id()) == 1
                    &&& final(pool).cell_data(self.id()) == *final(m)
                    &&& Pool::cells_unchanged_except(*old(pool), *final(pool), set![self.id()])
                    &&& final(pool).freelist() == old(pool).freelist()
                    &&& final(pool).n_allocated() == old(pool).n_allocated()
                    &&& final(pool).created() == old(pool).created()
                    &&& final(pool).streak() == old(pool).streak()
                    &&& final(pool).extra_allocated() == old(pool).extra_allocated()
                },
                None => false,
            }),
    {
        if pool.cell_count_exec(self.index()) <= 1 {
            Some(pool.cell_mut(self.index()))
        } else {
            None
        }
    }

    /// Write the payload this handle refers to without asking whether other
    /// handles share the cell; the caller has established that none does.
    pub fn get_mut_unchecked<'a, T: Default, H: ClearHook<T>>(
        &self,
        pool: &'a mut Pool<T, H>,
    ) -> (r: &'a mut T)
        requires
            old(pool).wf(),
            old(pool).valid_handle(self.id()),
            old(pool).cell_count(self.id()) == 1,
        ensures
            *r == old(pool).cell_data(self.id()),
            final(pool).wf(),
            final(pool).cfg() == old(pool).cfg(),
            final(pool).live(self.id()),
            final(pool).cell_count(self.id()) == 1,
            final(pool).cell_data(self.id()) == *final(r),
            Pool::cells_unchanged_except(*old(pool), *final(pool), set![self.id()]),
            final(pool).freelist() == old(pool).freelist(),
            final(pool).n_allocated() == old(pool).n_allocated(),
            final(pool).created() == old(pool).created(),
            final(pool).streak() == old(pool).streak(),
            final(pool).extra_allocated() == old(pool).extra_allocated(),
    {
        pool.cell_mut(self.index())
    }

    /// A new handle to the same cell: the cell's count grows by one and the
    /// cell stays out of the free queue until every handle is released.
    pub fn duplicate<T: Default, H: ClearHook<T>>(&self, pool: &mut Pool<T, H>) -> (r: OwnedEntry)
        requires
            old(pool).wf(),
            old(pool).valid_handle(self.id()),
            old(pool).cell_count(self.id()) < usize::MAX,
        ensures
            final(pool).wf(),
            r.id() == self.id(),
            Pool::retain_step(*old(pool), *final(pool), self.id()),
    {
        pool.retain_at(self.index());
        OwnedEntry::from_idx(self.index())
    }

    /// Give this handle's reference back to the pool: the cell's count falls
    /// by one, and when this was the last handle the cell is recycled into
    /// the free queue.
    pub fn release<T: Default, H: ClearHook<T>>(self, pool: &mut Pool<T, H>)
        requires
            old(pool).wf(),
            old(pool).valid_handle(self.id()),
        ensures
            final(pool).wf(),
            old(pool).cell_count(self.id()) > 1 ==> Pool::shared_release_step(
                *old(pool),
                *final(pool),
                self.id(),
            ),
            old(pool).cell_count(self.id()) == 1 ==> Pool::recycle_step(
                *old(pool),
                *final(pool),
                self.id(),
            ),
    {
        pool.release_at(self.index())
    }
}

} // verus!
