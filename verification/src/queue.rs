//! Trusted interface to the bounded lock-free ring that stores the indices of
//! the free cells.
//!
//! The pool keeps its free cells in a `crossbeam_queue::ArrayQueue<usize>`:
//! each element is the slab index of a cell whose reference count is zero.
//! Verus does not read the queue's implementation; the wrappers below state
//! what its operations do over two uninterpreted observations, the sequence of
//! queued indices (`ring_slots`, front first) and the fixed capacity the ring
//! was created with (`ring_bound`). The contracts state the queue's
//! behaviour under the access pattern this crate maintains: the pool owns
//! its ring, every mutation goes through an exclusive borrow, and reads
//! never race a mutation.

use vstd::prelude::*;

verus! {

#[verifier::external_type_specification]
#[verifier::external_body]
#[verifier::reject_recursive_types(T)]
pub struct ExArrayQueue<T>(crossbeam_queue::ArrayQueue<T>);

/// The indices currently stored in the ring, oldest (next to pop) first.
pub uninterp spec fn ring_slots(q: crossbeam_queue::ArrayQueue<usize>) -> Seq<usize>;

/// The fixed capacity the ring was created with.
pub uninterp spec fn ring_bound(q: crossbeam_queue::ArrayQueue<usize>) -> nat;

/// Relies on `crossbeam_queue::ArrayQueue::new`: builds an empty ring of the
/// given capacity. It panics when `cap` is zero or when a power of two above
/// `cap` does not fit in the index word, so both are excluded here.
#[verifier::external_body]
pub(crate) fn ring_new(cap: usize) -> (q: crossbeam_queue::ArrayQueue<usize>)
    requires
        1 <= cap <= usize::MAX / 2,
    ensures
        ring_slots(q) == Seq::<usize>::empty(),
        ring_bound(q) == cap,
{
    crossbeam_queue::ArrayQueue::new(cap)
}

/// Relies on `crossbeam_queue::ArrayQueue::push`: appends at the tail and
/// succeeds exactly when the ring is not full; a full ring hands the value
/// back unchanged.
#[verifier::external_body]
pub(crate) fn ring_push(q: &mut crossbeam_queue::ArrayQueue<usize>, v: usize) -> (r: Result<
    (),
    usize,
>)
    ensures
        ring_bound(*final(q)) == ring_bound(*old(q)),
        ring_slots(*old(q)).len() < ring_bound(*old(q)) ==> {
            &&& r == Ok::<(), usize>(())
            &&& ring_slots(*final(q)) == ring_slots(*old(q)).push(v)
        },
        ring_slots(*old(q)).len() >= ring_bound(*old(q)) ==> {
            &&& r == Err::<(), usize>(v)
            &&& ring_slots(*final(q)) == ring_slots(*old(q))
        },
{
    q.push(v)
}

/// Relies on `crossbeam_queue::ArrayQueue::pop`: removes and returns the
/// element at the head, oldest first, or returns nothing when the ring is
/// empty.
#[verifier::external_body]
pub(crate) fn ring_pop(q: &mut crossbeam_queue::ArrayQueue<usize>) -> (r: Option<usize>)
    ensures
        ring_bound(*final(q)) == ring_bound(*old(q)),
        ring_slots(*old(q)).len() == 0 ==> {
            &&& r is None
            &&& ring_slots(*final(q)) == ring_slots(*old(q))
        },
        ring_slots(*old(q)).len() > 0 ==> {
            &&& r == Some(ring_slots(*old(q))[0])
            &&& ring_slots(*final(q)) == ring_slots(*old(q)).drop_first()
        },
{
    q.pop()
}

/// Relies on `crossbeam_queue::ArrayQueue::len`: the number of elements in
/// the ring.
#[verifier::external_body]
pub(crate) fn ring_len(q: &crossbeam_queue::ArrayQueue<usize>) -> (r: usize)
    ensures
        r == ring_slots(*q).len(),
{
    q.len()
}

} // verus!
