//! A bounded object pool with verified bookkeeping.
//!
//! The pool retains constructed values of one type for reuse. Callers pull a
//! handle, use the value, and hand the handle back; when the last handle to a
//! cell is released, the cell returns to a free queue. An optional heuristic
//! (`auto_reclaim`) destroys surplus cells when demand stays below supply.
//!
//! The free queue is a `crossbeam_queue::ArrayQueue` of cell indices; the
//! reservation arithmetic that ties capacity, allocated cells and queued
//! cells together is stated in the contracts and proved.

mod builder;
mod entry;
mod pool;
mod queue;

pub use builder::Builder;
pub use entry::{Entry, OwnedEntry, Prc};
pub use pool::{ClearHook, ClearString, Config, NoHook, Pool};
