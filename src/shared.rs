use vstd::prelude::*;
use vstd::rwlock::RwLock;
use std::collections::hash_map::RandomState;
use std::hash::BuildHasher;
use std::sync::Arc;

use crate::pool::{Pool, Poolable};
use crate::session::Session;
use crate::{Pooled, Table, TableInvariant};

verus! {

/// Relies on `RandomState::new`: a hasher with fresh random keys.
#[verifier::external_body]
pub(crate) fn random_state() -> (r: RandomState) {
    RandomState::new()
}

/// A pool with no global state: each instance owns its own slot table, and
/// clones of an instance share it.
pub struct SharedPool<T: Poolable, S = RandomState> {
    table: Table<T, S>,
}

impl<T: Poolable, S> SharedPool<T, S> {
    /// The table this pool and its handles share.
    pub closed spec fn table(&self) -> Table<T, S> {
        self.table
    }

    /// The hasher the pool's table uses for its lookups.
    pub closed spec fn hasher(&self) -> S {
        self.table.pred().hasher
    }
}

impl<T: Poolable, S: BuildHasher> SharedPool<T, S> {
    /// A new pool using `hasher` for its lookups.
    pub fn with_hasher(hasher: S) -> (r: Self)
        ensures
            r.hasher() == hasher,
    {
        Self::with_capacity_and_hasher(0, hasher)
    }

    /// A new pool using `hasher` for its lookups, with room for
    /// `initial_capacity` values before its storage grows.
    pub fn with_capacity_and_hasher(initial_capacity: usize, hasher: S) -> (r: Self)
        ensures
            r.hasher() == hasher,
    {
        let pool = Pool::with_capacity_and_hasher(initial_capacity, hasher);
        SharedPool { table: Arc::new(RwLock::new(pool, Ghost(TableInvariant { hasher: pool.hasher }))) }
    }

    /// Takes the lock of this pool's table for a run of operations whose
    /// effect on the table is stated exactly.
    pub fn lock(&self) -> (r: Session<'_, T, S>)
        ensures
            r.wf(),
            r.table() == self.table(),
            r@.wf(),
    {
        Session::lock(&self.table, self.table.clone())
    }

    /// A handle to the canonical copy of `value` in this pool: an existing one
    /// where the pool holds an equal value, else a new one. While any handle to
    /// a value is held, every call returns a handle to that same cell.
    pub fn get(&self, value: &T::Borrowed) -> (r: Pooled<T, S>)
        ensures
            r@ == value@,
            r.table() == self.table(),
    {
        let mut session = self.lock();
        let r = session.get(value);
        session.unlock();
        r
    }

    /// A handle to every value the pool holds at the time of the call, each
    /// counted as a holder; in slot order, with no value twice.
    pub fn pooled(&self) -> (r: Vec<Pooled<T, S>>)
        ensures
            forall|k: int| 0 <= k < r@.len() ==> (#[trigger] r@[k]).table() == self.table(),
            forall|k: int, l: int| 0 <= k < l < r@.len() ==> r@[k].spec_index() < r@[l].spec_index(),
            forall|k: int, l: int| 0 <= k < l < r@.len() ==> r@[k]@ != r@[l]@,
    {
        let mut session = self.lock();
        let ghost before = session@;
        let r = session.pooled();
        session.unlock();
        assert forall|k: int| 0 <= k < r@.len() implies (#[trigger] r@[k]).table() == self.table() by {
            assert(before.live(r@[k].spec_index() as int));
        }
        assert forall|a: int, b: int| 0 <= a < b < r@.len() implies r@[a]@ != r@[b]@ by {
            let i = r@[a].spec_index() as int;
            let j = r@[b].spec_index() as int;
            assert(before.live(i) && before.live(j));
            assert(before.content(i) == r@[a]@ && before.content(j) == r@[b]@);
        }
        r
    }

    /// The slot indices that are free for reuse at the time of the call, the
    /// next to be reused last; none twice.
    pub fn free_slots(&self) -> (r: Vec<usize>)
        ensures
            forall|k: int, l: int| 0 <= k < l < r@.len() ==> r@[k] != r@[l],
    {
        let session = self.lock();
        let r = session.free_slots();
        session.unlock();
        r
    }
}

impl<T: Poolable> SharedPool<T, RandomState> {
    /// A new pool with randomly keyed hashing.
    pub fn new() -> (r: Self) {
        Self::with_capacity_and_hasher(0, random_state())
    }
}

impl<T: Poolable, S> Clone for SharedPool<T, S> {
    fn clone(&self) -> (r: Self)
        ensures
            r == *self,
    {
        SharedPool { table: self.table.clone() }
    }
}

/// A handle to a string of a shared pool.
pub type SharedString<S = RandomState> = Pooled<String, S>;

/// A handle to a byte buffer of a shared pool.
pub type SharedBuffer<S = RandomState> = Pooled<Vec<u8>, S>;

/// A shared pool of strings.
pub type StringPool<S = RandomState> = SharedPool<String, S>;

/// A shared pool of byte buffers.
pub type BufferPool<S = RandomState> = SharedPool<Vec<u8>, S>;

} // verus!
