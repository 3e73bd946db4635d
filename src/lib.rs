//! Interning pools: one canonical, shared copy of each distinct value, handed
//! out as cheap handles that compare by identity.
//!
//! A pool owns a slot table (`pool::Pool`): a dense array of slots, each empty
//! or holding one canonical cell with the number of handles out for it, a
//! stack of free slot indices, and an index of the occupied slots by hash.
//! The table sits behind a lock whose predicate is the table's
//! well-formedness, so every operation starts from a well-formed table and
//! must leave one.
//!
//! Handles are given back with `Pooled::release`. The holder count of a cell
//! lives in the table and changes under its lock, so a release that races
//! with a lookup of the same value is serialised by the lock: the lookup
//! either finds the cell with a holder left, or finds it gone and makes a new
//! one. When the last holder is released, the slot is emptied and its index
//! pushed on the free stack for reuse.
//!
//! `SharedPool::lock` opens a `session::Session`: the table under its lock,
//! whose operations state exactly what they do to the table's abstract state
//! (`pool::TableView`), so that properties across several operations, such as
//! those in `laws`, apply to code that uses the pools. The single-call
//! methods (`get`, `pooled`, `Pooled::release`) each run one short session.
//!
//! `shared::SharedPool` is a pool built at once and owned by its clones;
//! `global::GlobalPool` builds its table on first use and is meant to be
//! placed in a process-wide static. `laws` states what holds of the table
//! across several operations.
use vstd::prelude::*;
use vstd::rwlock::{RwLock, RwLockPredicate};
use std::hash::BuildHasher;
use std::sync::Arc;

pub mod global;
pub mod laws;
pub mod pool;
pub mod session;
pub mod shared;

use crate::pool::{Data, Pool, Poolable};
use crate::session::Session;

verus! {

/// The lock of a slot table only ever holds a well-formed table that uses
/// the hasher the table was made with.
pub struct TableInvariant<S> {
    pub hasher: S,
}

impl<T: Poolable, S> RwLockPredicate<Pool<T, S>> for TableInvariant<S> {
    open spec fn inv(self, v: Pool<T, S>) -> bool {
        v.wf() && v.hasher == self.hasher
    }
}

/// A slot table behind its lock, shared by the pool and by every handle.
pub type Table<T, S> = Arc<RwLock<Pool<T, S>, TableInvariant<S>>>;

/// Relies on `Arc::ptr_eq`: true only where both point to one allocation,
/// which then holds one value.
#[verifier::external_body]
pub(crate) fn same_allocation<A>(a: &Arc<A>, b: &Arc<A>) -> (r: bool)
    ensures
        r ==> a == b,
{
    Arc::ptr_eq(a, b)
}

/// Relies on `Hash for usize`: feeds `index` to `state`.
#[verifier::external_body]
fn feed_index<H: std::hash::Hasher>(index: usize, state: &mut H) {
    std::hash::Hash::hash(&index, state)
}

/// A handle to the canonical copy of a value in a pool.
///
/// Handles to one cell compare by identity in constant time. A handle counts
/// as a holder of its cell until `release` is called on it; when the last
/// holder is released the cell leaves its table. A handle dropped without
/// `release` stays counted, and its value then stays resident.
pub struct Pooled<T: Poolable, S> {
    cell: Arc<Data<T>>,
    table: Table<T, S>,
}

impl<T: Poolable, S> View for Pooled<T, S> {
    type V = T::V;

    open spec fn view(&self) -> T::V {
        self.cell().value@
    }
}

impl<T: Poolable, S> Pooled<T, S> {
    /// The cell this handle refers to.
    pub closed spec fn cell(&self) -> Data<T> {
        *self.cell
    }

    /// The table the cell belongs to.
    pub closed spec fn table(&self) -> Table<T, S> {
        self.table
    }

    /// The slot index of the cell.
    pub open spec fn spec_index(&self) -> usize {
        self.cell().index
    }

    pub(crate) fn new(cell: Arc<Data<T>>, table: Table<T, S>) -> (r: Self)
        ensures
            r.cell() == *cell,
            r.table() == table,
    {
        Pooled { cell, table }
    }

    /// True where both handles refer to the very same cell of the same table.
    /// Never compares contents.
    pub fn ptr_eq<S2>(this: &Self, other: &Pooled<T, S2>) -> (r: bool)
        ensures
            r ==> this.cell() == other.cell(),
            r ==> this@ == other@ && this.spec_index() == other.spec_index(),
    {
        same_allocation(&this.cell, &other.cell)
    }

    /// A copy of this handle that is not counted as a holder.
    pub(crate) fn duplicate(&self) -> (r: Self)
        ensures
            r.cell() == self.cell(),
            r.table() == self.table(),
    {
        Pooled { cell: self.cell.clone(), table: self.table.clone() }
    }

    /// The cell itself.
    pub(crate) fn cell_ref(&self) -> (r: &Arc<Data<T>>)
        ensures
            r.index == self.spec_index(),
            r.value@ == self@,
    {
        &self.cell
    }

    /// The slot index of the cell within its table.
    pub fn index(&self) -> (r: usize)
        ensures
            r == self.spec_index(),
    {
        self.cell.index
    }

    /// The canonical value.
    pub fn value(&self) -> (r: &T)
        ensures
            r@ == self@,
    {
        &self.cell.value
    }

    /// Content equality with a borrowed value.
    pub fn matches(&self, other: &T::Borrowed) -> (r: bool)
        ensures
            r == (self@ == other@),
    {
        self.cell.value.matches(other)
    }

    /// Content equality: identical cells are equal at once; otherwise the
    /// values are compared.
    pub fn content_eq(&self, other: &Self) -> (r: bool)
        ensures
            r == (self@ == other@),
    {
        if Pooled::ptr_eq(self, other) {
            true
        } else {
            self.cell.value.matches(other.cell.value.as_borrowed())
        }
    }
}

impl<T: Poolable, S: BuildHasher> Pooled<T, S> {
    /// A second handle to the same cell, counted as one more holder.
    pub fn share(&self) -> (r: Self)
        ensures
            r.cell() == self.cell(),
            r.table() == self.table(),
    {
        let mut session = Session::lock(&self.table, self.table.clone());
        let r = session.share(self);
        session.unlock();
        r
    }

    /// Gives this handle up. When it was the last one out for its value, the
    /// cell leaves the table and its slot index becomes free for reuse.
    pub fn release(self) {
        let table = self.table.clone();
        let mut session = Session::lock(&table, self.table.clone());
        session.release(self);
        session.unlock();
    }
}

impl<T: Poolable, S> PartialEq for Pooled<T, S> {
    fn eq(&self, other: &Self) -> (r: bool) {
        self.content_eq(other)
    }
}

impl<T: Poolable, S> vstd::std_specs::cmp::PartialEqSpecImpl for Pooled<T, S> {
    open spec fn obeys_eq_spec() -> bool {
        true
    }

    open spec fn eq_spec(&self, other: &Self) -> bool {
        self@ == other@
    }
}

impl<T: Poolable, S> Eq for Pooled<T, S> {
}

/// Hashes the slot index, not the contents: within one table distinct
/// resident values never share an index. Handles of different tables are not
/// meant to be mixed in one hashed collection.
impl<T: Poolable, S> std::hash::Hash for Pooled<T, S> {
    fn hash<H: std::hash::Hasher>(&self, state: &mut H) {
        feed_index(self.cell.index, state);
    }
}

} // verus!
