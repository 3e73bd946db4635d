use vstd::prelude::*;
use vstd::rwlock::WriteHandle;
use std::hash::BuildHasher;

use crate::pool::{Pool, Poolable, TableView};
use crate::{Pooled, Table, TableInvariant};

verus! {

/// A pool's table held under its lock. While a session lasts no other thread
/// reaches the table, so what each operation does to it is stated exactly, in
/// terms of the table's abstract state; `unlock` hands the table back.
pub struct Session<'a, T: Poolable, S> {
    pool: Pool<T, S>,
    guard: WriteHandle<'a, Pool<T, S>, TableInvariant<S>>,
    shared: Table<T, S>,
}

impl<'a, T: Poolable, S> View for Session<'a, T, S> {
    type V = TableView<T::V>;

    open spec fn view(&self) -> TableView<T::V> {
        self.pool()@
    }
}

impl<'a, T: Poolable, S> Session<'a, T, S> {
    /// The table as it stands in this session.
    pub closed spec fn pool(&self) -> Pool<T, S> {
        self.pool
    }

    /// The shared table this session holds the lock of.
    pub closed spec fn table(&self) -> Table<T, S> {
        self.shared
    }

    /// The table is well formed, and is the one the held lock guards.
    pub closed spec fn wf(&self) -> bool {
        &&& self.pool.wf()
        &&& self.guard.rwlock() == *self.shared
        &&& self.pool.hasher == self.shared.pred().hasher
    }

    /// Takes the lock of `table`.
    pub(crate) fn lock(table: &'a Table<T, S>, shared: Table<T, S>) -> (r: Self)
        requires
            *table == *shared,
        ensures
            r.wf(),
            r@.wf(),
            r.table() == shared,
    {
        let (pool, guard) = table.acquire_write();
        Session { pool, guard, shared }
    }

    /// Hands the table back and lets other threads reach it.
    pub fn unlock(self)
        requires
            self.wf(),
    {
        self.guard.release_write(self.pool);
    }
}

impl<'a, T: Poolable, S: BuildHasher> Session<'a, T, S> {
    /// A handle to the canonical copy of `value`: the resident cell where the
    /// table holds an equal value, else a new cell in the most recently freed
    /// slot or at the end.
    pub fn get(&mut self, value: &T::Borrowed) -> (r: Pooled<T, S>)
        requires
            old(self).wf(),
        ensures
            final(self).wf(),
            final(self)@.wf(),
            final(self).table() == old(self).table(),
            final(self)@ == old(self)@.get(value@).0,
            r.spec_index() == old(self)@.get(value@).1,
            r@ == value@,
            r.table() == old(self).table(),
    {
        let cell = self.pool.get(value);
        Pooled::new(cell, self.shared.clone())
    }

    /// A second handle to the cell of `handle`, counted as one more holder of
    /// its value.
    pub fn share(&mut self, handle: &Pooled<T, S>) -> (r: Pooled<T, S>)
        requires
            old(self).wf(),
        ensures
            final(self).wf(),
            final(self)@.wf(),
            final(self).table() == old(self).table(),
            final(self)@ == if old(self)@.live(handle.spec_index() as int) && old(self)@.content(
                handle.spec_index() as int,
            ) == handle@ {
                old(self)@.retain(handle.spec_index() as int)
            } else {
                old(self)@
            },
            r.cell() == handle.cell(),
            r.table() == handle.table(),
    {
        self.pool.retain_cell(handle.cell_ref());
        handle.duplicate()
    }

    /// Gives `handle` up: its value loses a holder, and the slot is freed when
    /// that was the last one.
    pub fn release(&mut self, handle: Pooled<T, S>)
        requires
            old(self).wf(),
        ensures
            final(self).wf(),
            final(self)@.wf(),
            final(self).table() == old(self).table(),
            final(self)@ == if old(self)@.live(handle.spec_index() as int) && old(self)@.content(
                handle.spec_index() as int,
            ) == handle@ {
                old(self)@.release(handle.spec_index() as int)
            } else {
                old(self)@
            },
    {
        self.pool.release_cell(handle.cell_ref());
    }

    /// A handle to every resident value, in slot order, each counted as one
    /// more holder.
    pub fn pooled(&mut self) -> (r: Vec<Pooled<T, S>>)
        requires
            old(self).wf(),
        ensures
            final(self).wf(),
            final(self)@.wf(),
            final(self).table() == old(self).table(),
            final(self)@ == old(self)@.retain_all(),
            forall|k: int|
                0 <= k < r@.len() ==> old(self)@.live(#[trigger] r@[k].spec_index() as int)
                    && old(self)@.content(r@[k].spec_index() as int) == r@[k]@ && r@[k].table()
                    == old(self).table(),
            forall|k: int, l: int| 0 <= k < l < r@.len() ==> r@[k].spec_index() < r@[l].spec_index(),
            forall|i: int|
                #[trigger] old(self)@.live(i) ==> exists|k: int| 0 <= k < r@.len() && r@[k].spec_index() == i,
    {
        let ghost before = self@;
        let cells = self.pool.pooled();
        let mut r: Vec<Pooled<T, S>> = Vec::new();
        let mut k: usize = 0;
        while k < cells.len()
            invariant
                k <= cells@.len(),
                r@.len() == k,
                forall|j: int|
                    0 <= j < k ==> (#[trigger] r@[j]).table() == self.shared && r@[j].cell() == *cells@[j],
            decreases cells@.len() - k,
        {
            r.push(Pooled::new(cells[k].clone(), self.shared.clone()));
            k = k + 1;
        }
        assert forall|i: int| #[trigger] before.live(i) implies exists|k: int|
            0 <= k < r@.len() && r@[k].spec_index() == i by {
            let k = choose|k: int| 0 <= k < cells@.len() && cells@[k].index == i;
            assert(r@[k].cell() == *cells@[k]);
        }
        assert forall|k: int|
            0 <= k < r@.len() implies before.live(#[trigger] r@[k].spec_index() as int) && before.content(
                r@[k].spec_index() as int,
            ) == r@[k]@ && r@[k].table() == self.shared by {
            assert(r@[k].cell() == *cells@[k]);
        }
        assert forall|a: int, b: int| 0 <= a < b < r@.len() implies r@[a].spec_index()
            < r@[b].spec_index() by {
            assert(r@[a].cell() == *cells@[a]);
            assert(r@[b].cell() == *cells@[b]);
        }
        r
    }

    /// The free slot indices, the next to be reused last.
    pub fn free_slots(&self) -> (r: Vec<usize>)
        requires
            self.wf(),
        ensures
            r@ == self@.free,
    {
        self.pool.free_indices()
    }
}

} // verus!
