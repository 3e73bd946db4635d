//! Properties of the slot table that hold across several operations.
use vstd::prelude::*;

use crate::pool::{count_up, lemma_get_wf, lemma_release_wf, Poolable, TableView};
use crate::Pooled;

verus! {

/// While some handle holds the cell for `v` (its slot is live), looking `v` up
/// returns that same slot.
pub proof fn lemma_get_while_held<V>(t: TableView<V>, v: V, i: int)
    requires
        t.wf(),
        t.live(i),
        t.content(i) == v,
    ensures
        t.get(v).1 == i,
{
    assert(t.resident(v));
    let j = t.index_of(v);
    assert(t.live(j) && t.content(j) == v);
}

/// While a handle is held in a table (its slot is live and holds its value),
/// looking its value up returns the handle's own slot.
pub proof fn lemma_held_handle_is_found<T: Poolable, S>(t: TableView<T::V>, h: Pooled<T, S>)
    requires
        t.wf(),
        t.live(h.spec_index() as int),
        t.content(h.spec_index() as int) == h@,
    ensures
        t.get(h@).1 == h.spec_index(),
{
    lemma_get_while_held(t, h@, h.spec_index() as int);
}

/// Looking a value up twice, with the first handle still held, gives the same
/// slot both times.
pub proof fn lemma_get_twice<V>(t: TableView<V>, v: V)
    requires
        t.wf(),
        t.get(v).0.slots.len() <= usize::MAX,
    ensures
        t.get(v).0.get(v).1 == t.get(v).1,
{
    lemma_get_wf(t, v);
    lemma_get_while_held(t.get(v).0, v, t.get(v).1);
}

/// Releasing the last handle of a value takes it out of the table: it is no
/// longer resident, its slot is free, and looking it up again makes a fresh
/// cell with one holder.
pub proof fn lemma_release_last<V>(t: TableView<V>, i: int)
    requires
        t.wf(),
        t.live(i),
        t.holders(i) == 1,
    ensures
        !t.release(i).resident(t.content(i)),
        t.release(i).is_free(i),
        t.release(i).wf(),
        t.release(i).get(t.content(i)).0.holders(t.release(i).get(t.content(i)).1) == 1,
{
    let v = t.content(i);
    let u = t.release(i);
    lemma_release_wf(t, i);
    if u.resident(v) {
        let j = u.index_of(v);
        assert(u.live(j) && u.content(j) == v);
        assert(t.live(j) && t.content(j) == v);
    }
    assert(u.free[u.free.len() - 1] as int == i);
    lemma_get_wf(u, v);
}

/// Two live slots of one table never hold the same value.
pub proof fn lemma_slots_not_aliased<V>(t: TableView<V>, i: int, j: int)
    requires
        t.wf(),
        t.live(i),
        t.live(j),
        i != j,
    ensures
        t.content(i) != t.content(j),
{
}

/// Two handles whose cells are resident in one table share a slot index
/// exactly when they hold the same value.
pub proof fn lemma_resident_handles<T: Poolable, S, S2>(
    t: TableView<T::V>,
    a: Pooled<T, S>,
    b: Pooled<T, S2>,
)
    requires
        t.wf(),
        t.live(a.spec_index() as int),
        t.content(a.spec_index() as int) == a@,
        t.live(b.spec_index() as int),
        t.content(b.spec_index() as int) == b@,
    ensures
        (a.spec_index() == b.spec_index()) == (a@ == b@),
{
    if a@ == b@ {
        assert(t.content(a.spec_index() as int) == t.content(b.spec_index() as int));
    }
}

/// One step on value `v`: a lookup (`true`) or the release of a handle to it
/// (`false`).
pub open spec fn step<V>(t: TableView<V>, v: V, get: bool) -> TableView<V> {
    if get {
        t.get(v).0
    } else {
        t.release(t.index_of(v))
    }
}

/// The table after a run of lookups and releases of `v`.
pub open spec fn run<V>(t: TableView<V>, v: V, ops: Seq<bool>) -> TableView<V>
    decreases ops.len(),
{
    if ops.len() == 0 {
        t
    } else {
        step(run(t, v, ops.drop_last()), v, ops.last())
    }
}

/// Handles out after a run: lookups less releases.
pub open spec fn outstanding(ops: Seq<bool>) -> int
    decreases ops.len(),
{
    if ops.len() == 0 {
        0
    } else {
        outstanding(ops.drop_last()) + if ops.last() {
            1int
        } else {
            -1int
        }
    }
}

/// No release comes before a lookup it could give back.
pub open spec fn never_overdrawn(ops: Seq<bool>) -> bool {
    forall|k: int| 0 <= k <= ops.len() ==> outstanding(#[trigger] ops.take(k)) >= 0
}

proof fn lemma_run_tracks_holders<V>(t: TableView<V>, v: V, ops: Seq<bool>)
    requires
        t.wf(),
        !t.resident(v),
        t.free.len() > 0 || t.slots.len() < usize::MAX,
        ops.len() < usize::MAX,
        never_overdrawn(ops),
    ensures
        run(t, v, ops).wf(),
        outstanding(ops) > 0 ==> run(t, v, ops).resident(v) && run(t, v, ops).holders(
            run(t, v, ops).index_of(v),
        ) == outstanding(ops),
        outstanding(ops) == 0 ==> !run(t, v, ops).resident(v) && (run(t, v, ops).free.len() > 0
            || run(t, v, ops).slots.len() < usize::MAX),
        outstanding(ops) <= ops.len(),
    decreases ops.len(),
{
    if ops.len() > 0 {
        let prev = ops.drop_last();
        assert forall|k: int| 0 <= k <= prev.len() implies outstanding(#[trigger] prev.take(k)) >= 0 by {
            assert(prev.take(k) =~= ops.take(k));
        }
        lemma_run_tracks_holders(t, v, prev);
        assert(ops.take(ops.len() as int) =~= ops);
        let s = run(t, v, prev);
        let c = outstanding(prev);
        if ops.last() {
            if c > 0 {
                let i = s.index_of(v);
                assert(s.live(i) && s.content(i) == v);
                assert(s.holders(i) == c);
                assert(count_up(s.holders(i)) == c + 1);
                lemma_get_wf(s, v);
                let u = s.get(v).0;
                lemma_get_while_held(s, v, i);
                assert(u.live(i) && u.content(i) == v);
                let j = u.index_of(v);
                assert(u.live(j) && u.content(j) == v);
                assert(j == i);
            } else {
                lemma_get_wf(s, v);
                let (u, i) = s.get(v);
                assert(u.live(i) && u.content(i) == v);
                let j = u.index_of(v);
                assert(u.live(j) && u.content(j) == v);
                assert(j == i);
            }
        } else {
            let i = s.index_of(v);
            assert(s.live(i) && s.content(i) == v);
            lemma_release_wf(s, i);
            let u = s.release(i);
            if c == 1 {
                lemma_release_last(s, i);
            } else {
                assert(u.live(i) && u.content(i) == v);
                let j = u.index_of(v);
                assert(u.live(j) && u.content(j) == v);
                assert(j == i);
            }
        }
    }
}

/// Any run of lookups and releases of a value that was not resident, in which
/// every handle taken is given back, leaves it not resident: nothing leaks,
/// however the lookups and releases interleave.
pub proof fn lemma_balanced_run_leaves_nothing<V>(t: TableView<V>, v: V, ops: Seq<bool>)
    requires
        t.wf(),
        !t.resident(v),
        t.free.len() > 0 || t.slots.len() < usize::MAX,
        ops.len() < usize::MAX,
        never_overdrawn(ops),
        outstanding(ops) == 0,
    ensures
        run(t, v, ops).wf(),
        !run(t, v, ops).resident(v),
{
    lemma_run_tracks_holders(t, v, ops);
}

} // verus!
