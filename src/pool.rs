use vstd::prelude::*;
use std::collections::HashMap;
use std::hash::{BuildHasher, Hash};
use std::sync::Arc;
use vstd::string::StringSliceAdditionalSpecFns;

verus! {

broadcast use vstd::utf8::encode_utf8_decode_utf8;

/// A value domain that a table can hold: an owned, immutable form whose
/// contents are compared through a borrowed form of the same view.
pub trait Poolable: Sized + View {
    /// The borrowed form that lookups take, so that a hit allocates nothing.
    type Borrowed: ?Sized + Hash + View<V = <Self as View>::V>;

    /// Content equality between a resident value and a borrowed one.
    fn matches(&self, other: &Self::Borrowed) -> (r: bool)
        ensures
            r == (self@ == other@),
    ;

    /// The borrowed form of a resident value.
    fn as_borrowed(&self) -> (r: &Self::Borrowed)
        ensures
            r@ == self@,
    ;

    /// The owned form of a borrowed value; made only when a value is inserted.
    fn to_pooled(other: &Self::Borrowed) -> (r: Self)
        ensures
            r@ == other@,
    ;
}

fn bytes_equal(a: &[u8], b: &[u8]) -> (r: bool)
    ensures
        r == (a@ == b@),
{
    if a.len() != b.len() {
        return false;
    }
    let mut i: usize = 0;
    while i < a.len()
        invariant
            a@.len() == b@.len(),
            i <= a@.len(),
            forall|j: int| 0 <= j < i ==> a@[j] == b@[j],
        decreases a@.len() - i,
    {
        if a[i] != b[i] {
            return false;
        }
        i = i + 1;
    }
    assert(a@ =~= b@);
    true
}

impl Poolable for Vec<u8> {
    type Borrowed = [u8];

    fn matches(&self, other: &[u8]) -> (r: bool) {
        bytes_equal(self.as_slice(), other)
    }

    fn as_borrowed(&self) -> (r: &[u8]) {
        self.as_slice()
    }

    fn to_pooled(other: &[u8]) -> (r: Vec<u8>) {
        vstd::slice::slice_to_vec(other)
    }
}

impl Poolable for String {
    type Borrowed = str;

    fn matches(&self, other: &str) -> (r: bool) {
        let mine: &str = self.as_str();
        let r = bytes_equal(mine.as_bytes(), other.as_bytes());
        proof {
            if r {
                assert(vstd::utf8::decode_utf8(mine.spec_bytes()) == mine@);
                assert(vstd::utf8::decode_utf8(other.spec_bytes()) == other@);
            }
        }
        r
    }

    fn as_borrowed(&self) -> (r: &str) {
        self.as_str()
    }

    fn to_pooled(other: &str) -> (r: String) {
        other.to_owned()
    }
}

/// A canonical cell: the one resident copy of a value and the slot it occupies.
pub struct Data<T> {
    pub index: usize,
    pub value: T,
}

/// What a table holds for a resident cell: the cell, and how many handles to
/// it are out. A count that reaches `usize::MAX` stays there, and the cell
/// then stays resident for good.
pub struct SharedData<T> {
    pub cell: Arc<Data<T>>,
    pub holders: usize,
    pub hash: u64,
}

/// The abstract state of a slot table: for each slot index, either nothing or
/// the resident value with its holder count; and the stack of reusable indices.
pub struct TableView<V> {
    pub slots: Seq<Option<(V, nat)>>,
    pub free: Seq<usize>,
}

/// A holder count after one more holder: it stops at `usize::MAX`.
pub open spec fn count_up(h: nat) -> nat {
    if h < usize::MAX {
        h + 1
    } else {
        h
    }
}

impl<V> TableView<V> {
    /// Slot `i` exists and holds a cell.
    pub open spec fn live(self, i: int) -> bool {
        0 <= i < self.slots.len() && self.slots[i] is Some
    }

    /// The value in slot `i`, where it is live.
    pub open spec fn content(self, i: int) -> V {
        self.slots[i].unwrap().0
    }

    /// How many handles are out for the cell in slot `i`, where it is live.
    pub open spec fn holders(self, i: int) -> nat {
        self.slots[i].unwrap().1
    }

    /// Index `i` is on the free stack.
    pub open spec fn is_free(self, i: int) -> bool {
        exists|m: int| 0 <= m < self.free.len() && self.free[m] as int == i
    }

    /// Some slot holds `v`.
    pub open spec fn resident(self, v: V) -> bool {
        exists|i: int| self.live(i) && self.content(i) == v
    }

    /// The slot that holds `v`, where `resident(v)`.
    pub open spec fn index_of(self, v: V) -> int {
        choose|i: int| self.live(i) && self.content(i) == v
    }

    /// Distinct live slots hold distinct values, each with at least one
    /// holder; the free stack lists, once each, exactly the empty slots.
    pub open spec fn wf(self) -> bool {
        &&& self.slots.len() <= usize::MAX
        &&& forall|i: int, j: int|
            #![trigger self.content(i), self.content(j)]
            self.live(i) && self.live(j) && self.content(i) == self.content(j) ==> i == j
        &&& forall|i: int| #[trigger] self.live(i) ==> 0 < self.holders(i) <= usize::MAX
        &&& forall|k: int|
            #![trigger self.free[k]]
            0 <= k < self.free.len() ==> 0 <= self.free[k] < self.slots.len() && !self.live(
                self.free[k] as int,
            )
        &&& forall|k: int, l: int|
            #![trigger self.free[k], self.free[l]]
            0 <= k < l < self.free.len() ==> self.free[k] != self.free[l]
        &&& forall|i: int| 0 <= i < self.slots.len() && !#[trigger] self.live(i) ==> self.is_free(i)
    }

    /// Looking up `v`: a resident value gains a holder; otherwise `v` goes into
    /// the most recently freed slot, or into a new slot at the end.
    pub open spec fn get(self, v: V) -> (TableView<V>, int) {
        if self.resident(v) {
            let i = self.index_of(v);
            (
                TableView {
                    slots: self.slots.update(i, Some((v, count_up(self.holders(i))))),
                    free: self.free,
                },
                i,
            )
        } else if self.free.len() > 0 {
            let i = self.free.last() as int;
            (TableView { slots: self.slots.update(i, Some((v, 1))), free: self.free.drop_last() }, i)
        } else {
            (TableView { slots: self.slots.push(Some((v, 1))), free: self.free }, self.slots.len() as int)
        }
    }

    /// One more handle to the value in slot `i`.
    pub open spec fn retain(self, i: int) -> TableView<V> {
        if self.live(i) {
            TableView {
                slots: self.slots.update(i, Some((self.content(i), count_up(self.holders(i))))),
                free: self.free,
            }
        } else {
            self
        }
    }

    /// One handle fewer to the value in slot `i`; the last one frees the slot.
    pub open spec fn release(self, i: int) -> TableView<V> {
        if !self.live(i) || self.holders(i) == usize::MAX {
            self
        } else if self.holders(i) == 1 {
            TableView { slots: self.slots.update(i, None), free: self.free.push(i as usize) }
        } else {
            TableView {
                slots: self.slots.update(i, Some((self.content(i), (self.holders(i) - 1) as nat))),
                free: self.free,
            }
        }
    }

    /// Every resident value gains a holder.
    pub open spec fn retain_all(self) -> TableView<V> {
        TableView {
            slots: self.slots.map_values(
                |s: Option<(V, nat)>|
                    match s {
                        Some(p) => Some((p.0, count_up(p.1))),
                        None => None,
                    },
            ),
            free: self.free,
        }
    }
}

/// A table that differs from a well-formed one only in the holder count of
/// live slot `i`, still positive, is well formed.
proof fn lemma_recount_wf<V>(t: TableView<V>, u: TableView<V>, i: int)
    requires
        t.wf(),
        t.live(i),
        u.free == t.free,
        u.slots.len() == t.slots.len(),
        forall|k: int| 0 <= k < t.slots.len() && k != i ==> u.slots[k] == t.slots[k],
        u.live(i),
        u.content(i) == t.content(i),
        0 < u.holders(i) <= usize::MAX,
    ensures
        u.wf(),
{
    assert forall|k: int| #[trigger] u.live(k) implies 0 < u.holders(k) <= usize::MAX by {
        assert(t.live(k));
    }
    assert forall|k: int| #![trigger u.free[k]] 0 <= k < u.free.len() implies 0 <= u.free[k]
        < u.slots.len() && !u.live(u.free[k] as int) by {
        assert(t.free[k] < t.slots.len());
    }
    assert forall|k: int| 0 <= k < u.slots.len() && !#[trigger] u.live(k) implies u.is_free(k) by {
        assert(!t.live(k));
        assert(t.is_free(k));
    }
    assert forall|a: int, b: int| #![trigger u.content(a), u.content(b)]
        u.live(a) && u.live(b) && u.content(a) == u.content(b) implies a == b by {
        assert(t.live(a) && t.live(b) && t.content(a) == t.content(b));
    }
    assert forall|k: int, l: int| #![trigger u.free[k], u.free[l]]
        0 <= k < l < u.free.len() implies u.free[k] != u.free[l] by {
        assert(t.free[k] != t.free[l]);
    }
}

/// Filling slot `i` of a well-formed table with a value it does not hold,
/// with one holder, keeps live values distinct and counted.
proof fn lemma_fill_frame<V>(t: TableView<V>, u: TableView<V>, i: int, v: V)
    requires
        t.wf(),
        !t.resident(v),
        !t.live(i),
        t.slots.len() <= u.slots.len(),
        forall|k: int| 0 <= k < t.slots.len() && k != i ==> u.slots[k] == t.slots[k],
        forall|k: int| t.slots.len() <= k < u.slots.len() && k != i ==> !u.live(k),
        u.live(i),
        u.content(i) == v,
        u.holders(i) == 1,
    ensures
        forall|a: int, b: int|
            #![trigger u.content(a), u.content(b)]
            u.live(a) && u.live(b) && u.content(a) == u.content(b) ==> a == b,
        forall|k: int| #[trigger] u.live(k) ==> 0 < u.holders(k) <= usize::MAX,
{
    assert forall|a: int, b: int| #![trigger u.content(a), u.content(b)]
        u.live(a) && u.live(b) && u.content(a) == u.content(b) implies a == b by {
        if a != i && b != i {
            assert(t.live(a) && t.live(b) && t.content(a) == t.content(b));
        } else if a == i && b != i {
            assert(t.live(b) && t.content(b) == v);
        } else if a != i && b == i {
            assert(t.live(a) && t.content(a) == v);
        }
    }
    assert forall|k: int| #[trigger] u.live(k) implies 0 < u.holders(k) <= usize::MAX by {
        if k != i {
            assert(t.live(k));
        }
    }
}

/// A lookup keeps a table well formed and leaves the value in the slot it
/// returns.
pub proof fn lemma_get_wf<V>(t: TableView<V>, v: V)
    requires
        t.wf(),
        t.get(v).0.slots.len() <= usize::MAX,
    ensures
        t.get(v).0.wf(),
        t.get(v).0.live(t.get(v).1),
        t.get(v).0.content(t.get(v).1) == v,
        t.get(v).1 < t.get(v).0.slots.len(),
{
    let (u, i) = t.get(v);
    if t.resident(v) {
        assert(t.live(i) && t.content(i) == v);
        lemma_recount_wf(t, u, i);
    } else if t.free.len() > 0 {
        let last = t.free.len() - 1;
        assert(t.free[last] == i);
        assert(!t.live(i));
        lemma_fill_frame(t, u, i, v);
        assert forall|k: int| #![trigger u.free[k]] 0 <= k < u.free.len() implies 0 <= u.free[k]
            < u.slots.len() && !u.live(u.free[k] as int) by {
            assert(u.free[k] == t.free[k]);
            assert(t.free[k] != t.free[last]);
        }
        assert forall|k: int| 0 <= k < u.slots.len() && !#[trigger] u.live(k) implies u.is_free(k) by {
            assert(k != i);
            assert(!t.live(k));
            assert(t.is_free(k));
            let m = choose|m: int| 0 <= m < t.free.len() && t.free[m] as int == k;
            assert(m != last);
            assert(u.free[m] == t.free[m]);
        }
        assert forall|k: int, l: int| #![trigger u.free[k], u.free[l]]
            0 <= k < l < u.free.len() implies u.free[k] != u.free[l] by {
            assert(t.free[k] != t.free[l]);
        }
        assert(u.wf());
    } else {
        lemma_fill_frame(t, u, i, v);
        assert forall|k: int| #![trigger u.free[k]] 0 <= k < u.free.len() implies 0 <= u.free[k]
            < u.slots.len() && !u.live(u.free[k] as int) by {
            assert(t.free[k] < t.slots.len());
        }
        assert forall|k: int| 0 <= k < u.slots.len() && !#[trigger] u.live(k) implies u.is_free(k) by {
            assert(k != i);
            assert(!t.live(k));
        }
        assert forall|k: int, l: int| #![trigger u.free[k], u.free[l]]
            0 <= k < l < u.free.len() implies u.free[k] != u.free[l] by {
            assert(t.free[k] != t.free[l]);
        }
        assert(u.wf());
    }
}

/// Adding a holder keeps a table well formed.
pub proof fn lemma_retain_wf<V>(t: TableView<V>, i: int)
    requires
        t.wf(),
    ensures
        t.retain(i).wf(),
{
    if t.live(i) {
        lemma_recount_wf(t, t.retain(i), i);
    }
}

/// Releasing a holder keeps a table well formed.
pub proof fn lemma_release_wf<V>(t: TableView<V>, i: int)
    requires
        t.wf(),
    ensures
        t.release(i).wf(),
{
    let u = t.release(i);
    if !t.live(i) || t.holders(i) == usize::MAX {
    } else if t.holders(i) == 1 {
        assert forall|a: int, b: int| #![trigger u.content(a), u.content(b)]
            u.live(a) && u.live(b) && u.content(a) == u.content(b) implies a == b by {
            assert(t.live(a) && t.live(b) && t.content(a) == t.content(b));
        }
        assert forall|k: int| #[trigger] u.live(k) implies 0 < u.holders(k) <= usize::MAX by {
            assert(t.live(k));
        }
        assert forall|k: int| #![trigger u.free[k]] 0 <= k < u.free.len() implies 0 <= u.free[k]
            < u.slots.len() && !u.live(u.free[k] as int) by {
            if k < t.free.len() {
                assert(u.free[k] == t.free[k]);
                assert(t.free[k] < t.slots.len());
            } else {
                assert(u.free[k] as int == i);
            }
        }
        assert forall|k: int, l: int| #![trigger u.free[k], u.free[l]]
            0 <= k < l < u.free.len() implies u.free[k] != u.free[l] by {
            assert(u.free[k] == t.free[k]);
            if l < t.free.len() {
                assert(u.free[l] == t.free[l]);
                assert(t.free[k] != t.free[l]);
            } else {
                assert(u.free[l] as int == i);
                assert(t.free[k] < t.slots.len() && !t.live(t.free[k] as int));
            }
        }
        assert forall|k: int| 0 <= k < u.slots.len() && !#[trigger] u.live(k) implies u.is_free(k) by {
            if k == i {
                assert(u.free[t.free.len() as int] as int == i);
            } else {
                assert(!t.live(k));
                assert(t.is_free(k));
                let m = choose|m: int| 0 <= m < t.free.len() && t.free[m] as int == k;
                assert(u.free[m] == t.free[m]);
            }
        }
    } else {
        lemma_recount_wf(t, u, i);
    }
}

/// The abstract content of one slot.
pub open spec fn slot_view<T: View>(s: Option<SharedData<T>>) -> Option<(T::V, nat)> {
    match s {
        Some(d) => Some((d.cell.value@, d.holders as nat)),
        None => None,
    }
}

/// Relies on `BuildHasher::hash_one`: the hash of `value` under `hasher`.
#[verifier::external_body]
fn hash_with<S: BuildHasher, B: ?Sized + Hash>(hasher: &S, value: &B) -> u64 {
    hasher.hash_one(value)
}

/// A slot table: canonical cells by slot index, a stack of free indices, and
/// an index of the occupied slots by the hash of their values.
///
/// The hash index only speeds up finding a resident value. That a value is
/// absent is always confirmed against the slots themselves, so at most one
/// cell per value never rests on how the hasher behaves.
pub struct Pool<T, S> {
    pub active: HashMap<u64, Vec<usize>>,
    pub slots: Vec<Option<SharedData<T>>>,
    pub free_slots: Vec<usize>,
    pub hasher: S,
}

impl<T: Poolable, S> View for Pool<T, S> {
    type V = TableView<T::V>;

    open spec fn view(&self) -> TableView<T::V> {
        TableView { slots: self.slots@.map_values(|s: Option<SharedData<T>>| slot_view(s)), free: self.free_slots@ }
    }
}

impl<T: Poolable, S> Pool<T, S> {
    /// The abstract table is well formed, and each cell knows its own slot.
    pub open spec fn wf(&self) -> bool {
        &&& self@.wf()
        &&& forall|i: int|
            0 <= i < self.slots@.len() && #[trigger] self.slots@[i] is Some ==> self.slots@[i].unwrap().cell.index == i
    }
}

impl<T: Poolable, S: BuildHasher> Pool<T, S> {
    /// An empty table. `capacity` is how many values it takes before its
    /// slot array grows.
    pub fn with_capacity_and_hasher(capacity: usize, hasher: S) -> (r: Self)
        ensures
            r.wf(),
            r@.slots.len() == 0,
            r@.free.len() == 0,
            r.hasher == hasher,
    {
        let r = Pool {
            active: HashMap::new(),
            slots: Vec::with_capacity(capacity),
            free_slots: Vec::new(),
            hasher,
        };
        assert(r@.slots =~= Seq::<Option<(T::V, nat)>>::empty());
        r
    }

    /// The slot that holds a value equal to `value`, if one does: first among
    /// the slots indexed under `hash`, then among all.
    fn find(&self, value: &T::Borrowed, hash: u64) -> (r: Option<usize>)
        requires
            self.wf(),
        ensures
            match r {
                Some(i) => self@.live(i as int) && self@.content(i as int) == value@,
                None => !self@.resident(value@),
            },
    {
        match self.active.get(&hash) {
            Some(bucket) => {
                let mut k: usize = 0;
                while k < bucket.len()
                    invariant
                        k <= bucket@.len(),
                    decreases bucket@.len() - k,
                {
                    let i = bucket[k];
                    if i < self.slots.len() {
                        match &self.slots[i] {
                            Some(d) => {
                                if d.cell.value.matches(value) {
                                    return Some(i);
                                }
                            },
                            None => {},
                        }
                    }
                    k = k + 1;
                }
            },
            None => {},
        }
        let mut i: usize = 0;
        while i < self.slots.len()
            invariant
                i <= self.slots@.len(),
                forall|j: int| 0 <= j < i ==> !(self@.live(j) && self@.content(j) == value@),
            decreases self.slots@.len() - i,
        {
            match &self.slots[i] {
                Some(d) => {
                    if d.cell.value.matches(value) {
                        return Some(i);
                    }
                },
                None => {},
            }
            i = i + 1;
        }
        None
    }

    /// Adds one holder to slot `i`, which is resident.
    fn count_holder(&mut self, i: usize) -> (r: Arc<Data<T>>)
        requires
            old(self).wf(),
            old(self)@.live(i as int),
        ensures
            final(self).wf(),
            final(self)@ == old(self)@.retain(i as int),
            final(self).hasher == old(self).hasher,
            r.index == i,
            r.value@ == old(self)@.content(i as int),
    {
        let d = self.slots[i].as_ref().unwrap();
        let cell = d.cell.clone();
        let holders = if d.holders < usize::MAX {
            d.holders + 1
        } else {
            d.holders
        };
        let ghost before = self@;
        let hash = d.hash;
        self.slots.set(i, Some(SharedData { cell: cell.clone(), holders, hash }));
        assert(self@.slots =~= before.retain(i as int).slots);
        proof {
            lemma_retain_wf(before, i as int);
        }
        cell
    }

    /// Returns the cell that holds `value`, counting one more holder of it;
    /// on a miss, the value is copied into a new cell in a free slot.
    pub fn get(&mut self, value: &T::Borrowed) -> (r: Arc<Data<T>>)
        requires
            old(self).wf(),
        ensures
            final(self).wf(),
            (final(self)@, r.index as int) == old(self)@.get(value@),
            r.value@ == value@,
            final(self).hasher == old(self).hasher,
    {
        let hash = hash_with(&self.hasher, value);
        match self.find(value, hash) {
            Some(i) => {
                proof {
                    assert(self@.live(self@.index_of(value@)));
                    assert(self@.index_of(value@) == i);
                    lemma_get_wf(self@, value@);
                }
                self.count_holder(i)
            },
            None => {
                let ghost before = self@;
                let index = match self.free_slots.pop() {
                    Some(free) => {
                        assert(before.free[before.free.len() - 1] < before.slots.len());
                        free
                    },
                    None => {
                        let fresh = self.slots.len();
                        self.slots.push(None);
                        fresh
                    },
                };
                let cell = Arc::new(Data { index, value: T::to_pooled(value) });
                self.slots.set(index, Some(SharedData { cell: cell.clone(), holders: 1, hash }));
                self.index_insert(hash, index);
                assert(self.slots.len() == self@.slots.len());
                proof {
                    lemma_get_wf(before, value@);
                    assert(self@.slots =~= before.get(value@).0.slots);
                    assert(self@.free =~= before.get(value@).0.free);
                }
                cell
            },
        }
    }

    /// Removes one holder of the cell in slot `index`; when the last one goes,
    /// the slot is emptied and its index pushed on the free stack.
    pub fn release(&mut self, index: usize)
        requires
            old(self).wf(),
        ensures
            final(self).wf(),
            final(self)@ == old(self)@.release(index as int),
            final(self).hasher == old(self).hasher,
    {
        let ghost before = self@;
        proof {
            lemma_release_wf(before, index as int);
        }
        if index >= self.slots.len() {
            return;
        }
        match &self.slots[index] {
            None => {},
            Some(d) => {
                if d.holders == usize::MAX {
                } else if d.holders == 1 {
                    let hash = d.hash;
                    self.slots.set(index, None);
                    self.free_slots.push(index);
                    self.index_remove(hash, index);
                    assert(self@.slots =~= before.release(index as int).slots);
                    assert(self@.free =~= before.release(index as int).free);
                } else {
                    let cell = d.cell.clone();
                    let holders = d.holders - 1;
                    let hash = d.hash;
                    self.slots.set(index, Some(SharedData { cell, holders, hash }));
                    assert(self@.slots =~= before.release(index as int).slots);
                }
            },
        }
    }

    /// A cell for every resident value, in slot order, each counted as one more
    /// holder.
    pub fn pooled(&mut self) -> (r: Vec<Arc<Data<T>>>)
        requires
            old(self).wf(),
        ensures
            final(self).wf(),
            final(self)@ == old(self)@.retain_all(),
            final(self).hasher == old(self).hasher,
            forall|k: int|
                0 <= k < r@.len() ==> old(self)@.live(#[trigger] r@[k].index as int)
                    && old(self)@.content(r@[k].index as int) == r@[k].value@,
            forall|k: int, l: int| 0 <= k < l < r@.len() ==> r@[k].index < r@[l].index,
            forall|i: int| #[trigger] old(self)@.live(i) ==> exists|k: int| 0 <= k < r@.len() && r@[k].index == i,
    {
        let ghost before = self@;
        let mut r: Vec<Arc<Data<T>>> = Vec::new();
        let mut i: usize = 0;
        while i < self.slots.len()
            invariant
                self.wf(),
                self.hasher == old(self).hasher,
                i <= self.slots@.len(),
                self@.slots.len() == before.slots.len(),
                self@.free == before.free,
                forall|j: int|
                    0 <= j < self@.slots.len() ==> #[trigger] self@.slots[j] == if j < i {
                        before.retain_all().slots[j]
                    } else {
                        before.slots[j]
                    },
                forall|k: int|
                    0 <= k < r@.len() ==> before.live(#[trigger] r@[k].index as int)
                        && before.content(r@[k].index as int) == r@[k].value@ && r@[k].index < i,
                forall|k: int, l: int| 0 <= k < l < r@.len() ==> r@[k].index < r@[l].index,
                forall|j: int|
                    0 <= j < i && #[trigger] before.live(j) ==> exists|k: int| 0 <= k < r@.len() && r@[k].index == j,
            decreases self.slots@.len() - i,
        {
            if self.slots[i].is_some() {
                let ghost mid = self@;
                let ghost old_r = r@;
                assert(mid.slots[i as int] == before.slots[i as int]);
                let cell = self.count_holder(i);
                r.push(cell);
                assert(r@[r@.len() - 1].index == i);
                assert forall|j: int| 0 <= j < i + 1 && #[trigger] before.live(j) implies exists|k: int|
                    0 <= k < r@.len() && r@[k].index == j by {
                    if j < i {
                        let k = choose|k: int| 0 <= k < old_r.len() && old_r[k].index == j;
                        assert(r@[k] == old_r[k]);
                    } else {
                        assert(r@[r@.len() - 1].index == j);
                    }
                }
                assert forall|j: int| 0 <= j < self@.slots.len() implies #[trigger] self@.slots[j] == if j < i + 1 {
                    before.retain_all().slots[j]
                } else {
                    before.slots[j]
                } by {
                    if j == i {
                        assert(self@.slots[j] == mid.retain(i as int).slots[j]);
                    }
                }
            }
            i = i + 1;
        }
        assert(self@.slots =~= before.retain_all().slots);
        r
    }

    /// One more holder of the value of `cell`, where its slot holds that value.
    pub fn retain_cell(&mut self, cell: &Arc<Data<T>>)
        requires
            old(self).wf(),
        ensures
            final(self).wf(),
            final(self)@ == if old(self)@.live(cell.index as int) && old(self)@.content(cell.index as int)
                == cell.value@ {
                old(self)@.retain(cell.index as int)
            } else {
                old(self)@
            },
            final(self).hasher == old(self).hasher,
    {
        let i = cell.index;
        if i < self.slots.len() {
            let resident = match &self.slots[i] {
                Some(d) => d.cell.value.matches(cell.value.as_borrowed()),
                None => false,
            };
            if resident {
                self.count_holder(i);
            }
        }
    }

    /// One holder fewer of the value of `cell`, where its slot holds that value.
    pub fn release_cell(&mut self, cell: &Arc<Data<T>>)
        requires
            old(self).wf(),
        ensures
            final(self).wf(),
            final(self)@ == if old(self)@.live(cell.index as int) && old(self)@.content(cell.index as int)
                == cell.value@ {
                old(self)@.release(cell.index as int)
            } else {
                old(self)@
            },
            final(self).hasher == old(self).hasher,
    {
        let i = cell.index;
        if i < self.slots.len() {
            let resident = match &self.slots[i] {
                Some(d) => d.cell.value.matches(cell.value.as_borrowed()),
                None => false,
            };
            if resident {
                self.release(i);
            }
        }
    }

    /// Files slot `i` under `hash` in the hash index.
    fn index_insert(&mut self, hash: u64, i: usize)
        ensures
            final(self).slots == old(self).slots,
            final(self).free_slots == old(self).free_slots,
            final(self).hasher == old(self).hasher,
    {
        let mut bucket = match self.active.remove(&hash) {
            Some(b) => b,
            None => Vec::new(),
        };
        bucket.push(i);
        self.active.insert(hash, bucket);
    }

    /// Takes slot `i` out from under `hash` in the hash index.
    fn index_remove(&mut self, hash: u64, i: usize)
        ensures
            final(self).slots == old(self).slots,
            final(self).free_slots == old(self).free_slots,
            final(self).hasher == old(self).hasher,
    {
        match self.active.remove(&hash) {
            Some(mut bucket) => {
                let mut k: usize = 0;
                while k < bucket.len()
                    invariant
                        k <= bucket@.len(),
                    decreases bucket@.len() - k,
                {
                    if bucket[k] == i {
                        bucket.swap_remove(k);
                        break;
                    }
                    k = k + 1;
                }
                if bucket.len() > 0 {
                    self.active.insert(hash, bucket);
                }
            },
            None => {},
        }
    }

    /// The free slot indices, the next to be reused last.
    pub fn free_indices(&self) -> (r: Vec<usize>)
        ensures
            r@ == self@.free,
    {
        let mut r: Vec<usize> = Vec::new();
        let mut k: usize = 0;
        while k < self.free_slots.len()
            invariant
                k <= self.free_slots@.len(),
                r@ == self.free_slots@.take(k as int),
            decreases self.free_slots@.len() - k,
        {
            r.push(self.free_slots[k]);
            k = k + 1;
            assert(r@ =~= self.free_slots@.take(k as int));
        }
        assert(self.free_slots@.take(k as int) =~= self.free_slots@);
        r
    }
}

impl<T: Poolable> Default for Pool<T, std::collections::hash_map::RandomState> {
    /// An empty table with randomly keyed hashing.
    fn default() -> (r: Self)
        ensures
            r.wf(),
            r@.slots.len() == 0,
            r@.free.len() == 0,
    {
        Pool::with_capacity_and_hasher(0, crate::shared::random_state())
    }
}

} // verus!
