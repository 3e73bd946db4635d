use vstd::prelude::*;
use vstd::rwlock::{RwLock, RwLockPredicate};
use std::collections::hash_map::RandomState;
use std::hash::BuildHasher;
use std::sync::Arc;

use crate::pool::Poolable;
use crate::shared::SharedPool;
use crate::Pooled;

verus! {

/// What makes a global pool's hasher when its table is first built.
pub trait HasherInit<S>: Sized {
    /// The factory can be called.
    spec fn ready(&self) -> bool;

    /// `s` is a hasher this factory may make.
    spec fn makes(&self, s: S) -> bool;

    /// Makes the hasher.
    fn make(&self) -> (r: S)
        requires
            self.ready(),
        ensures
            self.makes(r),
    ;
}

/// Makes the hasher with `S::default()`.
pub struct DefaultInit;

impl<S: Default> HasherInit<S> for DefaultInit {
    open spec fn ready(&self) -> bool {
        true
    }

    open spec fn makes(&self, s: S) -> bool {
        true
    }

    fn make(&self) -> (r: S) {
        S::default()
    }
}

/// Makes the hasher by calling a closure.
pub struct FnInit<F>(pub F);

impl<S, F: Fn() -> S> HasherInit<S> for FnInit<F> {
    open spec fn ready(&self) -> bool {
        self.0.requires(())
    }

    open spec fn makes(&self, s: S) -> bool {
        self.0.ensures((), s)
    }

    fn make(&self) -> (r: S) {
        (self.0)()
    }
}

/// Where a global pool stands: not yet built, with what to build its table
/// from; or built.
pub enum GlobalPoolState<T: Poolable, S, I> {
    LazyInitialize { capacity: usize, init: I },
    StaticInitialize { capacity: usize, hasher: S },
    Initialized(SharedPool<T, S>),
}

/// `pool` is a table built from `origin`: with the hasher stored there, or
/// one that the stored factory makes.
pub open spec fn builds<T: Poolable, S, I: HasherInit<S>>(
    origin: GlobalPoolState<T, S, I>,
    pool: SharedPool<T, S>,
) -> bool {
    match origin {
        GlobalPoolState::LazyInitialize { capacity, init } => init.makes(pool.hasher()),
        GlobalPoolState::StaticInitialize { capacity, hasher } => pool.hasher() == hasher,
        GlobalPoolState::Initialized(p) => pool == p,
    }
}

/// A global pool's lock holds the configuration it was made with until its
/// table is built, and from then on a table built from that configuration.
pub struct BuiltFrom<T: Poolable, S, I> {
    pub origin: GlobalPoolState<T, S, I>,
}

impl<T: Poolable, S, I: HasherInit<S>> RwLockPredicate<GlobalPoolState<T, S, I>> for BuiltFrom<
    T,
    S,
    I,
> {
    open spec fn inv(self, v: GlobalPoolState<T, S, I>) -> bool {
        &&& (self.origin matches GlobalPoolState::LazyInitialize { init, .. } ==> init.ready())
        &&& match v {
            GlobalPoolState::Initialized(p) => builds(self.origin, p),
            _ => v == self.origin,
        }
    }
}

/// A pool meant to be shared process-wide, whose table is built on first use.
/// Clones of it share one table.
pub struct GlobalPool<T: Poolable, S = RandomState, I: HasherInit<S> = DefaultInit> {
    state: Arc<RwLock<GlobalPoolState<T, S, I>, BuiltFrom<T, S, I>>>,
}

/// Resolving `state` under the lock gives `next` and the table `pool`: a built
/// state stays as it is; an unbuilt one becomes a table built from `origin`.
pub open spec fn is_resolution<T: Poolable, S, I: HasherInit<S>>(
    origin: GlobalPoolState<T, S, I>,
    state: GlobalPoolState<T, S, I>,
    next: GlobalPoolState<T, S, I>,
    pool: SharedPool<T, S>,
) -> bool {
    &&& next == GlobalPoolState::<T, S, I>::Initialized(pool)
    &&& builds(origin, pool)
    &&& (state is Initialized ==> state == next)
}

impl<T: Poolable> GlobalPool<T, RandomState, DefaultInit> {
    /// A pool with randomly keyed hashing, whose hasher is made on first use.
    pub fn new() -> (r: Self)
        ensures
            r.origin() == (GlobalPoolState::<T, RandomState, DefaultInit>::LazyInitialize {
                capacity: 0,
                init: DefaultInit,
            }),
    {
        Self::with_hasher_init(DefaultInit)
    }
}

impl<T: Poolable, S, I: HasherInit<S>> GlobalPool<T, S, I> {
    /// The configuration this pool was made with.
    pub closed spec fn origin(&self) -> GlobalPoolState<T, S, I> {
        self.state.pred().origin
    }

    /// A pool whose hasher `init` makes when the pool is first used.
    pub fn with_hasher_init(init: I) -> (r: Self)
        requires
            init.ready(),
        ensures
            r.origin() == (GlobalPoolState::<T, S, I>::LazyInitialize { capacity: 0, init }),
    {
        Self::with_capacity_and_hasher_init(0, init)
    }

    /// A pool whose hasher `init` makes when the pool is first used, with room
    /// for `capacity` values.
    pub fn with_capacity_and_hasher_init(capacity: usize, init: I) -> (r: Self)
        requires
            init.ready(),
        ensures
            r.origin() == (GlobalPoolState::<T, S, I>::LazyInitialize { capacity, init }),
    {
        let state = GlobalPoolState::LazyInitialize { capacity, init };
        GlobalPool { state: Arc::new(RwLock::new(state, Ghost(BuiltFrom { origin: state }))) }
    }

    /// A pool that will use `hasher`.
    pub fn with_hasher(hasher: S) -> (r: Self)
        ensures
            r.origin() == (GlobalPoolState::<T, S, I>::StaticInitialize { capacity: 0, hasher }),
    {
        Self::with_capacity_and_hasher(0, hasher)
    }

    /// A pool that will use `hasher`, with room for `capacity` values.
    pub fn with_capacity_and_hasher(capacity: usize, hasher: S) -> (r: Self)
        ensures
            r.origin() == (GlobalPoolState::<T, S, I>::StaticInitialize { capacity, hasher }),
    {
        let state = GlobalPoolState::StaticInitialize { capacity, hasher };
        GlobalPool { state: Arc::new(RwLock::new(state, Ghost(BuiltFrom { origin: state }))) }
    }
}

impl<T: Poolable, S: BuildHasher, I: HasherInit<S>> GlobalPool<T, S, I> {
    /// One step of the state machine, under the lock: an unbuilt pool builds
    /// its table from the stored capacity and hasher, or calls the stored
    /// factory for the hasher; a built one stays as it is.
    fn resolve(state: GlobalPoolState<T, S, I>, Ghost(origin): Ghost<GlobalPoolState<T, S, I>>) -> (r: (
        GlobalPoolState<T, S, I>,
        SharedPool<T, S>,
    ))
        requires
            (BuiltFrom { origin }).inv(state),
        ensures
            is_resolution(origin, state, r.0, r.1),
    {
        match state {
            GlobalPoolState::LazyInitialize { capacity, init } => {
                let pool = SharedPool::with_capacity_and_hasher(capacity, init.make());
                (GlobalPoolState::Initialized(pool.clone()), pool)
            },
            GlobalPoolState::StaticInitialize { capacity, hasher } => {
                let pool = SharedPool::with_capacity_and_hasher(capacity, hasher);
                (GlobalPoolState::Initialized(pool.clone()), pool)
            },
            GlobalPoolState::Initialized(pool) => {
                let next = pool.clone();
                (GlobalPoolState::Initialized(pool), next)
            },
        }
    }

    /// The shared pool that owns this pool's table, built now if this is its
    /// first use; its `lock` gives exact access to the table.
    pub fn shared(&self) -> (r: SharedPool<T, S>)
        ensures
            builds(self.origin(), r),
    {
        let (state, guard) = self.state.acquire_write();
        let (next, pool) = Self::resolve(state, Ghost(self.origin()));
        guard.release_write(next);
        pool
    }

    /// A handle to the canonical copy of `value`: an existing one where the
    /// pool holds an equal value, else a new one; from a table built from this
    /// pool's configuration.
    pub fn get(&self, value: &T::Borrowed) -> (r: Pooled<T, S>)
        ensures
            r@ == value@,
            exists|p: SharedPool<T, S>| builds(self.origin(), p) && r.table() == p.table(),
    {
        let pool = self.shared();
        pool.get(value)
    }

    /// The slot indices that are free for reuse at the time of the call; none
    /// twice.
    pub fn free_slots(&self) -> (r: Vec<usize>)
        ensures
            forall|k: int, l: int| 0 <= k < l < r@.len() ==> r@[k] != r@[l],
    {
        self.shared().free_slots()
    }

    /// A handle to every value the pool holds at the time of the call, in slot
    /// order, with no value twice.
    pub fn pooled(&self) -> (r: Vec<Pooled<T, S>>)
        ensures
            forall|k: int, l: int| 0 <= k < l < r@.len() ==> r@[k].spec_index() < r@[l].spec_index(),
            forall|k: int, l: int| 0 <= k < l < r@.len() ==> r@[k]@ != r@[l]@,
            exists|p: SharedPool<T, S>|
                builds(self.origin(), p) && forall|k: int| 0 <= k < r@.len() ==> (#[trigger] r@[k]).table()
                    == p.table(),
    {
        self.shared().pooled()
    }
}

impl<T: Poolable, S, I: HasherInit<S>> Clone for GlobalPool<T, S, I> {
    fn clone(&self) -> (r: Self)
        ensures
            r == *self,
    {
        GlobalPool { state: self.state.clone() }
    }
}

impl<T: Poolable + 'static, S: BuildHasher + 'static, I: HasherInit<S> + 'static> GlobalPool<T, S, I> {
    /// An accessor that resolves `value` into a handle on its first use and
    /// hands out that same cell afterwards.
    pub fn get_static(&self, value: &'static T::Borrowed) -> (r: StaticPooled<T, S, I>)
        ensures
            r.wf(),
            r.value() == value@,
            r.pool() == *self,
    {
        StaticPooled {
            pool: self.clone(),
            value,
            cell: RwLock::new(None, Ghost(HeldValue { value: value@ })),
        }
    }

    /// An accessor that calls `init` on its first use, resolves the result
    /// into a handle, and hands out that same cell afterwards.
    pub fn get_static_with<F: Fn() -> T>(&self, init: F) -> (r: StaticPooledWith<T, S, I, F>)
        requires
            init.requires(()),
        ensures
            r.wf(),
            r.factory() == init,
            r.pool() == *self,
    {
        let ghost made = Produced { init };
        StaticPooledWith { pool: self.clone(), init, cell: RwLock::new(None, Ghost(made)) }
    }
}

/// A resolved accessor holds a handle to its value.
pub struct HeldValue<V> {
    pub value: V,
}

impl<T: Poolable, S> RwLockPredicate<Option<Pooled<T, S>>> for HeldValue<T::V> {
    open spec fn inv(self, v: Option<Pooled<T, S>>) -> bool {
        v is Some ==> v.unwrap()@ == self.value
    }
}

/// An accessor resolved by a factory holds a handle to a value the factory
/// made.
pub struct Produced<F> {
    pub init: F,
}

impl<T: Poolable, S, F: Fn() -> T> RwLockPredicate<Option<Pooled<T, S>>> for Produced<F> {
    open spec fn inv(self, v: Option<Pooled<T, S>>) -> bool {
        v is Some ==> exists|t: T| self.init.ensures((), t) && v.unwrap()@ == t@
    }
}

/// A value of a global pool resolved into a handle on first use; that handle
/// is kept, so the value stays resident for as long as the accessor lives.
pub struct StaticPooled<T: Poolable + 'static, S = RandomState, I: HasherInit<S> = DefaultInit> {
    pool: GlobalPool<T, S, I>,
    value: &'static T::Borrowed,
    cell: RwLock<Option<Pooled<T, S>>, HeldValue<T::V>>,
}

impl<T: Poolable + 'static, S: BuildHasher, I: HasherInit<S>> StaticPooled<T, S, I> {
    /// The value this accessor resolves.
    pub closed spec fn value(&self) -> T::V {
        self.value@
    }

    /// The pool this accessor resolves its value in.
    pub closed spec fn pool(&self) -> GlobalPool<T, S, I> {
        self.pool
    }

    /// The accessor's lock only ever holds a handle to its value.
    pub closed spec fn wf(&self) -> bool {
        self.cell.pred() == HeldValue { value: self.value@ }
    }

    /// A handle to the value: made from the pool on the first call, a new
    /// holder of that same cell on every later one.
    pub fn get(&self) -> (r: Pooled<T, S>)
        requires
            self.wf(),
        ensures
            r@ == self.value(),
    {
        let (held, guard) = self.cell.acquire_write();
        let handle = match held {
            Some(h) => h,
            None => self.pool.get(self.value),
        };
        let r = handle.share();
        guard.release_write(Some(handle));
        r
    }
}

/// A value of a global pool made by a factory and resolved into a handle on
/// first use; the factory runs only while no handle is held, under the
/// accessor's lock, so at most once per accessor.
#[verifier::reject_recursive_types(T)]
pub struct StaticPooledWith<T: Poolable + 'static, S, I: HasherInit<S>, F: Fn() -> T> {
    pool: GlobalPool<T, S, I>,
    init: F,
    cell: RwLock<Option<Pooled<T, S>>, Produced<F>>,
}

impl<T: Poolable + 'static, S: BuildHasher, I: HasherInit<S>, F: Fn() -> T> StaticPooledWith<
    T,
    S,
    I,
    F,
> {
    /// The factory this accessor resolves its value with.
    pub closed spec fn factory(&self) -> F {
        self.init
    }

    /// The pool this accessor resolves its value in.
    pub closed spec fn pool(&self) -> GlobalPool<T, S, I> {
        self.pool
    }

    /// The factory can be called, and the accessor's lock only ever holds a
    /// handle to a value it made.
    pub closed spec fn wf(&self) -> bool {
        &&& self.init.requires(())
        &&& self.cell.pred() == Produced { init: self.init }
    }

    /// A handle to the factory's value: on the first call the factory runs and
    /// its result is looked up in the pool; later calls add a holder to that
    /// same cell.
    pub fn get(&self) -> (r: Pooled<T, S>)
        requires
            self.wf(),
        ensures
            exists|t: T| self.factory().ensures((), t) && r@ == t@,
    {
        let (held, guard) = self.cell.acquire_write();
        let handle = match held {
            Some(h) => h,
            None => {
                let value = (self.init)();
                let h = self.pool.get(value.as_borrowed());
                assert(self.init.ensures((), value) && h@ == value@);
                h
            },
        };
        let r = handle.share();
        guard.release_write(Some(handle));
        r
    }
}

/// A handle to a string of a global pool.
pub type GlobalString<S = RandomState> = Pooled<String, S>;

/// A handle to a byte buffer of a global pool.
pub type GlobalBuffer<S = RandomState> = Pooled<Vec<u8>, S>;

/// A global pool of strings.
pub type StringPool<S = RandomState> = GlobalPool<String, S>;

/// A global pool of byte buffers.
pub type BufferPool<S = RandomState> = GlobalPool<Vec<u8>, S>;

/// A lazily resolved string of a global pool.
pub type StaticPooledString<S = RandomState> = StaticPooled<String, S>;

/// A lazily resolved byte buffer of a global pool.
pub type StaticPooledBuffer<S = RandomState> = StaticPooled<Vec<u8>, S>;

} // verus!
