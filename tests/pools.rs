use std::collections::hash_map::RandomState;
use std::collections::HashSet;
use std::hash::{BuildHasher, Hasher};
use std::sync::atomic::{AtomicUsize, Ordering};
use std::sync::OnceLock;

use interner::global::{FnInit, GlobalPool};
use interner::pool::Pool;
use interner::shared::{SharedPool, SharedString, StringPool};
use interner::Pooled;

static GLOBAL_STRINGS: OnceLock<GlobalPool<String>> = OnceLock::new();
static GLOBAL_BUFFERS: OnceLock<GlobalPool<Vec<u8>>> = OnceLock::new();

fn global_strings() -> &'static GlobalPool<String> {
    GLOBAL_STRINGS.get_or_init(GlobalPool::new)
}

fn global_buffers() -> &'static GlobalPool<Vec<u8>> {
    GLOBAL_BUFFERS.get_or_init(GlobalPool::new)
}

fn resident(pool: &GlobalPool<String>, value: &str) -> bool {
    let all = pool.pooled();
    let found = all.iter().any(|h| h.matches(value));
    for h in all {
        h.release();
    }
    found
}

#[test]
fn basics() {
    let strings = global_strings();
    let first_symbol = strings.get("basics-test-symbol");
    let slot = first_symbol.index();
    let first_again = strings.get(String::from("basics-test-symbol").as_str());
    assert_eq!(slot, first_again.index());
    assert!(first_symbol == first_again);
    assert!(first_symbol.matches("basics-test-symbol"));
    assert_eq!(first_symbol.value().to_string(), "basics-test-symbol");
    first_again.release();
    // Giving the second copy back keeps the value resident.
    let all = strings.pooled();
    assert!(all.iter().any(|h| h.matches("basics-test-symbol")));
    assert!(!all.is_empty());
    assert!(all.iter().any(|h| h.index() == slot));
    assert!(!strings.free_slots().iter().any(|free| *free == slot));
    for h in all {
        h.release();
    }
    first_symbol.release();
    let all = strings.pooled();
    assert!(!all.iter().any(|h| h.matches("basics-test-symbol")));
    match all.iter().find(|h| h.index() == slot) {
        Some(new_symbol) => {
            // Other tests run alongside and may take the slot meanwhile.
            assert!(!new_symbol.matches("basics-test-symbol"));
        }
        None => {
            assert!(strings.free_slots().iter().any(|free| *free == slot));
        }
    }
    for h in all {
        h.release();
    }
}

#[test]
fn shared_is_separate() {
    let strings = global_strings();
    let first_symbol = strings.get("shared-is-separate-ignored");
    let from_global = strings.get("shared_is_separate");
    let shared = SharedPool::<String>::new();
    let from_shared = shared.get(String::from("shared_is_separate").as_str());
    assert!(!Pooled::ptr_eq(&from_shared, &from_global));
    let from_shared_borrowed = shared.get("shared_is_separate");
    assert!(Pooled::ptr_eq(&from_shared, &from_shared_borrowed));

    assert!(from_shared == from_global);
    assert!(from_global == from_shared);

    assert!(first_symbol != from_shared);
    assert!(from_shared != first_symbol);
}

#[test]
fn buffers() {
    let buffers = global_buffers();
    let first_symbol = buffers.get(&b"ignored-global-buffer".to_vec());
    assert!(first_symbol.matches(&b"ignored-global-buffer"[..]));
    let from_global = buffers.get(&b"shared_is_separate_buffer"[..]);
    let shared = SharedPool::<Vec<u8>>::new();
    let from_shared = shared.get(&b"shared_is_separate_buffer".to_vec());
    assert_ne!(from_shared.index(), from_global.index());
    let from_shared_borrowed = shared.get(&b"shared_is_separate_buffer"[..]);
    assert_eq!(from_shared.index(), from_shared_borrowed.index());

    assert!(from_shared == from_global);
    assert!(from_global == from_shared);

    assert!(first_symbol != from_shared);
    assert!(from_shared != first_symbol);
}

#[test]
fn hashing() {
    let mut set = HashSet::new();
    let shared = StringPool::new();
    set.insert(shared.get("hello"));
    assert!(set.contains(&shared.get("hello")));
    assert!(!set.contains(&shared.get("world")));
}

#[test]
fn with_hasher() {
    let mut set = HashSet::new();
    let shared = StringPool::with_hasher(RandomState::default());
    set.insert(shared.get("hello"));
    assert!(set.contains(&shared.get("hello")));
    assert!(!set.contains(&shared.get("world")));
}

#[test]
fn ptr_eq() {
    let pool_a = StringPool::new();
    let from_a = pool_a.get("hello");
    let pool_b = StringPool::new();
    let from_b = pool_b.get("hello");
    assert!(from_a == from_b);
    assert!(!SharedString::ptr_eq(&from_a, &from_b));

    assert!(SharedString::ptr_eq(&from_a, &pool_a.get("hello")));
}

#[test]
fn custom_global_pool() {
    #[derive(Default, Clone)]
    struct BadHasher(u8);
    impl Hasher for BadHasher {
        fn finish(&self) -> u64 {
            u64::from(self.0)
        }

        fn write(&mut self, bytes: &[u8]) {
            for byte in bytes {
                self.0 ^= *byte;
            }
        }
    }

    impl BuildHasher for BadHasher {
        type Hasher = BadHasher;

        fn build_hasher(&self) -> Self::Hasher {
            self.clone()
        }
    }

    let custom_pool: GlobalPool<String, BadHasher> = GlobalPool::with_hasher(BadHasher(0));

    let from_custom = custom_pool.get("hello");
    let global = global_strings().get("hello");
    assert!(!Pooled::ptr_eq(&from_custom, &global));
}

#[test]
fn identity_while_held() {
    let pool = StringPool::new();
    let a = pool.get("v");
    let _other = pool.get("w");
    let b = pool.get("v");
    assert!(Pooled::ptr_eq(&a, &b));
    assert_eq!(a.index(), b.index());
}

#[test]
fn release_and_recreate() {
    let pool = StringPool::new();
    let a = pool.get("a");
    let b = pool.get("a");
    assert!(Pooled::ptr_eq(&a, &b));
    let slot = a.index();
    a.release();
    b.release();
    assert!(pool.pooled().is_empty());
    assert_eq!(pool.free_slots(), vec![slot]);
    let c = pool.get("a");
    assert!(c.matches("a"));
    assert_eq!(c.value().as_str(), "a");
    assert_eq!(pool.pooled().len(), 1);
}

#[test]
fn cross_instance_distinctness() {
    let one = StringPool::new();
    let two = StringPool::new();
    let a = one.get("same");
    let b = two.get("same");
    assert!(!Pooled::ptr_eq(&a, &b));
    assert!(!Pooled::ptr_eq(&b, &a));
    assert!(a == b);
    assert!(b == a);
}

#[test]
fn slots_reused_last_freed_first() {
    let pool = StringPool::new();
    let a = pool.get("a");
    let b = pool.get("b");
    let c = pool.get("c");
    assert_eq!((a.index(), b.index(), c.index()), (0, 1, 2));
    a.release();
    c.release();
    assert_eq!(pool.free_slots(), vec![0, 2]);
    let d = pool.get("d");
    assert_eq!(d.index(), 2);
    let e = pool.get("e");
    assert_eq!(e.index(), 0);
    let f = pool.get("f");
    assert_eq!(f.index(), 3);
    assert!(pool.free_slots().is_empty());
}

#[test]
fn slot_non_aliasing() {
    let pool = StringPool::new();
    let handles: Vec<_> = ["x", "y", "z", "x", "y"].iter().map(|v| pool.get(v)).collect();
    for h in &handles {
        for k in &handles {
            if h.index() == k.index() {
                assert!(h == k);
                assert!(Pooled::ptr_eq(h, k));
            } else {
                assert!(h != k);
            }
        }
    }
    let all = pool.pooled();
    assert_eq!(all.len(), 3);
    let indices: Vec<usize> = all.iter().map(|h| h.index()).collect();
    assert_eq!(indices, vec![0, 1, 2]);
}

#[test]
fn no_leak_interleaved() {
    let pool = StringPool::new();
    let keep = pool.get("kept");
    for _ in 0..100 {
        let a = pool.get("K");
        let b = pool.get("K");
        a.release();
        let c = pool.get("K");
        c.release();
        b.release();
    }
    let all = pool.pooled();
    assert_eq!(all.len(), 1);
    assert!(all[0].matches("kept"));
    assert!(keep.matches("kept"));
}

#[test]
fn share_and_release_counts_holders() {
    let pool = StringPool::new();
    let a = pool.get("s");
    let b = a.share();
    assert!(Pooled::ptr_eq(&a, &b));
    a.release();
    let again = pool.get("s");
    assert!(Pooled::ptr_eq(&again, &b));
    again.release();
    b.release();
    assert!(pool.pooled().is_empty());
}

static FACTORY_CALLS: AtomicUsize = AtomicUsize::new(0);

#[test]
fn lazy_static_single_resolution() {
    let global: GlobalPool<String> = GlobalPool::new();
    let lazy = global.get_static_with(|| {
        FACTORY_CALLS.fetch_add(1, Ordering::SeqCst);
        String::from("lazy-value")
    });
    assert_eq!(FACTORY_CALLS.load(Ordering::SeqCst), 0);
    let first = lazy.get();
    let second = lazy.get();
    assert_eq!(FACTORY_CALLS.load(Ordering::SeqCst), 1);
    assert!(Pooled::ptr_eq(&first, &second));
    assert!(first.matches("lazy-value"));
    first.release();
    second.release();
    let third = lazy.get();
    assert!(Pooled::ptr_eq(&third, &global.get("lazy-value")));
    assert_eq!(FACTORY_CALLS.load(Ordering::SeqCst), 1);
}

#[test]
fn lazy_static_value() {
    let global: GlobalPool<Vec<u8>> = GlobalPool::new();
    let lazy = global.get_static(&b"static-bytes"[..]);
    let first = lazy.get();
    let second = lazy.get();
    assert!(Pooled::ptr_eq(&first, &second));
    assert_eq!(first.value().as_slice(), b"static-bytes");
    assert_eq!(global.pooled().len(), 1);
}

#[test]
fn scenario_get_drop_get() {
    let pool = StringPool::new();
    let a = pool.get("a");
    let b = pool.get("a");
    assert!(Pooled::ptr_eq(&a, &b));
    a.release();
    b.release();
    assert!(pool.pooled().is_empty());
    let c = pool.get("a");
    assert!(c.matches("a"));
}

#[test]
fn bytes_content_comparison() {
    let pool = SharedPool::<Vec<u8>>::new();
    let a = pool.get(&[1u8, 2, 3][..]);
    let b = pool.get(&[1u8, 2, 4][..]);
    let c = pool.get(&[1u8, 2][..]);
    assert!(a != b && a != c && b != c);
    assert!(a.matches(&[1u8, 2, 3][..]));
    assert!(!a.matches(&[1u8, 2][..]));
    assert_eq!(pool.pooled().len(), 3);
}

#[test]
fn string_content_comparison() {
    let pool = StringPool::new();
    let a = pool.get("héllo");
    let b = pool.get("hello");
    assert!(a != b);
    assert!(a.matches("héllo"));
    assert!(!a.matches("hello"));
    assert!(!pool.get("").matches("x"));
    assert!(pool.get("").matches(""));
}

static HASHER_CALLS: AtomicUsize = AtomicUsize::new(0);

#[test]
fn global_hasher_factory_runs_on_first_use() {
    let global: GlobalPool<String, RandomState, _> = GlobalPool::with_capacity_and_hasher_init(
        4,
        FnInit(|| {
            HASHER_CALLS.fetch_add(1, Ordering::SeqCst);
            RandomState::new()
        }),
    );
    assert_eq!(HASHER_CALLS.load(Ordering::SeqCst), 0);
    let a = global.get("first");
    assert_eq!(HASHER_CALLS.load(Ordering::SeqCst), 1);
    let b = global.get("first");
    assert!(Pooled::ptr_eq(&a, &b));
    assert_eq!(global.pooled().len(), 1);
    assert_eq!(HASHER_CALLS.load(Ordering::SeqCst), 1);
}

#[test]
fn default_table_is_empty() {
    let mut table: Pool<String, RandomState> = Pool::default();
    assert!(table.pooled().is_empty());
    assert!(table.free_indices().is_empty());
    let cell = table.get("x");
    assert_eq!(cell.index, 0);
    assert_eq!(cell.value.as_str(), "x");
}

#[test]
fn session_states_each_step() {
    let pool = StringPool::new();
    let mut session = pool.lock();
    let a = session.get("a");
    let b = session.get("b");
    let a2 = session.get("a");
    assert_eq!((a.index(), b.index(), a2.index()), (0, 1, 0));
    assert!(Pooled::ptr_eq(&a, &a2));
    session.release(a);
    let listed = session.pooled();
    assert_eq!(listed.len(), 2);
    assert!(listed[0].matches("a") && listed[1].matches("b"));
    for h in listed {
        session.release(h);
    }
    session.release(a2);
    assert_eq!(session.free_slots(), vec![0]);
    let c = session.get("c");
    assert_eq!(c.index(), 0);
    session.release(c);
    session.release(b);
    assert_eq!(session.free_slots(), vec![0, 1]);
    assert!(session.pooled().is_empty());
    session.unlock();
    assert!(pool.pooled().is_empty());
}

#[test]
fn global_pool_session() {
    let global: GlobalPool<Vec<u8>> = GlobalPool::new();
    let shared = global.shared();
    let mut session = shared.lock();
    let h = session.get(&b"bytes"[..]);
    assert_eq!(h.index(), 0);
    session.unlock();
    let again = global.get(&b"bytes"[..]);
    assert!(Pooled::ptr_eq(&h, &again));
}
