use std::cell::Cell;
use topo::Cache;
use topo::Namespace;
use topo::Query;
use topo::SharedCache;
use topo::SharedLocalCache;

fn kind() -> Query {
    Query::get::<String, u32, String>()
}

#[test]
fn cache_hit_on_equal_input() {
    let mut cache: Cache<String, u32, String> = Cache::new();
    let key = "k".to_owned();
    cache.store(kind(), key.clone(), 1u32, "A".to_owned());
    assert_eq!(
        cache.get_if_arg_eq_prev_input(kind(), &key, &1u32),
        Some(&"A".to_owned())
    );
    assert_eq!(cache.get_if_arg_eq_prev_input(kind(), &key, &2u32), None);
    assert_eq!(
        cache.get_if_arg_eq_prev_input(kind(), &key, &1u32),
        Some(&"A".to_owned())
    );
}

#[test]
fn read_without_store_misses() {
    let mut cache: Cache<String, u32, String> = Cache::new();
    assert_eq!(cache.get_if_arg_eq_prev_input(kind(), &"k".to_owned(), &1u32), None);
}

#[test]
fn store_overwrites_input_and_output() {
    let mut cache: Cache<u64, u32, &str> = Cache::new();
    let kind = Query::new(1, 2, 3);
    cache.store(kind, 7, 1, "first");
    cache.store(kind, 7, 2, "second");
    assert_eq!(cache.get_if_arg_eq_prev_input(kind, &7, &1u32), None);
    assert_eq!(cache.get_if_arg_eq_prev_input(kind, &7, &2u32), Some(&"second"));
    assert_eq!(cache.get_if_arg_eq_prev_input(kind, &8, &2u32), None);
}

#[test]
fn gc_sweeps_what_was_not_read() {
    let mut cache: Cache<u64, u32, u32> = Cache::new();
    let kind = Query::new(1, 2, 3);
    cache.store(kind, 1, 10, 100);
    cache.store(kind, 2, 20, 200);
    cache.gc();
    assert_eq!(cache.get_if_arg_eq_prev_input(kind, &1, &10u32), Some(&100));
    cache.gc();
    assert_eq!(cache.get_if_arg_eq_prev_input(kind, &2, &20u32), None);
    assert_eq!(cache.get_if_arg_eq_prev_input(kind, &1, &10u32), Some(&100));
    cache.gc();
    cache.gc();
    assert_eq!(cache.get_if_arg_eq_prev_input(kind, &1, &10u32), None);
}

#[test]
fn stored_entry_survives_one_gc_and_not_two() {
    let mut once: Cache<u64, u32, u32> = Cache::new();
    let kind = Query::new(1, 2, 3);
    once.store(kind, 1, 10, 100);
    once.gc();
    assert_eq!(once.get_if_arg_eq_prev_input(kind, &1, &10u32), Some(&100));

    let mut twice: Cache<u64, u32, u32> = Cache::new();
    twice.store(kind, 1, 10, 100);
    twice.gc();
    twice.gc();
    assert_eq!(twice.get_if_arg_eq_prev_input(kind, &1, &10u32), None);
}

#[test]
fn a_miss_does_not_keep_an_entry_alive() {
    let mut cache: Cache<u64, u32, u32> = Cache::new();
    let kind = Query::new(1, 2, 3);
    cache.store(kind, 1, 10, 100);
    cache.gc();
    assert_eq!(cache.get_if_arg_eq_prev_input(kind, &1, &11u32), None);
    cache.gc();
    assert_eq!(cache.get_if_arg_eq_prev_input(kind, &1, &10u32), None);
}

#[test]
fn a_store_keeps_an_entry_alive() {
    let mut cache: Cache<u64, u32, u32> = Cache::new();
    let kind = Query::new(1, 2, 3);
    cache.store(kind, 1, 10, 100);
    cache.gc();
    cache.store(kind, 1, 10, 101);
    cache.gc();
    assert_eq!(cache.get_if_arg_eq_prev_input(kind, &1, &10u32), Some(&101));
}

#[test]
fn kinds_do_not_see_each_other() {
    let mut cache: Cache<u64, u32, u32> = Cache::new();
    let kind = Query::new(1, 2, 3);
    let other_output = Query::new(1, 2, 4);
    let other_scope = Query::new(5, 2, 3);
    cache.store(kind, 1, 10, 100);
    assert_eq!(cache.get_if_arg_eq_prev_input(other_output, &1, &10u32), None);
    assert_eq!(cache.get_if_arg_eq_prev_input(other_scope, &1, &10u32), None);
    cache.store(other_output, 1, 10, 999);
    assert_eq!(cache.get_if_arg_eq_prev_input(kind, &1, &10u32), Some(&100));
    assert_eq!(cache.get_if_arg_eq_prev_input(other_output, &1, &10u32), Some(&999));
}

#[test]
fn kinds_of_types() {
    assert_eq!(Query::get::<String, u32, String>(), Query::get::<String, u32, String>());
    assert_ne!(Query::get::<String, u32, String>(), Query::get::<String, u32, u64>());
    assert_ne!(Query::get::<String, u32, String>(), Query::get::<u8, u32, String>());
    assert_ne!(Query::get::<String, u32, String>(), Query::get::<String, i32, String>());
    let kind = Query::new(1, 2, 3);
    assert_eq!((kind.scope, kind.input, kind.output), (1, 2, 3));
}

#[test]
fn arguments_may_be_of_a_borrowed_type() {
    let mut cache: Cache<u64, String, usize> = Cache::new();
    let kind = Query::new(1, 2, 3);
    cache.store(kind, 1, "input".to_owned(), 5);
    assert_eq!(cache.get_if_arg_eq_prev_input(kind, &1, "input"), Some(&5));
    assert_eq!(cache.get_if_arg_eq_prev_input(kind, &1, "other"), None);
}

#[test]
fn namespace_reads_stores_and_sweeps() {
    let mut namespace: Namespace<&str, u32, u32> = Namespace::new();
    assert_eq!(namespace.len(), 0);
    assert_eq!(namespace.get_if_input_eq(&"a", &1u32), None);
    namespace.store("a", 1, 10);
    namespace.store("b", 2, 20);
    assert_eq!(namespace.len(), 2);
    assert_eq!(namespace.get_if_input_eq(&"a", &1u32), Some(&10));
    assert_eq!(namespace.get_if_input_eq(&"a", &2u32), None);
    namespace.gc();
    assert_eq!(namespace.len(), 2);
    assert_eq!(namespace.get_if_input_eq(&"b", &2u32), Some(&20));
    namespace.gc();
    assert_eq!(namespace.len(), 1);
    assert_eq!(namespace.get_if_input_eq(&"a", &1u32), None);
    namespace.gc();
    namespace.gc();
    assert_eq!(namespace.len(), 0);
}

#[test]
fn nested_cache_with_on_a_local_handle() {
    let handle: SharedLocalCache<String, (), i32> = SharedLocalCache::new();
    let kind = Query::get::<String, (), i32>();
    let inits = Cell::new(0);
    let run = || {
        handle.cache_with(
            kind,
            &"outer".to_owned(),
            &(),
            |_| {
                inits.set(inits.get() + 1);
                handle.cache_with(
                    kind,
                    &"inner".to_owned(),
                    &(),
                    |_| {
                        inits.set(inits.get() + 1);
                        7
                    },
                    |v| *v,
                )
            },
            |v| *v,
        )
    };
    assert_eq!(run(), 7);
    assert_eq!(inits.get(), 2);
    assert_eq!(run(), 7);
    assert_eq!(inits.get(), 2);
    let inner = handle.cache_with(kind, &"inner".to_owned(), &(), |_| 0, |v| *v);
    assert_eq!(inner, 7);
}

#[test]
fn nested_cache_with_on_a_shared_handle() {
    let handle: SharedCache<String, (), i32> = SharedCache::new();
    let kind = Query::get::<String, (), i32>();
    let inits = Cell::new(0);
    let run = || {
        handle.cache_with(
            kind,
            &"outer".to_owned(),
            &(),
            |_| {
                inits.set(inits.get() + 1);
                handle.cache_with(
                    kind,
                    &"inner".to_owned(),
                    &(),
                    |_| {
                        inits.set(inits.get() + 1);
                        7
                    },
                    |v| *v,
                )
            },
            |v| *v,
        )
    };
    assert_eq!(run(), 7);
    assert_eq!(inits.get(), 2);
    assert_eq!(run(), 7);
    assert_eq!(inits.get(), 2);
}

#[test]
fn cache_with_computes_again_for_another_argument() {
    let handle: SharedCache<u64, String, usize> = SharedCache::new();
    let kind = Query::new(1, 2, 3);
    let length = |argument: &str| handle.cache_with(kind, &1, argument, |s| s.len(), |n| *n + 1);
    assert_eq!(length("four"), 5);
    assert_eq!(length("four"), 5);
    assert_eq!(length("seventy"), 8);
    assert_eq!(length("four"), 5);
}

#[test]
fn handle_gc_sweeps_the_shared_cache() {
    let handle: SharedLocalCache<u64, u32, u32> = SharedLocalCache::new();
    let clone = handle.clone();
    let kind = Query::new(1, 2, 3);
    let inits = Cell::new(0);
    let read = |h: &SharedLocalCache<u64, u32, u32>| {
        h.cache_with(
            kind,
            &1,
            &5u32,
            |input| {
                inits.set(inits.get() + 1);
                *input * 2
            },
            |output| *output,
        )
    };
    assert_eq!(read(&handle), 10);
    clone.gc();
    assert_eq!(read(&clone), 10);
    assert_eq!(inits.get(), 1);
    handle.gc();
    handle.gc();
    assert_eq!(read(&handle), 10);
    assert_eq!(inits.get(), 2);
}

#[test]
fn shared_handle_clones_share_one_cache() {
    let handle: SharedCache<u64, u32, u32> = SharedCache::new();
    let clone = handle.clone();
    let kind = Query::new(1, 2, 3);
    assert_eq!(handle.cache_with(kind, &1, &5u32, |i| *i + 1, |o| *o), 6);
    assert_eq!(clone.cache_with(kind, &1, &5u32, |_| 0, |o| *o), 6);
    clone.gc();
    clone.gc();
    assert_eq!(handle.cache_with(kind, &1, &5u32, |_| 0, |o| *o), 0);
}

#[test]
fn reentering_a_local_handle_from_with_does_not_panic() {
    let handle: SharedLocalCache<u64, u32, u32> = SharedLocalCache::new();
    let kind = Query::new(1, 2, 3);
    assert_eq!(handle.cache_with(kind, &1, &5u32, |i| *i + 1, |o| *o), 6);
    let nested = handle.cache_with(
        kind,
        &1,
        &5u32,
        |_| 0,
        |outer| *outer + handle.cache_with(kind, &2, &5u32, |i| *i + 10, |o| *o),
    );
    assert_eq!(nested, 21);
}

#[test]
fn an_entry_read_in_one_epoch_and_not_in_the_next_is_evicted() {
    let mut namespace: Namespace<u64, u32, u32> = Namespace::new();
    namespace.store(1, 10, 100);
    namespace.gc();
    assert_eq!(namespace.get_if_input_eq(&1, &10u32), Some(&100));
    namespace.gc();
    assert_eq!(namespace.len(), 1);
    namespace.gc();
    assert_eq!(namespace.len(), 0);

    let mut cache: Cache<u64, u32, u32> = Cache::new();
    let kind = Query::new(1, 2, 3);
    cache.store(kind, 1, 10, 100);
    cache.gc();
    assert_eq!(cache.get_if_arg_eq_prev_input(kind, &1, &10u32), Some(&100));
    cache.gc();
    cache.gc();
    assert_eq!(cache.get_if_arg_eq_prev_input(kind, &1, &10u32), None);
}

#[test]
fn cache_with_on_a_cache_held_alone() {
    let mut cache: Cache<String, u32, String> = Cache::new();
    let kind = Query::get::<String, u32, String>();
    let key = "k".to_owned();
    let inits = Cell::new(0);
    let mut read = |cache: &mut Cache<String, u32, String>, arg: u32| {
        cache.cache_with(
            kind,
            &key,
            &arg,
            |input| {
                inits.set(inits.get() + 1);
                format!("made from {}", input)
            },
            |output| output.len(),
        )
    };
    assert_eq!(read(&mut cache, 1), 11);
    assert_eq!(read(&mut cache, 1), 11);
    assert_eq!(inits.get(), 1);
    assert_eq!(read(&mut cache, 22), 12);
    assert_eq!(inits.get(), 2);
    assert_eq!(
        cache.get_if_arg_eq_prev_input(kind, &key, &22u32),
        Some(&"made from 22".to_owned())
    );
    assert_eq!(cache.get_if_arg_eq_prev_input(kind, &key, &1u32), None);
}

#[test]
fn handles_from_a_cache_keep_what_it_holds() {
    let mut cache: Cache<u64, u32, u32> = Cache::default();
    let kind = Query::new(1, 2, 3);
    cache.store(kind, 1, 5, 50);
    let local = SharedLocalCache::from(cache);
    assert_eq!(local.cache_with(kind, &1, &5u32, |_| 0, |o| *o), 50);

    let mut cache: Cache<u64, u32, u32> = Cache::default();
    cache.store(kind, 1, 5, 50);
    let shared = SharedCache::from(cache);
    assert_eq!(shared.cache_with(kind, &1, &5u32, |_| 0, |o| *o), 50);
    let fresh: SharedCache<u64, u32, u32> = SharedCache::default();
    assert_eq!(fresh.cache_with(kind, &1, &5u32, |_| 0, |o| *o), 0);
}
