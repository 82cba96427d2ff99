use std::collections::HashSet;
use topo::call;
use topo::call_in_slot;
use topo::Id;

#[test]
fn alternating_in_a_loop() {
    call(|| {
        let mut ids = HashSet::new();

        for i in 0..4 {
            if i % 2 == 0 {
                call(|| ids.insert(Id::current()));
            } else {
                call(|| ids.insert(Id::current()));
            }
        }

        assert_eq!(ids.len(), 4, "each callsite must produce multiple IDs");
    });
}

#[test]
fn one_child_in_a_loop() {
    call(|| {
        let root = Id::current();
        assert_eq!(
            root,
            Id::current(),
            "Id must be stable across calls within the same scope"
        );

        let mut prev = root;

        for _ in 0..100 {
            let mut called = false;
            call(|| {
                let current = Id::current();
                assert_ne!(prev, current, "each Id in this loop must be unique");
                prev = current;
                called = true;
            });

            assert_eq!(
                root,
                Id::current(),
                "Id must be stable across calls within the same scope"
            );

            let mut prev = root;

            for _ in 0..100 {
                let mut called = false;
                call(|| {
                    let current = Id::current();
                    assert_ne!(prev, current, "each Id in this loop must be unique");
                    prev = current;
                    called = true;
                });

                assert_eq!(
                    root,
                    Id::current(),
                    "outside the call must have the same Id as root"
                );
                assert!(called, "the call must be made on each loop iteration");
            }
        }
    });
}

#[test]
fn loop_over_map_with_keys_in_slots() {
    let slots = vec!["first", "second", "third", "fourth", "fifth"];

    let to_call = || {
        call(|| {
            let mut unique_ids = HashSet::new();
            for s in &slots {
                call_in_slot(s, || {
                    let current = Id::current();
                    unique_ids.insert(current);
                });
            }
            assert_eq!(slots.len(), unique_ids.len(), "must be one Id per slot");
            unique_ids
        })
    };

    let first = to_call();
    let second = to_call();
    assert_eq!(
        first, second,
        "same Ids must be produced for each slot each time"
    );
}

#[test]
fn current_id_is_the_root_outside_any_call() {
    assert_eq!(Id::current(), Id::root());
    assert_eq!(Id::current().to_u64(), 0);
}

#[test]
fn first_child_of_the_root_hashes_parent_callsite_and_count() {
    let observed = call(|| Id::current().to_u64());
    assert_eq!(observed, 11042020778898001173);
}

#[test]
fn default_slots_count_from_one_within_a_parent() {
    let (first, second) = call(|| {
        let first = call(|| Id::current().to_u64());
        let second = call(|| Id::current().to_u64());
        (first, second)
    });
    assert_eq!(first, 10307461790341743943);
    assert_eq!(second, 12617803893717995412);
}

#[test]
fn explicit_slot_is_hashed_after_parent_and_callsite() {
    let observed = topo::call_inner(topo::Callsite::new(7), 5u32, || Id::current().to_u64());
    assert_eq!(observed, 3359909922298727927);
}

#[test]
fn previous_point_is_current_again_after_a_call() {
    call(|| {
        let outer = Id::current();
        let inner = call(|| {
            let inner = Id::current();
            let innermost = call(Id::current);
            assert_ne!(inner, innermost);
            assert_eq!(inner, Id::current());
            inner
        });
        assert_ne!(outer, inner);
        assert_eq!(outer, Id::current());
    });
    assert_eq!(Id::current(), Id::root());
}

#[test]
fn call_returns_what_the_closure_returns() {
    assert_eq!(call(|| 41 + 1), 42);
    assert_eq!(call_in_slot("slot", || "done"), "done");
}

#[test]
fn distinct_callsites_give_distinct_children() {
    call(|| {
        let first = topo::call_inner(topo::Callsite::new(16), 0u32, Id::current);
        let second = topo::call_inner(topo::Callsite::new(24), 0u32, Id::current);
        assert_ne!(first, second);
    });
}

#[test]
fn same_slot_gives_same_child_whatever_was_entered_before() {
    call(|| {
        let first = call_in_slot("key", Id::current);
        call(|| ());
        let second = call_in_slot("key", Id::current);
        assert_eq!(first, second);
        let other = call_in_slot("other", Id::current);
        assert_ne!(first, other);
    });
}

#[test]
fn two_traversals_observe_the_same_ids() {
    let traverse = || {
        call(|| {
            let mut seen = vec![Id::current()];
            for _ in 0..3 {
                call(|| {
                    seen.push(Id::current());
                    call_in_slot(7u8, || seen.push(Id::current()));
                });
            }
            seen
        })
    };
    let first = traverse();
    let second = traverse();
    assert_eq!(first.len(), 7);
    assert_eq!(first, second);
}

#[test]
fn with_current_sees_the_current_point() {
    let root_id = topo::Point::unstable_with_current(|point| point.id());
    assert_eq!(root_id, Id::root());
    call(|| {
        let (id, callsite) =
            topo::Point::unstable_with_current(|point| (point.id(), point.callsite()));
        assert_eq!(id, Id::current());
        assert_eq!(callsite, topo::Callsite::unlocated());
        call(|| ());
        call(|| ());
        let count = topo::Point::unstable_with_current(|point| {
            point.unstable_callsite_count(topo::Callsite::unlocated())
        });
        assert_eq!(count, 2);
    });
}

#[test]
fn default_slot_at_a_given_callsite() {
    let site = topo::Callsite::new(7);
    let (first, second, again) = call(|| {
        let first = topo::call_at(site, Id::current);
        let second = topo::call_at(site, Id::current);
        let again = topo::call_inner(site, 1u32, Id::current);
        (first, second, again)
    });
    assert_ne!(first, second);
    assert_eq!(first, again);
    let parent = call(Id::current);
    assert_eq!(first, parent.child(site, &[1, 0, 0, 0]));
    assert_eq!(second, parent.child(site, &[2, 0, 0, 0]));
}
