use std::hash::Hasher;
use topo::hashing::fnv1a;
use topo::hashing::fnv1a_of_parts;
use topo::hashing::u32_to_le_bytes;
use topo::hashing::u64_to_le_bytes;
use topo::hashing::SlotRecorder;
use topo::Callsite;
use topo::Id;
use topo::Point;

#[test]
fn fnv1a_of_known_inputs() {
    assert_eq!(fnv1a(b""), 0xcbf29ce484222325);
    assert_eq!(fnv1a(b"a"), 0xaf63dc4c8601ec8c);
    assert_eq!(fnv1a(b"foobar"), 0x85944171f73967e8);
    assert_eq!(fnv1a(b"chongo was here"), 0xa3de85bd491270ce);
}

#[test]
fn fnv1a_of_parts_is_fnv1a_of_the_whole() {
    assert_eq!(fnv1a_of_parts(b"chongo", b" was", b" here"), 0xa3de85bd491270ce);
    assert_eq!(fnv1a_of_parts(b"", b"", b""), 0xcbf29ce484222325);
    assert_eq!(fnv1a_of_parts(b"", b"a", b""), fnv1a(b"a"));
}

#[test]
fn little_endian_bytes() {
    assert_eq!(
        u64_to_le_bytes(0x0102030405060708),
        [0x08, 0x07, 0x06, 0x05, 0x04, 0x03, 0x02, 0x01]
    );
    assert_eq!(u64_to_le_bytes(0), [0; 8]);
    assert_eq!(u64_to_le_bytes(u64::MAX), [0xff; 8]);
    assert_eq!(u32_to_le_bytes(0x01020304), [0x04, 0x03, 0x02, 0x01]);
    assert_eq!(u32_to_le_bytes(255), [255, 0, 0, 0]);
    assert_eq!(u32_to_le_bytes(256), [0, 1, 0, 0]);
}

#[test]
fn recorder_keeps_what_it_is_fed() {
    let mut recorder = SlotRecorder::new();
    assert_eq!(recorder.finish(), 0xcbf29ce484222325);
    recorder.write(b"foo");
    recorder.write(b"");
    recorder.write(b"bar");
    assert_eq!(recorder.finish(), 0x85944171f73967e8);
    assert_eq!(recorder.into_bytes(), b"foobar".to_vec());
}

#[test]
fn callsite_tokens() {
    assert_eq!(Callsite::new(12).location(), 12);
    assert_eq!(Callsite::root().location(), 0);
    assert_eq!(Callsite::unlocated().location(), 1);
    assert_eq!(Callsite::new(1), Callsite::unlocated());
    assert_ne!(Callsite::new(2), Callsite::new(3));
}

#[test]
fn child_id_is_the_hash_of_parent_callsite_and_slot() {
    let child = Id::root().child(Callsite::new(9), &[1, 2, 3]);
    assert_eq!(child.to_u64(), 15300843254029829892);
    let mut bytes = vec![0u8; 8];
    bytes.extend_from_slice(&[9, 0, 0, 0, 0, 0, 0, 0]);
    bytes.extend_from_slice(&[1, 2, 3]);
    assert_eq!(child.to_u64(), fnv1a(&bytes));
    assert_ne!(child, Id::root().child(Callsite::new(9), &[1, 2, 4]));
    assert_ne!(child, Id::root().child(Callsite::new(8), &[1, 2, 3]));
    assert_ne!(child, child.child(Callsite::new(9), &[1, 2, 3]));
}

#[test]
fn root_point_has_no_children() {
    let root = Point::root();
    assert_eq!(root.id(), Id::root());
    assert_eq!(root.id().to_u64(), 0);
    assert_eq!(root.callsite(), Callsite::root());
    assert_eq!(root.unstable_callsite_count(Callsite::new(5)), 0);
    assert_eq!(Point::default(), root);
}

#[test]
fn counts_are_kept_by_callsite() {
    let mut point = Point::root();
    let here = Callsite::new(40);
    let there = Callsite::new(48);
    point.increment_count(here);
    point.increment_count(there);
    point.increment_count(here);
    assert_eq!(point.unstable_callsite_count(here), 2);
    assert_eq!(point.unstable_callsite_count(there), 1);
    assert_eq!(point.unstable_callsite_count(Callsite::new(56)), 0);
    assert_eq!(point.checked_increment_count(there), Some(2));
    assert_eq!(point.unstable_callsite_count(there), 2);
    assert_eq!(point.id(), Id::root());
}

#[test]
fn first_child_uses_count_one() {
    let mut parent = Point::root();
    let site = Callsite::new(1);
    let first = parent.child(site);
    assert_eq!(first.id().to_u64(), 11042020778898001173);
    assert_eq!(first.callsite(), site);
    assert_eq!(first.unstable_callsite_count(site), 0);
    assert_eq!(parent.unstable_callsite_count(site), 1);
    let second = parent.child(site);
    assert_eq!(second.id(), Id::root().child(site, &[2, 0, 0, 0]));
    assert_eq!(parent.unstable_callsite_count(site), 2);
    assert_ne!(first, second);
}

#[test]
fn first_65535_children_of_a_callsite_are_distinct() {
    let mut parent = Point::root();
    let site = Callsite::new(64);
    let mut seen = std::collections::HashSet::new();
    for _ in 0..65535 {
        assert!(seen.insert(parent.child(site).id()));
    }
    assert_eq!(parent.unstable_callsite_count(site), 65535);
}

#[test]
fn child_in_slot_counts_and_ignores_the_count() {
    let mut parent = Point::root();
    let site = Callsite::new(9);
    let first = parent.child_in_slot(site, &[1, 2, 3]);
    let second = parent.child_in_slot(site, &[1, 2, 3]);
    assert_eq!(first.id().to_u64(), 15300843254029829892);
    assert_eq!(first, second);
    assert_eq!(parent.unstable_callsite_count(site), 2);
}

#[test]
fn snapshot_copies_a_point() {
    let mut point = Point::root().child(Callsite::new(3));
    point.increment_count(Callsite::new(4));
    let copy = point.snapshot();
    assert_eq!(copy.id(), point.id());
    assert_eq!(copy.callsite(), point.callsite());
    assert_eq!(copy.unstable_callsite_count(Callsite::new(4)), 1);
    point.increment_count(Callsite::new(4));
    assert_eq!(copy.unstable_callsite_count(Callsite::new(4)), 1);
}

#[test]
fn points_are_equal_by_identity() {
    let mut a = Point::root();
    let b = Point::root();
    a.increment_count(Callsite::new(4));
    assert!(a == b);
    let child = a.child(Callsite::new(4));
    assert!(child != a);
}

#[test]
fn entering_a_child_of_an_owned_point() {
    let mut parent = Point::root();
    let site = Callsite::new(72);
    let before = Id::current();
    let inside = parent.unstable_enter_child(site, 5u32, || {
        topo::Point::unstable_with_current(|point| (point.id(), point.callsite()))
    });
    assert_eq!(inside.0, Id::root().child(site, &5u32.to_ne_bytes()));
    assert_eq!(inside.1, site);
    assert_eq!(parent.unstable_callsite_count(site), 1);
    assert_eq!(Id::current(), before);
}

#[test]
fn far_apart_callsites_can_hash_to_one_child() {
    let near = Callsite::new(0x600000);
    let far = Callsite::new(0x2bb824229e18dbac);
    assert_ne!(near, far);
    let slot = [1, 0, 0, 0];
    assert_eq!(Id::root().child(near, &slot).to_u64(), 10121752502721456132);
    assert_eq!(Id::root().child(far, &slot).to_u64(), 10121752502721456132);
    assert_ne!(
        Id::root().child(near, &slot),
        Id::root().child(Callsite::new(0x600001), &slot)
    );
}
