use std::cmp::Ordering;
use vect_crdt_rs::prelude::{FracIndex, LWWReg, UWMap, VTime};
use vect_crdt_rs::utility::{epoch_now_nanos, gen_str_id};

fn clock(counts: &[(&str, u64)]) -> VTime {
    let mut v = VTime::zero();
    for (r, n) in counts {
        v.set(r.to_string(), *n);
    }
    v
}

#[test]
fn vtime_zero_counts_nothing() {
    let v = VTime::zero();
    assert_eq!(v.count(&"r1".to_string()), 0);
    assert_eq!(v.len(), 0);
}

#[test]
fn vtime_inc_raises_one_counter() {
    let mut v = VTime::zero();
    v.inc("r1".to_string());
    v.inc("r1".to_string());
    v.inc("r2".to_string());
    assert_eq!(v.count(&"r1".to_string()), 2);
    assert_eq!(v.count(&"r2".to_string()), 1);
    assert_eq!(v.count(&"r3".to_string()), 0);
}

#[test]
fn vtime_merge_takes_the_maximum() {
    let a = clock(&[("r1", 3), ("r2", 1)]);
    let b = clock(&[("r2", 4), ("r3", 2)]);
    let m = VTime::merge(&a, &b);
    assert_eq!(m.count(&"r1".to_string()), 3);
    assert_eq!(m.count(&"r2".to_string()), 4);
    assert_eq!(m.count(&"r3".to_string()), 2);
    assert!(m == VTime::merge(&b, &a));
    assert!(VTime::merge(&a, &a) == a);
}

#[test]
fn vtime_missing_entries_read_as_zero() {
    let a = clock(&[("r1", 1)]);
    let mut b = clock(&[("r1", 1), ("r2", 5)]);
    b.set("r2".to_string(), 0);
    assert!(a == b);
    assert_eq!(a.partial_cmp(&b), Some(Ordering::Equal));
}

#[test]
fn vtime_order_has_four_outcomes() {
    let a = clock(&[("r1", 1)]);
    let b = clock(&[("r1", 2)]);
    let c = clock(&[("r2", 1)]);
    assert_eq!(a.partial_cmp(&b), Some(Ordering::Less));
    assert_eq!(b.partial_cmp(&a), Some(Ordering::Greater));
    assert_eq!(a.partial_cmp(&a.clone()), Some(Ordering::Equal));
    assert_eq!(a.partial_cmp(&c), None);
    assert_eq!(c.partial_cmp(&a), None);
    assert!(a < b);
    assert!(a.precedes(&b));
    assert!(!a.precedes(&c));
    assert!(a.leq(&a));
}

#[test]
fn vtime_order_is_transitive_on_a_chain() {
    let a = clock(&[("r1", 1)]);
    let b = clock(&[("r1", 2), ("r2", 1)]);
    let c = clock(&[("r1", 2), ("r2", 3), ("r3", 1)]);
    assert!(a < b);
    assert!(b < c);
    assert!(a < c);
}

#[test]
fn lww_merge_keeps_the_later_write() {
    let a = LWWReg::with_time("a".to_string(), 10);
    let b = LWWReg::with_time("b".to_string(), 20);
    assert_eq!(LWWReg::merge(&a, &b).val, "b");
    assert_eq!(LWWReg::merge(&b, &a).val, "b");
    assert_eq!(LWWReg::merge(&a, &b).time, 20);
}

#[test]
fn lww_merge_keeps_self_on_a_tie() {
    let a = LWWReg::with_time("a".to_string(), 10);
    let b = LWWReg::with_time("b".to_string(), 10);
    assert_eq!(LWWReg::merge(&a, &b).val, "a");
    assert_eq!(LWWReg::merge(&b, &a).val, "b");
}

#[test]
fn lww_set_overwrites() {
    let mut a = LWWReg::with_time(1i32, 10);
    a.set_at(2, 30);
    assert_eq!(*a.value(), 2);
    assert_eq!(a.time, 30);
    a.set(3);
    assert_eq!(*a.value(), 3);
    let fresh = LWWReg::new(7i32);
    assert_eq!(fresh.val, 7);
}

#[test]
fn clock_moves_on() {
    let a = epoch_now_nanos();
    let b = epoch_now_nanos();
    assert!(a > 0);
    assert!(b >= a);
}

#[test]
fn fresh_ids_are_sixteen_letters_or_digits() {
    let id = gen_str_id();
    assert_eq!(id.chars().count(), 16);
    assert!(id.chars().all(|c| c.is_ascii_alphanumeric()));
    assert_ne!(id, gen_str_id());
}

#[test]
fn default_index_is_the_terminator() {
    let d = FracIndex::default();
    assert_eq!(d.as_bytes(), &vec![128u8]);
}

#[test]
fn index_before_and_after() {
    let d = FracIndex::default();
    let before = d.new_before();
    let after = d.new_after();
    assert_eq!(before.as_bytes(), &vec![127u8, 128]);
    assert_eq!(after.as_bytes(), &vec![129u8, 128]);
    assert!(before.lt(&d));
    assert!(d.lt(&after));
    assert!(!d.lt(&d));
    assert!(!after.lt(&before));
}

#[test]
fn index_between() {
    let lo = FracIndex::default();
    let hi = lo.new_after();
    let mid = FracIndex::new_between(&lo, &hi).expect("there is room");
    assert!(lo.lt(&mid));
    assert!(mid.lt(&hi));
    assert_eq!(mid.as_bytes(), &vec![129u8, 127, 128]);
    assert!(FracIndex::new_between(&hi, &lo).is_none());
    assert!(FracIndex::new_between(&lo, &lo.clone()).is_none());
}

#[test]
fn index_between_refuses_a_zero_byte_in_the_common_part() {
    let lo = FracIndex::from_bytes(vec![0, 5, 128]).expect("terminated");
    let hi = FracIndex::from_bytes(vec![0, 7, 128]).expect("terminated");
    assert!(lo.lt(&hi));
    assert!(!FracIndex::can_go_between(&lo, &hi));
    assert!(FracIndex::new_between(&lo, &hi).is_none());
}

#[test]
fn index_from_bytes_wants_the_terminator() {
    assert!(FracIndex::from_bytes(vec![]).is_none());
    assert!(FracIndex::from_bytes(vec![1, 2, 3]).is_none());
    let p = FracIndex::from_bytes(vec![1, 2, 128]).expect("terminated");
    assert_eq!(p.as_bytes(), &vec![1u8, 2, 128]);
    assert!(p.same(&p.clone()));
}

#[test]
fn remove_then_insert_from_another_replica_is_live() {
    let mut map = UWMap::<String, LWWReg<String>>::new();
    map.insert("r1".to_string(), "k".to_string(), LWWReg::with_time("one".to_string(), 1));
    map.remove("r1".to_string(), "k".to_string());
    assert!(map.get(&"k".to_string()).is_none());
    let gone = map.clone();
    map.insert("r2".to_string(), "k".to_string(), LWWReg::with_time("two".to_string(), 2));
    assert_eq!(map.get(&"k".to_string()).map(|v| v.value().clone()), Some("two".to_string()));
    let merged = UWMap::merge(&gone, &map);
    assert_eq!(merged.get(&"k".to_string()).map(|v| v.value().clone()), Some("two".to_string()));
    let merged = UWMap::merge(&map, &gone);
    assert_eq!(merged.get(&"k".to_string()).map(|v| v.value().clone()), Some("two".to_string()));
}

#[test]
fn remove_wins_only_when_it_has_seen_the_update() {
    let mut base = UWMap::<String, LWWReg<String>>::new();
    base.insert("r1".to_string(), "k".to_string(), LWWReg::with_time("one".to_string(), 1));
    // a removal that has seen the update wins
    let mut removed = base.clone();
    removed.remove("r2".to_string(), "k".to_string());
    let merged = UWMap::merge(&base, &removed);
    assert!(merged.get(&"k".to_string()).is_none());
    // a removal beside an update it has not seen loses
    let mut updated = base.clone();
    updated.insert("r1".to_string(), "k".to_string(), LWWReg::with_time("two".to_string(), 2));
    let merged = UWMap::merge(&updated, &removed);
    assert_eq!(merged.get(&"k".to_string()).map(|v| v.value().clone()), Some("two".to_string()));
}

#[test]
fn map_merge_is_idempotent_and_commutative() {
    let mut a = UWMap::<String, LWWReg<String>>::new();
    a.insert("r1".to_string(), "x".to_string(), LWWReg::with_time("ax".to_string(), 1));
    a.insert("r1".to_string(), "y".to_string(), LWWReg::with_time("ay".to_string(), 2));
    let mut b = UWMap::<String, LWWReg<String>>::new();
    b.insert("r2".to_string(), "y".to_string(), LWWReg::with_time("by".to_string(), 3));
    b.insert("r2".to_string(), "z".to_string(), LWWReg::with_time("bz".to_string(), 4));
    b.remove("r2".to_string(), "z".to_string());
    let ab = UWMap::merge(&a, &b);
    let ba = UWMap::merge(&b, &a);
    for k in ["x", "y", "z"] {
        let k = k.to_string();
        assert_eq!(
            ab.get(&k).map(|v| v.value().clone()),
            ba.get(&k).map(|v| v.value().clone())
        );
    }
    assert_eq!(ab.get(&"y".to_string()).map(|v| v.value().clone()), Some("by".to_string()));
    assert_eq!(ab.get(&"x".to_string()).map(|v| v.value().clone()), Some("ax".to_string()));
    assert!(ab.get(&"z".to_string()).is_none());
    let aa = UWMap::merge(&a, &a);
    assert_eq!(aa.value().len(), a.value().len());
    assert_eq!(aa.get(&"x".to_string()).map(|v| v.value().clone()), Some("ax".to_string()));
}

#[test]
fn rewrite_leaves_the_clock_alone() {
    let mut map = UWMap::<String, LWWReg<String>>::new();
    map.insert("r1".to_string(), "k".to_string(), LWWReg::with_time("one".to_string(), 1));
    let before = map.updated().get(&"k".to_string()).expect("updated").clone();
    map.insert_novtime_update("k".to_string(), LWWReg::with_time("two".to_string(), 2));
    let after = map.updated().get(&"k".to_string()).expect("updated").clone();
    assert!(before == after);
    assert_eq!(map.get(&"k".to_string()).map(|v| v.value().clone()), Some("two".to_string()));
    map.inc_vtime("r1".to_string(), "k".to_string());
    let bumped = map.updated().get(&"k".to_string()).expect("updated").clone();
    assert_eq!(bumped.count(&"r1".to_string()), 2);
    assert!(map.can_write(&"r1".to_string(), &"k".to_string()));
    assert_eq!(map.stored(), 1);
}

#[test]
fn map_merge_is_associative_where_nothing_is_dropped() {
    let mut a = UWMap::<String, LWWReg<String>>::new();
    a.insert("r1".to_string(), "x".to_string(), LWWReg::with_time("ax".to_string(), 1));
    let mut b = UWMap::<String, LWWReg<String>>::new();
    b.insert("r2".to_string(), "x".to_string(), LWWReg::with_time("bx".to_string(), 2));
    b.insert("r2".to_string(), "y".to_string(), LWWReg::with_time("by".to_string(), 3));
    let mut c = UWMap::<String, LWWReg<String>>::new();
    c.insert("r3".to_string(), "y".to_string(), LWWReg::with_time("cy".to_string(), 4));
    c.insert("r3".to_string(), "z".to_string(), LWWReg::with_time("cz".to_string(), 5));
    let left = UWMap::merge(&UWMap::merge(&a, &b), &c);
    let right = UWMap::merge(&a, &UWMap::merge(&b, &c));
    for (k, v) in [("x", "bx"), ("y", "cy"), ("z", "cz")] {
        let k = k.to_string();
        assert_eq!(left.get(&k).map(|r| r.value().clone()), Some(v.to_string()));
        assert_eq!(right.get(&k).map(|r| r.value().clone()), Some(v.to_string()));
        let lu = left.updated().get(&k).expect("updated");
        let ru = right.updated().get(&k).expect("updated");
        assert!(lu == ru);
    }
    let x = left.updated().get(&"x".to_string()).expect("updated");
    assert_eq!(x.count(&"r1".to_string()), 1);
    assert_eq!(x.count(&"r2".to_string()), 1);
    assert_eq!(x.count(&"r3".to_string()), 0);
}
