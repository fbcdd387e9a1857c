use slotbimap::{DefaultKey, Entry, Record, SlotBimap, WithId};
use std::hash::RandomState;

#[test]
fn readme_walkthrough() {
    let mut map: SlotBimap<String, u32> = SlotBimap::new();

    let alice = map.insert("alice".into(), 30).id();

    assert_eq!(map.get(alice), Some(&30));
    assert_eq!(map.get_key(alice), Some(&"alice".to_string()));
    assert_eq!(map.get_id(&"alice".to_string()), Some(alice));

    *map.get_mut(alice).unwrap() += 1;
    assert_eq!(map.get(alice), Some(&31));

    let bob = map.get_or_insert("bob".into(), 25).id();
    assert_eq!(map.get_key(bob), Some(&"bob".to_string()));
    assert_eq!(map.len(), 2);

    assert_eq!(map.remove(alice), Some(31));
    assert_eq!(map.get_id(&"alice".to_string()), None);
}

#[test]
fn random_state_hasher() {
    let mut map: SlotBimap<String, u32, RandomState> = SlotBimap::new();
    let id = map.insert("k".to_string(), 1).id();
    assert_eq!(map.get_id(&"k".to_string()), Some(id));
    assert_eq!(map.get(id), Some(&1));
}

#[test]
fn default_is_empty() {
    let map: SlotBimap<u64, u64> = SlotBimap::default();
    assert!(map.is_empty());
    assert_eq!(map.len(), 0);
    assert_eq!(map.get_id(&3), None);
}

#[test]
fn insert_new_key_returns_none_and_fresh_id() {
    let mut map: SlotBimap<u64, &str> = SlotBimap::new();
    let a = map.insert(1, "one");
    let b = map.insert(2, "two");
    assert_eq!(*a.value(), None);
    assert_eq!(*b.value(), None);
    assert_ne!(a.id(), b.id());
    assert_eq!(map.len(), 2);
    assert!(!map.is_empty());
}

#[test]
fn insert_existing_key_keeps_id_and_returns_old_value() {
    let mut map: SlotBimap<u64, &str> = SlotBimap::new();
    let first = map.insert(7, "a");
    let second = map.insert(7, "b");
    assert_eq!(second.id(), first.id());
    assert_eq!(second.into_value(), Some("a"));
    assert_eq!(map.get(first.id()), Some(&"b"));
    assert_eq!(map.len(), 1);
}

#[test]
fn get_id_and_get_key_are_inverse() {
    let mut map: SlotBimap<String, u8> = SlotBimap::new();
    let ids: Vec<DefaultKey> = (0..20u8).map(|i| map.insert(format!("k{i}"), i).id()).collect();
    for (i, id) in ids.iter().enumerate() {
        let key = map.get_key(*id).unwrap().clone();
        assert_eq!(key, format!("k{i}"));
        assert_eq!(map.get_id(&key), Some(*id));
        assert_eq!(map.get(*id), Some(&(i as u8)));
    }
}

#[test]
fn remove_twice_returns_none() {
    let mut map: SlotBimap<u64, u64> = SlotBimap::new();
    let id = map.insert(5, 50).id();
    assert_eq!(map.remove(id), Some(50));
    assert_eq!(map.remove(id), None);
    assert!(!map.contains(id));
    assert!(!map.contains_key(&5));
    assert_eq!(map.get(id), None);
    assert_eq!(map.get_key(id), None);
    assert!(map.is_empty());
}

#[test]
fn removed_key_can_come_back_under_a_new_id() {
    let mut map: SlotBimap<u64, u64> = SlotBimap::new();
    let old = map.insert(5, 50).id();
    map.remove(old);
    let new = map.insert(5, 51).id();
    assert_ne!(old, new);
    assert_eq!(map.get(old), None);
    assert_eq!(map.get(new), Some(&51));
    assert_eq!(map.get_id(&5), Some(new));
}

#[test]
fn remove_keeps_other_entries() {
    let mut map: SlotBimap<u64, u64> = SlotBimap::new();
    let a = map.insert(1, 10).id();
    let b = map.insert(2, 20).id();
    assert_eq!(map.remove(a), Some(10));
    assert_eq!(map.get(b), Some(&20));
    assert_eq!(map.get_id(&2), Some(b));
    assert_eq!(map.len(), 1);
}

#[test]
fn remove_by_key_present_and_absent() {
    let mut map: SlotBimap<String, u64> = SlotBimap::new();
    let id = map.insert("x".to_string(), 9).id();
    assert_eq!(map.remove_by_key(&"y".to_string()), None);
    assert_eq!(map.len(), 1);
    assert_eq!(map.remove_by_key(&"x".to_string()), Some(9));
    assert!(!map.contains(id));
    assert_eq!(map.remove_by_key(&"x".to_string()), None);
    assert!(map.is_empty());
}

#[test]
fn get_by_key_and_get_mut_by_key() {
    let mut map: SlotBimap<u64, u64> = SlotBimap::new();
    let id = map.insert(3, 30).id();
    let found = map.get_by_key(&3).unwrap();
    assert_eq!(found.id(), id);
    assert_eq!(**found.value(), 30);
    assert!(map.get_by_key(&4).is_none());
    {
        let mut m = map.get_mut_by_key(&3).unwrap();
        assert_eq!(m.id(), id);
        **m.value_mut() = 33;
    }
    assert_eq!(map.get(id), Some(&33));
    assert!(map.get_mut_by_key(&4).is_none());
}

#[test]
fn contains_and_contains_key() {
    let mut map: SlotBimap<u64, ()> = SlotBimap::new();
    let id = map.insert(1, ()).id();
    assert!(map.contains(id));
    assert!(map.contains_key(&1));
    assert!(!map.contains_key(&2));
}

#[test]
fn entry_occupied_and_vacant() {
    let mut map: SlotBimap<u64, u64> = SlotBimap::new();
    let id = map.insert(1, 10).id();
    match map.entry(1) {
        Entry::Occupied(mut e) => {
            assert_eq!(e.id(), id);
            assert_eq!(*e.key(), 1);
            assert_eq!(*e.get(), 10);
            *e.get_mut() += 1;
            assert_eq!(e.insert(20), 11);
            assert_eq!(*e.get(), 20);
        }
        Entry::Vacant(_) => panic!("key 1 is present"),
    }
    match map.entry(2) {
        Entry::Occupied(_) => panic!("key 2 is absent"),
        Entry::Vacant(e) => {
            assert_eq!(*e.key(), 2);
            assert_eq!(e.into_key(), 2);
        }
    }
    assert_eq!(map.len(), 1);
    assert_eq!(map.entry(1).id(), Some(id));
    assert_eq!(map.entry(2).id(), None);
    assert_eq!(*map.entry(2).key(), 2);
}

#[test]
fn entry_vacant_insert_and_occupied_remove() {
    let mut map: SlotBimap<u64, u64> = SlotBimap::new();
    let w = match map.entry(4) {
        Entry::Vacant(e) => e.insert(40),
        Entry::Occupied(_) => panic!("key 4 is absent"),
    };
    let id = w.id();
    assert_eq!(**w.value(), 40);
    assert_eq!(map.get_id(&4), Some(id));
    let v = match map.entry(4) {
        Entry::Occupied(e) => e.remove(),
        Entry::Vacant(_) => panic!("key 4 is present"),
    };
    assert_eq!(v, 40);
    assert!(map.is_empty());
}

#[test]
fn occupied_into_mut_writes_through() {
    let mut map: SlotBimap<u64, u64> = SlotBimap::new();
    let id = map.insert(1, 1).id();
    if let Entry::Occupied(e) = map.entry(1) {
        *e.into_mut() = 5;
    }
    assert_eq!(map.get(id), Some(&5));
}

#[test]
fn and_modify_only_touches_occupied() {
    let mut map: SlotBimap<u64, u64> = SlotBimap::new();
    let id = map.insert(1, 1).id();
    let w = map.entry(1).and_modify(|v| *v += 10).or_insert(0);
    assert_eq!(w.id(), id);
    assert_eq!(**w.value(), 11);
    let w = map.entry(2).and_modify(|v| *v += 10).or_insert(0);
    assert_eq!(**w.value(), 0);
    assert_eq!(map.len(), 2);
}

#[test]
fn or_insert_with_calls_f_only_when_vacant() {
    let mut map: SlotBimap<u64, u64> = SlotBimap::new();
    let mut calls = 0;
    let a = map.entry(1).or_insert_with(|| {
        calls += 1;
        7
    }).id();
    let b = map.entry(1).or_insert_with(|| {
        calls += 1;
        8
    }).id();
    assert_eq!(a, b);
    assert_eq!(calls, 1);
    assert_eq!(map.get(a), Some(&7));
}

#[test]
fn or_insert_with_key_sees_the_key() {
    let mut map: SlotBimap<String, usize> = SlotBimap::new();
    let w = map.entry("four".to_string()).or_insert_with_key(|k| k.len());
    assert_eq!(**w.value(), 4);
}

#[test]
fn or_default_inserts_default() {
    let mut map: SlotBimap<u64, Vec<u8>> = SlotBimap::new();
    map.entry(1).or_default().push(3);
    map.entry(1).or_default().push(4);
    let id = map.get_id(&1).unwrap();
    assert_eq!(map.get(id), Some(&vec![3, 4]));
}

#[test]
fn or_try_insert_with_error_inserts_nothing() {
    let mut map: SlotBimap<u64, u64> = SlotBimap::new();
    let r = map.entry(1).or_try_insert_with(|| Err::<u64, &str>("no"));
    assert_eq!(r.err(), Some("no"));
    assert!(map.is_empty());
    let r = map.entry(1).or_try_insert_with(|| Ok::<u64, &str>(3));
    assert_eq!(**r.unwrap().value(), 3);
    let r = map.entry(1).or_try_insert_with(|| Err::<u64, &str>("unused"));
    assert_eq!(**r.unwrap().value(), 3);
    let r = map.entry(2).or_try_insert_with_key(|k| Ok::<u64, ()>(*k * 100));
    assert_eq!(**r.unwrap().value(), 200);
    assert_eq!(map.len(), 2);
}

#[test]
fn get_or_insert_family() {
    let mut map: SlotBimap<String, u32> = SlotBimap::new();
    let a = map.get_or_insert_with("a".into(), || 1).id();
    let a2 = map.get_or_insert_with("a".into(), || 2);
    assert_eq!(a2.id(), a);
    assert_eq!(**a2.value(), 1);
    let b = map.get_or_insert_with_key("bb".into(), |k| k.len() as u32);
    assert_eq!(**b.value(), 2);
    let c = map.get_or_insert_default("c".into());
    assert_eq!(**c.value(), 0);
    let d = map.get_or_insert_id_with("d".into(), || 4);
    assert_eq!(map.get(d), Some(&4));
    assert_eq!(map.get_or_insert_id_with("d".into(), || 5), d);
    assert_eq!(map.get(d), Some(&4));
    assert_eq!(map.len(), 4);
}

#[test]
fn get_or_try_insert_family() {
    let mut map: SlotBimap<u64, u64> = SlotBimap::new();
    assert_eq!(map.get_or_try_insert_with(1, || Err::<u64, i32>(-1)).err(), Some(-1));
    assert!(map.is_empty());
    let w = map.get_or_try_insert_with(1, || Ok::<u64, i32>(10)).unwrap();
    let id = w.id();
    assert_eq!(**w.value(), 10);
    let w = map.get_or_try_insert_with_key(2, |k| Ok::<u64, ()>(*k + 1)).unwrap();
    assert_eq!(**w.value(), 3);
    assert_eq!(map.get_or_try_insert_with_key(3, |_| Err::<u64, u8>(7)).err(), Some(7));
    assert_eq!(map.get_or_try_insert_id_with(1, || Err::<u64, ()>(())), Ok(id));
    assert_eq!(map.get_or_try_insert_id_with(9, || Err::<u64, u8>(1)), Err(1));
    let nine = map.get_or_try_insert_id_with(9, || Ok::<u64, u8>(90)).unwrap();
    assert_eq!(map.get(nine), Some(&90));
    assert_eq!(map.len(), 3);
}

#[test]
fn many_entries_survive_growth_of_the_index() {
    let mut map: SlotBimap<u64, u64> = SlotBimap::new();
    let ids: Vec<DefaultKey> = (0..1000u64).map(|k| map.insert(k, k * 2).id()).collect();
    for k in (0..1000u64).step_by(2) {
        assert_eq!(map.remove(ids[k as usize]), Some(k * 2));
    }
    assert_eq!(map.len(), 500);
    for k in 0..1000u64 {
        if k % 2 == 0 {
            assert_eq!(map.get_id(&k), None);
        } else {
            assert_eq!(map.get_id(&k), Some(ids[k as usize]));
            assert_eq!(map.get(ids[k as usize]), Some(&(k * 2)));
        }
    }
}

#[test]
fn with_id_accessors() {
    let mut w: WithId<u32> = WithId::new(DefaultKey::default(), 5);
    assert_eq!(w.id(), DefaultKey::default());
    assert_eq!(*w.value(), 5);
    *w.value_mut() = 6;
    assert_eq!(*w, 6);
    *w += 1;
    assert_eq!(w.replace_value(9), 7);
    assert_eq!(w.into_value(), 9);
}

#[test]
fn record_replace_value_keeps_key() {
    let mut r = Record { key: "k", value: 1 };
    assert_eq!(r.replace_value(2), 1);
    assert_eq!(r.key, "k");
    assert_eq!(r.value, 2);
}

#[test]
fn removed_id_is_not_handed_out_again() {
    let mut map: SlotBimap<u64, u64> = SlotBimap::new();
    let mut retired = Vec::new();
    for k in 0..50u64 {
        let id = map.insert(k, k).id();
        assert!(!retired.contains(&id));
        map.remove(id);
        assert_eq!(map.get(id), None);
        retired.push(id);
    }
    for id in &retired {
        assert!(!map.contains(*id));
        assert_eq!(map.get_key(*id), None);
    }
}

#[test]
fn insert_then_remove_restores_contents() {
    let mut map: SlotBimap<u64, u64> = SlotBimap::new();
    let a = map.insert(1, 10).id();
    let b = map.insert(2, 20).id();
    assert_eq!(map.remove(b), Some(20));
    assert_eq!(map.len(), 1);
    assert_eq!(map.get_id(&2), None);
    assert_eq!(map.get_id(&1), Some(a));
    assert_eq!(map.get(a), Some(&10));
}

#[test]
fn default_value_is_v_default() {
    let mut map: SlotBimap<u64, u64> = SlotBimap::new();
    assert_eq!(**map.get_or_insert_default(1).value(), 0);
    assert_eq!(**map.entry(2).or_default().value(), 0);
}
