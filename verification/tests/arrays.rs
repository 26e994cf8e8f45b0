use phper::arrays::{ArrKey, Entry, InsertKey, Iter, IterKey, Key, VacantEntry, ZArr};
use phper::values::ZVal;

fn text(v: &ZVal) -> Vec<u8> {
    v.as_z_str().unwrap().to_bytes().to_vec()
}

#[test]
fn arrays_new_drop() {
    let mut a1 = ZArr::new();
    a1.insert(InsertKey::Str("foo"), ZVal::from_bytes(b"FOO"));
    let mut a2 = ZArr::new();
    a2.insert(InsertKey::Str("bar"), ZVal::from_bytes(b"BAR"));
    assert_eq!(text(a1.get(Key::Str("foo")).unwrap()), b"FOO".to_vec());
    assert_eq!(text(a2.get(Key::Str("bar")).unwrap()), b"BAR".to_vec());
}

#[test]
fn arrays_types() {
    let mut a = ZArr::new();
    a.insert(InsertKey::Index(0), ZVal::from_long(0));
    a.insert(InsertKey::Index(1), ZVal::from_long(1));
    a.insert(InsertKey::Str("foo"), ZVal::from_bytes(b"bar"));
    let mut inner = ZArr::new();
    inner.insert(InsertKey::Index(0), ZVal::from_long(0));
    inner.insert(InsertKey::Index(1), ZVal::from_long(1));
    a.insert(InsertKey::Str("arr"), ZVal::from_z_array(inner));

    assert_eq!(a.get(Key::Index(0)).unwrap().as_long(), Some(0));
    assert_eq!(a.get(Key::Index(1)).unwrap().as_long(), Some(1));
    assert_eq!(text(a.get(Key::Str("foo")).unwrap()), b"bar".to_vec());
    let arr = a.get(Key::Str("arr")).unwrap().as_z_arr().unwrap();
    assert_eq!(arr.get(Key::Index(0)).unwrap().as_long(), Some(0));
    assert_eq!(arr.get(Key::Index(1)).unwrap().as_long(), Some(1));
    assert!(a.get(Key::Index(10)).is_none());
    assert!(a.get(Key::Str("not_exists")).is_none());
}

#[test]
fn arrays_insert() {
    let mut a = ZArr::new();
    assert_eq!(a.len(), 0);

    a.insert(InsertKey::NextIndex, ZVal::from_bytes(b"0"));
    assert_eq!(text(a.get(Key::Index(0)).unwrap()), b"0".to_vec());
    assert_eq!(a.len(), 1);

    a.insert(InsertKey::Index(10), ZVal::from_bytes(b"10"));
    assert_eq!(text(a.get(Key::Index(10)).unwrap()), b"10".to_vec());
    assert_eq!(a.len(), 2);

    a.insert(InsertKey::Index(10), ZVal::from_bytes(b"foo"));
    assert_eq!(text(a.get(Key::Index(10)).unwrap()), b"foo".to_vec());
    assert_eq!(a.len(), 2);

    a.insert(InsertKey::NextIndex, ZVal::from_bytes(b"11"));
    assert_eq!(text(a.get(Key::Index(11)).unwrap()), b"11".to_vec());
    assert_eq!(a.len(), 3);

    a.insert(InsertKey::NextIndex, ZVal::from_bytes(b"12"));
    assert_eq!(text(a.get(Key::Index(12)).unwrap()), b"12".to_vec());
    assert_eq!(a.len(), 4);

    a.insert(InsertKey::Str("foo"), ZVal::from_bytes(b"bar"));
    assert_eq!(text(a.get(Key::Str("foo")).unwrap()), b"bar".to_vec());
    assert_eq!(a.len(), 5);

    a.insert(InsertKey::Str("foo"), ZVal::from_bytes(b"bar2"));
    assert_eq!(text(a.get(Key::Str("foo")).unwrap()), b"bar2".to_vec());
    assert_eq!(a.len(), 5);

    assert!(a.get(Key::Index(13)).is_none());
    assert_eq!(a.len(), 5);
}

#[test]
fn arrays_exists() {
    let mut a = ZArr::new();
    assert!(!a.exists_key(Key::Str("foo")));
    a.insert(InsertKey::Str("foo"), ZVal::from_bytes(b"bar"));
    assert!(a.exists_key(Key::Str("foo")));
}

#[test]
fn arrays_remove() {
    let mut a = ZArr::new();
    a.insert(InsertKey::Index(10), ZVal::from_long(10));
    a.insert(InsertKey::Str("foo"), ZVal::from_bytes(b"bar"));

    assert!(a.exists_key(Key::Index(10)));
    assert!(a.remove(Key::Index(10)));
    assert!(!a.exists_key(Key::Index(10)));
    assert!(!a.remove(Key::Index(10)));

    assert!(a.exists_key(Key::Str("foo")));
    assert!(a.remove(Key::Str("foo")));
    assert!(!a.exists_key(Key::Str("foo")));
    assert!(!a.remove(Key::Str("foo")));
}

#[test]
fn arrays_for_each() {
    let mut a = ZArr::new();
    a.insert(InsertKey::Index(0), ZVal::from_long(0));
    a.insert(InsertKey::NextIndex, ZVal::from_long(1));
    a.insert(InsertKey::Str("foo"), ZVal::from_bytes(b"bar"));

    let items = a.iter();
    assert_eq!(items.len(), 3);
    assert!(matches!(items[0].0, IterKey::Index(0)));
    assert_eq!(items[0].1.as_long(), Some(0));
    assert!(matches!(items[1].0, IterKey::Index(1)));
    assert_eq!(items[1].1.as_long(), Some(1));
    match items[2].0 {
        IterKey::ZStr(k) => assert_eq!(k.to_bytes(), b"foo"),
        _ => panic!("a string key was expected"),
    }
    assert_eq!(text(items[2].1), b"bar".to_vec());
}

#[test]
fn numeric_string_key_is_integer_key() {
    let mut a = ZArr::new();
    a.insert(InsertKey::Index(42), ZVal::from_long(1));
    a.insert(InsertKey::Str("42"), ZVal::from_long(2));
    assert_eq!(a.len(), 1);
    assert_eq!(a.get(Key::Index(42)).unwrap().as_long(), Some(2));
    a.insert(InsertKey::Str("-7"), ZVal::from_long(3));
    assert_eq!(a.get(Key::Index(u64::MAX - 6)).unwrap().as_long(), Some(3));
    a.insert(InsertKey::Str("042"), ZVal::from_long(4));
    assert_eq!(a.len(), 3);
    assert!(a.get(Key::Index(42)).is_some());
    assert_eq!(a.get(Key::Bytes(b"042")).unwrap().as_long(), Some(4));
}

#[test]
fn next_index_follows_largest_key() {
    let mut a = ZArr::new();
    a.insert(InsertKey::Index(5), ZVal::from_long(5));
    a.insert(InsertKey::NextIndex, ZVal::from_long(6));
    assert_eq!(a.get(Key::Index(6)).unwrap().as_long(), Some(6));
    a.insert(InsertKey::Index(2), ZVal::from_long(2));
    a.insert(InsertKey::NextIndex, ZVal::from_long(7));
    assert_eq!(a.get(Key::Index(7)).unwrap().as_long(), Some(7));
    assert_eq!(a.len(), 4);
}

#[test]
fn read_after_write_and_delete() {
    let mut a = ZArr::new();
    a.insert(InsertKey::Str("k"), ZVal::from_long(1));
    a.insert(InsertKey::Str("other"), ZVal::from_long(2));
    a.insert(InsertKey::Str("k"), ZVal::from_long(3));
    assert_eq!(a.get(Key::Str("k")).unwrap().as_long(), Some(3));
    assert_eq!(a.get(Key::Str("other")).unwrap().as_long(), Some(2));
    assert!(a.remove(Key::Str("k")));
    assert!(a.get(Key::Str("k")).is_none());
    assert_eq!(a.get(Key::Str("other")).unwrap().as_long(), Some(2));
}

#[test]
fn iter_walks_in_order() {
    let mut a = ZArr::new();
    a.insert(InsertKey::Str("x"), ZVal::from_long(1));
    a.insert(InsertKey::NextIndex, ZVal::from_long(2));
    let mut it = Iter::new(&a);
    match it.next() {
        Some((IterKey::ZStr(k), v)) => {
            assert_eq!(k.to_bytes(), b"x");
            assert_eq!(v.as_long(), Some(1));
        }
        _ => panic!("the string key comes first"),
    }
    match it.next() {
        Some((IterKey::Index(0), v)) => assert_eq!(v.as_long(), Some(2)),
        _ => panic!("then index 0"),
    }
    assert!(it.next().is_none());
    assert!(it.next().is_none());
}

#[test]
fn entry_and_modify_changes_occupied_values() {
    let mut a = ZArr::new();
    a.insert(InsertKey::Index(1), ZVal::from_long(1));
    a.entry(Key::Index(1)).and_modify(|v| *v = ZVal::from_long(2));
    assert_eq!(a.get(Key::Index(1)).unwrap().as_long(), Some(2));
    a.entry(Key::Index(7)).and_modify(|v| *v = ZVal::from_long(9)).or_insert(ZVal::from_long(3));
    assert_eq!(a.get(Key::Index(7)).unwrap().as_long(), Some(3));
}

#[test]
fn entry_counts_words() {
    let mut a = ZArr::new();
    for x in ["a", "b", "a", "c", "a", "b"] {
        a.entry(Key::Str(x))
            .and_modify(|cur| *cur.as_mut_long().unwrap() += 1)
            .or_insert(ZVal::from_long(1));
    }
    assert_eq!(a.get(Key::Str("a")).unwrap().as_long(), Some(3));
    assert_eq!(a.get(Key::Str("b")).unwrap().as_long(), Some(2));
    assert_eq!(a.get(Key::Str("c")).unwrap().as_long(), Some(1));
    assert_eq!(a.len(), 3);
}

#[test]
fn vacant_insert_overwrites_a_present_key() {
    let mut a = ZArr::new();
    a.insert(InsertKey::Index(1), ZVal::from_long(1));
    let e = Entry::Vacant(VacantEntry { arr: &mut a, key: ArrKey::Int(1) });
    *e.or_insert(ZVal::from_long(5)) = ZVal::from_long(6);
    assert_eq!(a.len(), 1);
    assert_eq!(a.get(Key::Index(1)).unwrap().as_long(), Some(6));
    assert!(a.remove(Key::Index(1)));
    assert!(!a.exists_key(Key::Index(1)));
    assert!(!a.remove(Key::Index(1)));
}

#[test]
fn values_can_be_changed_in_order() {
    let mut a = ZArr::new();
    a.insert(InsertKey::Str("x"), ZVal::from_long(1));
    a.insert(InsertKey::Index(4), ZVal::from_long(2));
    for i in 0..a.len() {
        let v = a.value_at_mut(i);
        let n = v.as_long().unwrap();
        *v = ZVal::from_long(n * 10);
    }
    assert_eq!(a.get(Key::Str("x")).unwrap().as_long(), Some(10));
    assert_eq!(a.get(Key::Index(4)).unwrap().as_long(), Some(20));
    assert!(a.remove(Key::Str("x")));
    assert_eq!(a.len(), 1);
    assert!(!a.remove(Key::Str("x")));
    assert_eq!(a.len(), 1);
}
