use std::cell::Cell;
use std::sync::{Arc, OnceLock};

use simple_interner::{InternTable, Interned, Interner};

fn is_send<T: Send>(_t: &T) {}
fn is_sync<T: Sync>(_t: &T) {}
fn is_unpin<T: Unpin>(_t: &T) {}

fn ptr(h: &Interned<'_>) -> usize {
    Interned::get(h).as_ptr() as usize
}

#[test]
fn str_usage() {
    let interner = Interner::new();

    let a1 = interner.intern(String::from("a").as_bytes());
    let b1 = interner.intern(String::from("b").as_bytes());
    let c1 = interner.intern("c".as_bytes());

    let a2 = interner.intern("a".as_bytes());
    let b2 = interner.intern("b".as_bytes());
    let c2 = interner.intern("c".as_bytes());

    let a3 = interner.get("a".as_bytes()).unwrap();
    let b3 = interner.get("b".as_bytes()).unwrap();
    let c3 = interner.get("c".as_bytes()).unwrap();

    assert_eq!(ptr(&a1), ptr(&a2));
    assert_eq!(ptr(&a2), ptr(&a3));
    assert_eq!(ptr(&b1), ptr(&b2));
    assert_eq!(ptr(&b2), ptr(&b3));
    assert_eq!(ptr(&c1), ptr(&c2));
    assert_eq!(ptr(&c2), ptr(&c3));
}

#[test]
fn slice_usage() {
    let interner = Interner::new();

    let a1 = interner.intern(&Box::<[u8]>::from([0u8])[..]);
    let b1 = interner.intern(&Vec::from([1u8])[..]);
    let c1 = interner.intern(&[2u8]);
    let d1 = interner.intern(&[3u8][..]);

    let a2 = interner.intern(&[0]);
    let b2 = interner.intern(&[1]);
    let c2 = interner.intern(&[2]);
    let d2 = interner.intern(&[3]);

    let a3 = interner.get(&[0][..]).unwrap();
    let b3 = interner.get(&[1]).unwrap();
    let c3 = interner.get(&[2]).unwrap();
    let d3 = interner.get(&[3]).unwrap();

    assert_eq!(ptr(&a1), ptr(&a2));
    assert_eq!(ptr(&a2), ptr(&a3));
    assert_eq!(ptr(&b1), ptr(&b2));
    assert_eq!(ptr(&b2), ptr(&b3));
    assert_eq!(ptr(&c1), ptr(&c2));
    assert_eq!(ptr(&c2), ptr(&c3));
    assert_eq!(ptr(&d1), ptr(&d2));
    assert_eq!(ptr(&d2), ptr(&d3));
}

#[test]
fn static_interner() {
    static INTERNER: OnceLock<Interner> = OnceLock::new();
    let interner: &'static Interner = INTERNER.get_or_init(Interner::new);

    let non_static = String::from("a");
    let interned = interner.intern(non_static.as_bytes());
    drop(non_static);

    assert_eq!(Interned::get(&interned), "a".as_bytes());
}

#[test]
fn send_syn_unpin() {
    let interner = Interner::new();
    is_send(&interner);
    is_sync(&interner);
    is_unpin(&interner);

    let table = InternTable::new();
    is_send(&table);
    is_sync(&table);
    is_unpin(&table);
}

#[test]
fn send_sync_unpin() {
    let interner = Interner::with_capacity(4);
    let handle = interner.intern(b"x");
    is_send(&handle);
    is_sync(&handle);
    is_unpin(&handle);
}

#[test]
fn scenario_intern_then_get() {
    let interner = Interner::new();
    let a = interner.intern(b"a");
    let b = interner.intern(b"b");
    let c = interner.intern(b"c");
    assert!(Interned::same(&interner.get(b"a").unwrap(), &a));
    assert!(Interned::same(&interner.get(b"b").unwrap(), &b));
    assert!(Interned::same(&interner.get(b"c").unwrap(), &c));
    assert_eq!(ptr(&interner.get(b"a").unwrap()), ptr(&a));
    assert!(interner.get(b"d").is_none());
    assert_eq!(Interned::address(&a), 0);
    assert_eq!(Interned::address(&b), 1);
    assert_eq!(Interned::address(&c), 2);
}

#[test]
fn scenario_owned_then_borrowed() {
    let interner = Interner::new();
    let owned: Vec<u8> = vec![0];
    let first = interner.intern(&owned);
    let second = interner.intern(&[0u8][..]);
    assert_eq!(ptr(&first), ptr(&second));
    assert_eq!(Interned::address(&first), Interned::address(&second));
}

#[test]
fn scenario_two_callers_race() {
    // Both callers miss on the shared lookup before either stores a cell;
    // the second one's exclusive re-check then finds the first one's cell.
    let interner = Arc::new(Interner::new());
    let first = Arc::clone(&interner);
    let second = Arc::clone(&interner);
    assert!(first.get(b"x").is_none());
    assert!(second.get(b"x").is_none());
    let h1 = first.intern(b"x");
    let h2 = second.intern(b"x");
    assert_eq!(ptr(&h1), ptr(&h2));
    let canonical = interner.get(b"x").unwrap();
    assert_eq!(ptr(&canonical), ptr(&h1));
    // One cell only: the next new value lands in the second slot.
    assert_eq!(Interned::address(&interner.intern(b"z")), 1);
}

#[test]
fn many_callers_one_cell() {
    let interner = Interner::new();
    let handles: Vec<Interned<'_>> = (0..8).map(|_| interner.intern(b"same")).collect();
    assert!(handles.iter().all(|h| ptr(h) == ptr(&handles[0])));
    assert_eq!(Interned::address(&interner.intern(b"other")), 1);
}

#[test]
fn scenario_raw_hit_builds_nothing() {
    let interner = Interner::new();
    let y = interner.intern(b"y");
    let built = Cell::new(0u32);
    let is_match = |q: &&str, b: &[u8]| q.to_ascii_lowercase().as_bytes() == b;
    let h = interner.intern_raw("Y", &is_match, |q: &str| {
        built.set(built.get() + 1);
        q.to_ascii_lowercase().into_bytes()
    });
    assert_eq!(built.get(), 0);
    assert_eq!(ptr(&h), ptr(&y));

    let z = interner.intern_raw("Z", &is_match, |q: &str| {
        built.set(built.get() + 1);
        q.to_ascii_lowercase().into_bytes()
    });
    assert_eq!(built.get(), 1);
    assert_eq!(Interned::get(&z), b"z");
    assert_eq!(ptr(&interner.get(b"z").unwrap()), ptr(&z));
}

#[test]
fn raw_lookup() {
    let interner = Interner::new();
    interner.intern(b"ab");
    let cd = interner.intern(b"cd");
    let found = interner.get_raw(&|b: &[u8]| b.first() == Some(&b'c')).unwrap();
    assert_eq!(ptr(&found), ptr(&cd));
    assert!(interner.get_raw(&|b: &[u8]| b.is_empty()).is_none());
}

#[test]
fn equal_values_share_address() {
    let interner = Interner::new();
    let v1 = String::from("same");
    let v2 = String::from("same");
    let h1 = interner.intern(v1.as_bytes());
    let h2 = interner.intern(v2.as_bytes());
    assert_eq!(ptr(&h1), ptr(&h2));
    assert!(Interned::same(&h1, &h2));
}

#[test]
fn different_values_differ_in_address() {
    let interner = Interner::new();
    let h1 = interner.intern(b"one");
    let h2 = interner.intern(b"two");
    assert_ne!(ptr(&h1), ptr(&h2));
    assert!(!Interned::same(&h1, &h2));
    let e = interner.intern(b"");
    assert_eq!(Interned::get(&e), b"");
    assert_ne!(Interned::address(&e), Interned::address(&h1));
}

#[test]
fn address_stable_across_insertions() {
    let interner = Interner::new();
    let first = interner.intern(b"keep");
    let before = ptr(&first);
    for i in 0..200u32 {
        interner.intern(&i.to_le_bytes());
    }
    let later = interner.get(b"keep").unwrap();
    assert_eq!(ptr(&later), before);
    assert_eq!(Interned::address(&later), 0);
    assert_eq!(ptr(&interner.intern(b"keep")), before);
}

#[test]
fn miss_before_insert() {
    let interner = Interner::with_capacity(16);
    assert!(interner.get(b"v").is_none());
    interner.intern(b"w");
    assert!(interner.get(b"v").is_none());
    interner.intern(b"v");
    assert!(interner.get(b"v").is_some());
}

#[test]
fn table_addresses_and_copies() {
    let mut table = InternTable::new();
    assert!(table.get(b"a").is_none());
    let a = table.intern(b"a");
    let b = table.intern(b"b");
    let again = table.intern(b"a");
    assert_eq!(Interned::address(&a), 0);
    assert_eq!(Interned::address(&b), 1);
    assert_eq!(Interned::address(&again), 0);
    assert_eq!(Interned::get(&b), b"b");
    let source = vec![7u8, 8];
    let h = table.intern(&source);
    assert_ne!(ptr(&h), source.as_ptr() as usize);
    assert_eq!(Interned::get(&h), &[7u8, 8][..]);
}

#[test]
fn table_raw_interning() {
    let mut table = InternTable::with_capacity(usize::MAX);
    table.intern(b"y");
    let is_match = |q: &u8, b: &[u8]| b.len() == 1 && b[0] == *q;
    let hit = table.intern_raw(b'y', &is_match, |q: u8| vec![q]);
    assert_eq!(Interned::address(&hit), 0);
    let miss = table.intern_raw(b'q', &is_match, |q: u8| vec![q]);
    assert_eq!(Interned::address(&miss), 1);
    assert_eq!(Interned::get(&miss), b"q");
    let first = table.get_raw(&|b: &[u8]| b.len() == 1).unwrap();
    assert_eq!(Interned::address(&first), 0);
}

#[test]
fn cloned_handle_same_cell() {
    let interner = Interner::with_hasher(Default::default());
    let h = interner.intern(b"c");
    let k = h.clone();
    assert!(Interned::same(&h, &k));
    assert_eq!(ptr(&h), ptr(&k));
    let other = Interner::with_capacity_and_hasher(2, Default::default());
    let o = other.intern(b"c");
    assert_ne!(ptr(&h), ptr(&o));
}

#[test]
fn handles_compare_by_allocation() {
    let interner = Interner::new();
    let h = interner.intern(b"eq");
    let k = interner.intern(b"eq");
    let j = interner.intern(b"ne");
    assert!(h == k);
    assert!(h != j);
    let other = Interner::new();
    let o = other.intern(b"eq");
    assert_eq!(Interned::get(&o), Interned::get(&h));
    assert!(h != o);
}

#[test]
fn table_keeps_one_cell_per_value() {
    let mut table = InternTable::default();
    assert_eq!(table.len(), 0);
    for _ in 0..5 {
        table.intern(b"x");
    }
    assert_eq!(table.len(), 1);
    table.intern(b"y");
    table.intern(b"x");
    assert_eq!(table.len(), 2);
}

#[test]
fn handles_hash_by_address() {
    let interner = Interner::new();
    let mut seen = std::collections::HashSet::new();
    for word in [&b"p"[..], b"q", b"p", b"p", b"q", b"r"] {
        seen.insert(interner.intern(word));
    }
    assert_eq!(seen.len(), 3);
    assert!(seen.contains(&interner.get(b"q").unwrap()));
}
