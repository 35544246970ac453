use bookdata::index::{IdIndex, IndexError};

#[test]
fn test_index_empty() {
    let index: IdIndex = IdIndex::new();
    assert_eq!(index.len(), 0);
    assert!(index.lookup("bob").is_none());
}

#[test]
fn test_index_intern_one() {
    let mut index: IdIndex = IdIndex::new();
    assert!(index.lookup("hackem muche").is_none());
    let id = index.intern("hackem muche");
    assert_eq!(id, 1);
    assert_eq!(index.lookup("hackem muche").unwrap(), 1);
}

#[test]
fn test_index_intern_two() {
    let mut index: IdIndex = IdIndex::new();
    assert!(index.lookup("hackem muche").is_none());
    let id = index.intern("hackem muche");
    assert_eq!(id, 1);
    let id2 = index.intern("readme");
    assert_eq!(id2, 2);
    assert_eq!(index.lookup("hackem muche").unwrap(), 1);
}

#[test]
fn test_index_intern_twice() {
    let mut index: IdIndex = IdIndex::new();
    assert!(index.lookup("hackem muche").is_none());
    let id = index.intern("hackem muche");
    assert_eq!(id, 1);
    let id2 = index.intern("hackem muche");
    assert_eq!(id2, 1);
    assert_eq!(index.len(), 1);
}

#[test]
fn test_index_intern_twice_owned() {
    let mut index: IdIndex = IdIndex::new();
    assert!(index.lookup("hackem muche").is_none());
    let id = index.intern_owned("hackem muche".to_owned());
    assert_eq!(id, 1);
    let id2 = index.intern_owned("hackem muche".to_owned());
    assert_eq!(id2, 1);
    assert_eq!(index.len(), 1);
}

/// A small deterministic generator of keys of varied length and content.
fn pseudo_key(state: &mut u64) -> String {
    *state = state.wrapping_mul(6364136223846793005).wrapping_add(1442695040888963407);
    let len = ((*state >> 33) % 8) as usize;
    let mut key = String::new();
    for i in 0..len {
        let c = ((*state >> (i * 5)) % 26) as u8;
        key.push((b'a' + c) as char);
    }
    key
}

#[test]
fn test_index_save() {
    let mut index: IdIndex = IdIndex::new();
    let mut state: u64 = 100;
    for _i in 0..10000 {
        let key = pseudo_key(&mut state);
        let prev = index.lookup(&key);
        let id = index.intern(&key);
        match prev {
            Some(i) => assert_eq!(id, i),
            None => assert_eq!(id as usize, index.len()),
        };
    }

    let rows = index.to_rows();
    let i2 = IdIndex::from_rows(&rows).expect("load error");
    assert_eq!(i2.len(), index.len());
    for (v, k) in &rows {
        let v2 = i2.lookup(k);
        assert!(v2.is_some());
        assert_eq!(v2.unwrap(), *v);
    }
    for k in index.keys() {
        assert_eq!(i2.lookup(&k), index.lookup(&k));
    }
}

#[test]
fn index_key_vec_in_id_order() {
    let mut index = IdIndex::new();
    index.intern("c");
    index.intern("a");
    index.intern("b");
    index.intern("a");
    assert_eq!(index.key_vec(), vec!["c".to_owned(), "a".to_owned(), "b".to_owned()]);
}

#[test]
fn index_keys_lists_each_once() {
    let mut index = IdIndex::new();
    index.intern("x");
    index.intern("y");
    index.intern("x");
    let mut keys = index.keys();
    keys.sort();
    assert_eq!(keys, vec!["x".to_owned(), "y".to_owned()]);
}

#[test]
fn index_from_rows_rejects_out_of_range_id() {
    let rows = vec![(1, "a".to_owned()), (3, "b".to_owned())];
    assert_eq!(IdIndex::from_rows(&rows).err(), Some(IndexError::IdOutOfRange(1)));
    let rows = vec![(0, "a".to_owned())];
    assert_eq!(IdIndex::from_rows(&rows).err(), Some(IndexError::IdOutOfRange(0)));
}

#[test]
fn index_from_rows_rejects_duplicate_key() {
    let rows = vec![(2, "a".to_owned()), (1, "a".to_owned())];
    assert_eq!(IdIndex::from_rows(&rows).err(), Some(IndexError::DuplicateKey(1)));
}

#[test]
fn index_from_rows_rejects_duplicate_id() {
    let rows = vec![(1, "a".to_owned()), (1, "b".to_owned())];
    assert_eq!(IdIndex::from_rows(&rows).err(), Some(IndexError::DuplicateId(1)));
}

#[test]
fn index_from_rows_accepts_any_order() {
    let rows = vec![(2, "b".to_owned()), (3, "c".to_owned()), (1, "a".to_owned())];
    let index = IdIndex::from_rows(&rows).expect("valid rows");
    assert_eq!(index.len(), 3);
    assert_eq!(index.lookup("a"), Some(1));
    assert_eq!(index.lookup("c"), Some(3));
    assert_eq!(index.key_vec(), vec!["a".to_owned(), "b".to_owned(), "c".to_owned()]);
    let mut index = index;
    assert_eq!(index.intern("d"), 4);
}

#[test]
fn index_from_rows_empty() {
    let rows: Vec<(i32, String)> = Vec::new();
    let index = IdIndex::from_rows(&rows).expect("empty rows");
    assert_eq!(index.len(), 0);
}
