//! The store of artifacts.

use referee::store::{InMemoryStore, Store, StoreConfig, StoreError, StoredValue};

fn text(s: &str) -> StoredValue {
    StoredValue::from_text(s, 0)
}

#[test]
fn store_and_get() {
    let mut store = InMemoryStore::with_defaults();
    store.store("k1".into(), text("hello")).unwrap();
    let v = store.get("k1").unwrap();
    assert_eq!(v.content_type, "text/plain");
    assert_eq!(v.bytes, b"hello");
    assert!(store.get("nope").is_none());
}

#[test]
fn overwrite_and_delete() {
    let mut store = InMemoryStore::with_defaults();
    store.store("k1".into(), text("a")).unwrap();
    store.store("k1".into(), text("bb")).unwrap();
    assert_eq!(store.len(), 1);
    assert_eq!(store.total_bytes(), 2);
    assert!(store.delete("k1"));
    assert!(!store.delete("k1"));
    assert!(store.is_empty());
}

#[test]
fn capacity_by_count() {
    let mut store = InMemoryStore::new(StoreConfig { max_keys: 1, max_total_bytes: 1024 });
    store.store("a".into(), text("x")).unwrap();
    let err = store.store("b".into(), text("y")).unwrap_err();
    assert!(matches!(err, StoreError::CapacityExceeded));
    store.store("a".into(), text("zz")).unwrap();
    assert_eq!(store.len(), 1);
}

#[test]
fn capacity_by_bytes() {
    let mut store = InMemoryStore::new(StoreConfig { max_keys: 8, max_total_bytes: 10 });
    store.store("a".into(), text("123456")).unwrap();
    store.store("b".into(), text("7890")).unwrap();
    let err = store.store("c".into(), text("1")).unwrap_err();
    assert!(matches!(err, StoreError::CapacityExceeded));
    assert!(!err.message().is_empty());
}

#[test]
fn bytes_are_counted_not_characters() {
    let mut store = InMemoryStore::new(StoreConfig { max_keys: 8, max_total_bytes: 6 });
    store.store("a".into(), text("你好")).unwrap();
    assert_eq!(store.total_bytes(), 6);
    assert_eq!(store.get("a").unwrap().bytes, "你好".as_bytes());
    let blob = StoredValue::from_bytes(vec![0, 255], "application/octet-stream", 9);
    assert_eq!((blob.bytes.len(), blob.content_type.as_str()), (2, "application/octet-stream"));
}
