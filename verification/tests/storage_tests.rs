use moltis_core::storage::{without_prefix, MemoryStorage, Storage, TypedStorage};

#[test]
fn test_memory_storage() {
    let mut storage = MemoryStorage::new();

    // Test set and get
    storage.set("key1", b"value1").unwrap();
    let value = storage.get("key1").unwrap();
    assert_eq!(value, Some(b"value1".to_vec()));

    // Test get non-existent
    let value = storage.get("nonexistent").unwrap();
    assert_eq!(value, None);

    // Test delete
    storage.delete("key1").unwrap();
    let value = storage.get("key1").unwrap();
    assert_eq!(value, None);

    // Test list_keys
    storage.set("prefix:a", b"1").unwrap();
    storage.set("prefix:b", b"2").unwrap();
    storage.set("other:c", b"3").unwrap();

    let mut keys = storage.list_keys("prefix:").unwrap();
    keys.sort();
    assert_eq!(keys.len(), 2);
    assert!(keys.contains(&"prefix:a".to_string()));
    assert!(keys.contains(&"prefix:b".to_string()));

    // Test clear
    storage.clear().unwrap();
    let keys = storage.list_keys("").unwrap();
    assert!(keys.is_empty());
}

#[test]
fn setting_a_key_again_replaces_its_value() {
    let mut storage = MemoryStorage::default();
    storage.set("k", b"one").unwrap();
    storage.set("other", b"x").unwrap();
    storage.set("k", b"two").unwrap();
    assert_eq!(storage.get("k").unwrap(), Some(b"two".to_vec()));
    assert_eq!(storage.get("other").unwrap(), Some(b"x".to_vec()));
    let mut keys = storage.list_keys("").unwrap();
    keys.sort();
    assert_eq!(keys, vec!["k".to_string(), "other".to_string()]);
    storage.delete("missing").unwrap();
    assert_eq!(storage.list_keys("").unwrap().len(), 2);
    storage.set("", b"").unwrap();
    assert_eq!(storage.get("").unwrap(), Some(Vec::new()));
    assert_eq!(storage.list_keys("k").unwrap(), vec!["k".to_string()]);
}

#[test]
fn typed_storage_keeps_its_keys_under_the_prefix() {
    let mut inner = MemoryStorage::new();
    inner.set("sessions", b"bare").unwrap();
    inner.set("session:x", b"other prefix").unwrap();
    let mut typed = TypedStorage::new(inner, "sessions".to_string());
    assert_eq!(typed.prefixed_key("abc"), "sessions:abc");
    assert_eq!(typed.prefixed_key(""), "sessions:");

    assert_eq!(typed.get("test").unwrap(), None);
    typed.set("test", b"{\"name\":\"test\",\"value\":42}").unwrap();
    typed.set("b:c", b"[]").unwrap();
    assert_eq!(
        typed.get("test").unwrap(),
        Some(b"{\"name\":\"test\",\"value\":42}".to_vec())
    );
    let mut keys = typed.list_keys().unwrap();
    keys.sort();
    assert_eq!(keys, vec!["b:c".to_string(), "test".to_string()]);

    typed.delete("test").unwrap();
    assert_eq!(typed.get("test").unwrap(), None);
    assert_eq!(typed.list_keys().unwrap(), vec!["b:c".to_string()]);
}

#[test]
fn test_typed_storage() {
    // The stored value is the JSON text of { name: "example", value: 42 }.
    let data = br#"{"name":"example","value":42}"#;

    let storage = MemoryStorage::new();
    let mut typed: TypedStorage<MemoryStorage> = TypedStorage::new(storage, "test".to_string());

    typed.set("item1", data).unwrap();
    let retrieved = typed.get("item1").unwrap();
    assert_eq!(retrieved, Some(data.to_vec()));

    typed.delete("item1").unwrap();
    let retrieved = typed.get("item1").unwrap();
    assert!(retrieved.is_none());
}

#[test]
fn prefixes_are_taken_off_where_they_stand() {
    let keys = vec![
        "test:a".to_string(),
        "test:".to_string(),
        "other:b".to_string(),
        "test".to_string(),
        "test:test:c".to_string(),
        "Test:d".to_string(),
        String::new(),
        "tést:e".to_string(),
    ];
    let want: Vec<String> = keys
        .iter()
        .map(|k| k.strip_prefix("test:").unwrap_or(k).to_string())
        .collect();
    assert_eq!(without_prefix("test:", &keys), want);
    assert_eq!(
        want,
        vec!["a", "", "other:b", "test", "test:c", "Test:d", "", "tést:e"]
    );
    assert_eq!(without_prefix("", &keys), keys);
    assert_eq!(without_prefix("tést:", &keys)[7], "e");
    assert!(without_prefix("x", &[]).is_empty());
}

#[test]
fn typed_storage_lists_what_the_store_lists_without_the_prefix() {
    let mut inner = MemoryStorage::new();
    inner.set("p:a", b"1").unwrap();
    inner.set("p:", b"2").unwrap();
    inner.set("q:b", b"3").unwrap();
    inner.set("p", b"4").unwrap();
    inner.set("p:p:c", b"5").unwrap();
    let typed = TypedStorage::new(inner, "p".to_string());
    let mut keys = typed.list_keys().unwrap();
    keys.sort();
    assert_eq!(keys, vec!["".to_string(), "a".to_string(), "p:c".to_string()]);
    assert_eq!(typed.get("").unwrap(), Some(b"2".to_vec()));
    assert_eq!(typed.get("p:c").unwrap(), Some(b"5".to_vec()));
    assert_eq!(typed.get("b").unwrap(), None);
}
