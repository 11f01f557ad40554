use kiva::{HashStore, OperationalError, Store, TextStore};

#[test]
fn test_hash_store() {
    let mut store: HashStore<String, u32> = Store::new();
    let _ = store.set("foo".to_string(), 5);
    assert_eq!(store.get(&"foo".to_string()).unwrap(), Some(&5));
    assert_eq!(store.get(&"bar".to_string()).unwrap(), None);
    assert_eq!(store.set("baz".to_string(), 7).unwrap(), None);
    assert_eq!(store.set("foo".to_string(), 8).unwrap(), Some(5));
}

#[test]
fn new_store_is_empty() {
    let store: HashStore<u64, u64> = Store::new();
    assert_eq!(store.get(&0).unwrap(), None);
    assert_eq!(store.get(&u64::MAX).unwrap(), None);
}

#[test]
fn hash_store_overwrites_and_returns_previous() {
    let mut store: HashStore<String, String> = Store::new();
    assert_eq!(store.set("k".to_string(), "v1".to_string()).unwrap(), None);
    assert_eq!(
        store.set("k".to_string(), "v2".to_string()).unwrap(),
        Some("v1".to_string())
    );
    assert_eq!(store.get(&"k".to_string()).unwrap(), Some(&"v2".to_string()));
}

#[test]
fn get_does_not_change_the_store() {
    let mut store: HashStore<u8, u8> = Store::new();
    let _ = store.set(1, 10);
    assert_eq!(store.get(&1).unwrap(), Some(&10));
    assert_eq!(store.get(&2).unwrap(), None);
    assert_eq!(store.get(&1).unwrap(), Some(&10));
    assert_eq!(store.get(&2).unwrap(), None);
}

#[test]
fn writes_to_other_keys_do_not_show() {
    let mut store: HashStore<u32, u32> = Store::new();
    let _ = store.set(1, 100);
    let _ = store.set(2, 200);
    let _ = store.set(3, 300);
    let _ = store.set(2, 201);
    assert_eq!(store.get(&1).unwrap(), Some(&100));
    assert_eq!(store.get(&2).unwrap(), Some(&201));
    assert_eq!(store.get(&3).unwrap(), Some(&300));
}

#[test]
fn operational_error_message() {
    assert_eq!(OperationalError.message(), "Operational Error occured");
}

#[test]
fn new_text_store_is_empty() {
    let store: TextStore = Store::new();
    assert_eq!(store.get(&"".to_string()).unwrap(), None);
    assert_eq!(store.get(&"foo".to_string()).unwrap(), None);
}

#[test]
fn text_store_set_and_get() {
    let mut store: TextStore = Store::new();
    let _ = store.set("foo".to_string(), "5".to_string());
    assert_eq!(store.get(&"foo".to_string()).unwrap(), Some(&"5".to_string()));
    assert_eq!(store.get(&"bar".to_string()).unwrap(), None);
    assert_eq!(store.set("baz".to_string(), "7".to_string()).unwrap(), None);
    assert_eq!(
        store.set("foo".to_string(), "8".to_string()).unwrap(),
        Some("5".to_string())
    );
    assert_eq!(store.get(&"foo".to_string()).unwrap(), Some(&"8".to_string()));
    assert_eq!(store.get(&"baz".to_string()).unwrap(), Some(&"7".to_string()));
}

#[test]
fn text_store_overwrites_and_returns_previous() {
    let mut store: TextStore = Store::new();
    assert_eq!(store.set("k".to_string(), "v1".to_string()).unwrap(), None);
    assert_eq!(
        store.set("k".to_string(), "v2".to_string()).unwrap(),
        Some("v1".to_string())
    );
    assert_eq!(store.get(&"k".to_string()).unwrap(), Some(&"v2".to_string()));
}

#[test]
fn text_store_keys_are_told_apart_by_their_text() {
    let mut store: TextStore = Store::new();
    let _ = store.set("Key".to_string(), "a".to_string());
    let _ = store.set("key".to_string(), "b".to_string());
    let mut again = String::new();
    again.push('K');
    again.push_str("ey");
    assert_eq!(store.get(&again).unwrap(), Some(&"a".to_string()));
    assert_eq!(store.get(&"key".to_string()).unwrap(), Some(&"b".to_string()));
    assert_eq!(store.get(&"KEY".to_string()).unwrap(), None);
}
