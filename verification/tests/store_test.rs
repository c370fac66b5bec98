use rapido::digest_map::DigestMap;
use rapido::person::{MyStore, Person};
use rapido::store::{Snapshot, Store, StoreView};

#[test]
fn test_store_basic() {
    let snap: Snapshot = DigestMap::new();
    let mut c1 = StoreView::wrap(&snap, DigestMap::new());

    let store = MyStore {};
    store.put(
        "bob".into(),
        Person {
            name: "bob".into(),
            age: 1u8,
        },
        &mut c1,
    );

    store.put(
        "carl".into(),
        Person {
            name: "carl".into(),
            age: 2u8,
        },
        &mut c1,
    );

    // This passes because we haven't committed
    assert!(store.get("bob".into(), &mut c1).is_some());
    assert!(store.get("bad".into(), &mut c1).is_none());

    let t = c1.into_cache();
    println!("{:?}", t);
}

// A store written without any proof, as an application would write one.
struct PlainStore;

impl Store for PlainStore {
    type Key = Vec<u8>;
    type Value = u8;

    fn name(&self) -> String {
        "plain.store".into()
    }

    fn key_bytes(&self, key: &Vec<u8>) -> Vec<u8> {
        key.clone()
    }

    fn value_bytes(&self, value: &u8) -> Vec<u8> {
        vec![*value]
    }

    fn value_from_bytes(&self, raw: &[u8]) -> Option<u8> {
        if raw.len() == 1 {
            Some(raw[0])
        } else {
            None
        }
    }
}

#[test]
fn test_plain_store_round_trip() {
    let snap: Snapshot = DigestMap::new();
    let mut view = StoreView::wrap(&snap, DigestMap::new());
    let store = PlainStore {};
    store.put(vec![1], 7u8, &mut view);
    assert_eq!(Some(7u8), store.get(vec![1], &view));
    assert_eq!(None, store.query(vec![1], &view));
    store.remove(vec![1], &mut view);
    assert_eq!(None, store.get(vec![1], &view));
    assert!(!store.contains_key(vec![1], &view));
}

#[test]
fn test_keyconcat() {
    let mut n = "hello".as_bytes().to_vec();
    let mut x: Vec<u8> = b"what".to_vec();
    n.append(&mut x);
    println!("{:?}", n);
}

#[test]
fn test_config() {}

#[test]
fn test_parse() {
    assert_eq!(0, "".find("").unwrap());
    assert_eq!(0, "/".find("/").unwrap());
    assert_eq!(5, "hello/".find("/").unwrap());
}

#[test]
fn test_account_chng_pubkey() {
    // Bob will change is pubkey.  Make sure he can authenticate with it

    assert!(true)
}
