use rapido::context::Context;
use rapido::crypto::hash;
use rapido::module::{AppModule, Authenticator};
use rapido::node::{AppBuilder, Node};
use rapido::person::{Msgs, MyStore, Person, PersonHandler};
use rapido::router::parse_abci_query_path;
use rapido::store::{Store, StoreKey, StoreView};
use rapido::testkit::TestKit;
use rapido::tx::SignedTransaction;

// Helpers
fn create_person_tx(name: String, age: u8) -> Vec<u8> {
    let msg = Msgs::CreatePerson(name, age);
    let tx = SignedTransaction::create("dave".into(), "person_app", msg.encode(), 0u64);
    tx.encode()
}

fn run_batch<A: Authenticator>(node: &mut Node<PersonHandler, A>, data: Vec<&str>) {
    for name in data {
        let resp = node.deliver_tx(&create_person_tx(name.into(), 20));
        assert_eq!(0u32, resp.code);
        assert_eq!(1, resp.events.len());
        let c1 = node.commit();
        assert_ne!(resp.data, c1.data);
    }
}

#[test]
fn test_with_testkit() {
    let mut tester = TestKit::create(AppBuilder::new().with_app(PersonHandler {})).unwrap();
    tester.start().unwrap();

    let tx1 = SignedTransaction::create(
        "dave".into(),
        "person_app",
        Msgs::CreatePerson("bob".into(), 1).encode(),
        0u64,
    );

    assert!(tester.check_tx(&[&tx1]).is_ok());
    assert!(tester.commit_tx(&[&tx1]).is_ok());

    let qr = tester
        .query("person_app", "bob".as_bytes().to_vec())
        .unwrap();
    let p = Person::from_bytes(&qr[..]).unwrap();
    assert_eq!("bob", p.name);
    assert_eq!(1, p.age);

    assert!(tester
        .query("person_app", "will_fail".as_bytes().to_vec())
        .is_err());
}

#[test]
fn test_basics() {
    let mut node = AppBuilder::new().with_app(PersonHandler {}).node().unwrap();

    let test_accounts = vec!["a", "b", "c", "d", "e", "f"];

    node.init_chain().unwrap();
    let resp = node.commit();
    assert!(resp.data.len() > 0);

    let resp = node.deliver_tx(&create_person_tx("dave".into(), 10));
    assert_eq!(0u32, resp.code);
    println!("{:?}", resp.events);
    assert_eq!(1, resp.events.len());
    let c1 = node.commit();
    assert_ne!(resp.data, c1.data);

    let resp = node.query("person_app", "dave".as_bytes().to_vec());
    assert_eq!(0u32, resp.code);
    let p = Person::from_bytes(&resp.value[..]).unwrap();
    assert_eq!("dave", p.name);

    let resp = node.commit();
    assert!(resp.data.len() > 0);

    run_batch(&mut node, test_accounts);
    node.commit();

    {
        let resp = node.query("person_app", "dave".as_bytes().to_vec());
        assert_eq!(0u32, resp.code);
        let p = Person::from_bytes(&resp.value[..]).unwrap();
        assert_eq!("dave", p.name);
    }

    {
        let resp = node.query("person_app", "c".as_bytes().to_vec());
        assert_eq!(0u32, resp.code);
        let p = Person::from_bytes(&resp.value[..]).unwrap();
        assert_eq!("c", p.name);
    }
}

#[test]
fn test_create_and_query_scenario() {
    let mut node = AppBuilder::new().with_app(PersonHandler {}).node().unwrap();
    node.init_chain().unwrap();
    let genesis = node.commit().data;

    let raw = create_person_tx("bob".into(), 1);
    assert_eq!(0, node.check_tx(&raw).code);
    let resp = node.deliver_tx(&raw);
    assert_eq!(0, resp.code);
    assert_eq!("", resp.log);
    assert_eq!("person_app.person", resp.events[0].kind);
    assert_eq!(
        vec![(b"added".to_vec(), b"bob".to_vec())],
        resp.events[0].attributes
    );
    // nothing is visible before the commit
    assert_eq!(1, node.query("person_app", b"bob".to_vec()).code);
    let apphash = node.commit().data;
    assert_ne!(genesis, apphash);

    let found = node.query("person_app", b"bob".to_vec());
    assert_eq!(0, found.code);
    assert_eq!(b"bob".to_vec(), found.key);
    assert_eq!(
        Some(Person { name: "bob".into(), age: 1 }),
        Person::from_bytes(&found.value)
    );
    // name as a text, then the age
    assert_eq!(vec![3, 0, 0, 0, b'b', b'o', b'b', 1], found.value);

    let missing = node.query("person_app", b"missing".to_vec());
    assert_eq!(1, missing.code);
    assert_eq!("person not found", missing.log);
    assert_eq!(b"missing".to_vec(), missing.key);

    // no duplicate name on create
    let again = node.deliver_tx(&create_person_tx("bob".into(), 9));
    assert_eq!(1, again.code);
    assert_eq!("person already exists", again.log);
    assert!(again.events.is_empty());

    // inc requires an existing person
    let inc = |name: &str| {
        SignedTransaction::create(
            "dave".into(),
            "person_app",
            Msgs::IncPersonAge(name.into()).encode(),
            0,
        )
        .encode()
    };
    assert_eq!("person not found", node.deliver_tx(&inc("carl")).log);
    assert_eq!(0, node.deliver_tx(&inc("bob")).code);
    assert_eq!(0, node.deliver_tx(&inc("bob")).code);
    node.commit();
    let p = Person::from_bytes(&node.query("person_app/", b"bob".to_vec()).value).unwrap();
    assert_eq!(3, p.age);
    assert_eq!(vec![1u8], node.query("person_app/random", vec![]).value);
    assert_eq!(1, node.query("person_app/else", vec![]).code);
}

#[test]
fn test_malformed_and_unknown() {
    let mut node = AppBuilder::new().with_app(PersonHandler {}).node().unwrap();
    let resp = node.deliver_tx(&[1, 2, 3]);
    assert_eq!(1, resp.code);
    assert_eq!("problem decoding the signed tx", resp.log);
    let resp = node.check_tx(&[]);
    assert_eq!(1, resp.code);
    assert_eq!("problem decoding the signed tx", resp.log);

    let stray = SignedTransaction::create("dave".into(), "nobody", vec![], 0).encode();
    let resp = node.check_tx(&stray);
    assert_eq!(1, resp.code);
    assert_eq!("No registered AppModule found for name: nobody", resp.log);
    let resp = node.deliver_tx(&stray);
    assert_eq!(1, resp.code);
    assert_eq!("No registered AppModule found for name: nobody", resp.log);
    assert!(node.staged_changes().is_empty());

    let junk = SignedTransaction::create("dave".into(), "person_app", vec![9], 0).encode();
    assert_eq!("problem decoding the message", node.deliver_tx(&junk).log);

    for path in ["", "/", "/person_app"] {
        let resp = node.query(path, b"k".to_vec());
        assert_eq!(1, resp.code);
        assert_eq!("Malformed query path", resp.log);
        assert_eq!(b"k".to_vec(), resp.key);
    }
    let resp = node.query("nobody/x", b"k".to_vec());
    assert_eq!(1, resp.code);
    assert_eq!("Query: cannot find appname: nobody", resp.log);
    assert!(resp.key.is_empty());
}

#[test]
fn test_info_and_heights() {
    let mut node = AppBuilder::new().with_app(PersonHandler {}).node().unwrap();
    let info = node.info("0.33");
    assert_eq!("rapido_v3", info.data);
    assert_eq!("0.33", info.version);
    assert_eq!(0, info.last_block_height);
    assert!(info.last_block_app_hash.is_empty());

    node.init_chain().unwrap();
    assert_eq!(0, node.info("").last_block_height);
    for height in 1..5i64 {
        node.begin_block();
        assert_eq!(0, node.deliver_tx(&create_person_tx(format!("p{}", height), 1)).code);
        node.end_block();
        let apphash = node.commit().data;
        let info = node.info("");
        assert_eq!(height, info.last_block_height);
        assert_eq!(apphash, info.last_block_app_hash);
        assert_eq!(height, node.chain_state().height);
        assert!(node.staged_changes().is_empty());
    }
    // a commit with the hash that another engine computed
    let resp = node.commit_with(vec![7, 7]);
    assert_eq!(vec![7, 7], resp.data);
    assert_eq!(5, node.chain_state().height);
    assert_eq!(vec![7, 7], node.chain_state().apphash);
}

#[test]
fn test_deterministic_apphash() {
    let build = || {
        let mut node = AppBuilder::new().with_app(PersonHandler {}).node().unwrap();
        node.init_chain().unwrap();
        node
    };
    let mut one = build();
    let mut two = build();
    // the second node has also been asked to check transactions
    two.check_tx(&create_person_tx("x".into(), 1));
    let blocks = vec![vec!["a", "b"], vec![], vec!["c"], vec!["a"], vec!["d", "e", "f"]];
    for block in blocks {
        for name in block {
            let raw = create_person_tx(name.into(), 30);
            assert_eq!(one.deliver_tx(&raw), two.deliver_tx(&raw));
        }
        let h1 = one.commit().data;
        let h2 = two.commit().data;
        assert_eq!(h1, h2);
        assert_eq!(32, h1.len());
    }
    // the same people in another order of blocks give the same root
    let mut three = build();
    for name in ["f", "e", "d", "c", "b", "a"] {
        assert_eq!(0, three.deliver_tx(&create_person_tx(name.into(), 30)).code);
        three.commit();
    }
    assert_eq!(one.chain_state().apphash, three.chain_state().apphash);
    // another state gives another root
    let mut four = build();
    four.deliver_tx(&create_person_tx("a".into(), 31));
    assert_ne!(one.commit().data, four.commit().data);
}

// A module that writes and then fails.
struct Leaky;

impl AppModule for Leaky {
    fn name(&self) -> String {
        "leaky".into()
    }

    fn initialize(&self, _view: &mut StoreView) -> Result<(), String> {
        Ok(())
    }

    fn handle_tx(&self, ctx: &mut Context, view: &mut StoreView) -> Result<(), String> {
        let store = MyStore {};
        store.put("k1".into(), Person { name: "v1".into(), age: 1 }, view);
        ctx.dispatch_event("leak", &[("k1", "v1")]);
        if ctx.msg.is_empty() {
            Err("failed after writing".into())
        } else {
            Ok(())
        }
    }

    fn handle_query(&self, _path: &str, key: Vec<u8>, view: &StoreView) -> Result<Vec<u8>, String> {
        let store = MyStore {};
        match store.query(String::from_utf8(key).unwrap(), view) {
            Some(p) => Ok(p.to_bytes()),
            None => Err("not found".into()),
        }
    }
}

#[test]
fn test_failed_deliver_does_not_leak_writes() {
    let mut node = AppBuilder::new().with_app(Leaky {}).node().unwrap();
    node.init_chain().unwrap();
    let failing = SignedTransaction::create("dave".into(), "leaky", vec![], 0).encode();
    let resp = node.deliver_tx(&failing);
    assert_eq!(1, resp.code);
    assert_eq!("failed after writing", resp.log);
    assert!(resp.events.is_empty());
    assert!(node.staged_changes().is_empty());
    node.commit();
    let resp = node.query("leaky", b"k1".to_vec());
    assert_eq!(1, resp.code);
    assert_eq!("not found", resp.log);

    // the same handler succeeding does write
    let passing = SignedTransaction::create("dave".into(), "leaky", vec![1], 0).encode();
    let resp = node.deliver_tx(&passing);
    assert_eq!(0, resp.code);
    assert_eq!(1, resp.events.len());
    assert_eq!("leaky.leak", resp.events[0].kind);
    // a failure after a success drops only its own writes
    assert_eq!(1, node.deliver_tx(&failing).code);
    assert_eq!(1, node.staged_changes().len());
    node.commit();
    assert_eq!(0, node.query("leaky", b"k1".to_vec()).code);
}

#[test]
fn test_parser() {
    assert_eq!(("hello", "/"), parse_abci_query_path("hello").unwrap());
    assert_eq!(("hello", "/"), parse_abci_query_path("hello/").unwrap());
    assert_eq!(None, parse_abci_query_path(""));
    assert_eq!(None, parse_abci_query_path("/"));
    assert_eq!(
        ("hello", "/one"),
        parse_abci_query_path("hello/one").unwrap()
    );
    assert_eq!(
        ("hello", "/one/two"),
        parse_abci_query_path("hello/one/two").unwrap()
    );
}

#[test]
fn test_parser_edges() {
    assert_eq!(None, parse_abci_query_path("/hello"));
    assert_eq!(None, parse_abci_query_path("//"));
    assert_eq!(Some(("a", "//")), parse_abci_query_path("a//"));
    assert_eq!(Some(("name", "/")), parse_abci_query_path("name"));
    assert_eq!(Some(("name", "/rest")), parse_abci_query_path("name/rest"));
    assert_eq!(Some(("n\u{e9}", "/\u{fc}")), parse_abci_query_path("n\u{e9}/\u{fc}"));
}

#[test]
fn test_events() {
    let tx = SignedTransaction::create(vec![], "hello", vec![], 0);
    let mut em = tx.into_context();
    let pairs = &[("name", "bob"), ("employer", "Acme")];
    em.dispatch_event("transfer", pairs);
    em.dispatch_event("second", &[]);

    let events = em.get_events();
    println!("{:#?}", events);
    assert_eq!(2, events.len());
    assert_eq!("hello.transfer", events[0].kind);
    assert_eq!(
        vec![
            (b"name".to_vec(), b"bob".to_vec()),
            (b"employer".to_vec(), b"Acme".to_vec())
        ],
        events[0].attributes
    );
    assert_eq!("hello.second", events[1].kind);
    assert!(events[1].attributes.is_empty());
    assert_eq!(events, em.get_events());
}

#[test]
fn store_test_test_store() {
    let snap = rapido::digest_map::DigestMap::new();
    let mut c1 = StoreView::wrap(&snap, rapido::digest_map::DigestMap::new());

    let store = MyStore {};
    store.put(
        "bob".into(),
        Person {
            name: "bob".into(),
            age: 1u8,
        },
        &mut c1,
    );

    store.put(
        "carl".into(),
        Person {
            name: "carl".into(),
            age: 2u8,
        },
        &mut c1,
    );

    // This passes because we haven't committed
    assert!(store.get("bob".into(), &mut c1).is_some());
    assert!(store.get("bad".into(), &mut c1).is_none());

    let t = c1.into_cache();
    println!("{:?}", t);
}

#[test]
fn test_storage_digest() {
    // the hash of the store's name with its length, then the encoded key
    let store = MyStore {};
    let key = store.key_bytes(&"bob".to_string());
    assert_eq!(vec![3, 0, 0, 0, b'b', b'o', b'b'], key);
    let mut preimage = vec![7, 0, 0, 0];
    preimage.extend_from_slice(b"mystore");
    preimage.extend_from_slice(&key);
    let store_key = StoreKey::create("mystore".into(), key.clone());
    assert_eq!(preimage, store_key.encode());
    assert_eq!(hash(&preimage).to_vec(), store_key.hash().to_vec());
    assert_eq!(hash(&preimage).to_vec(), store.digest(&"bob".to_string()).to_vec());
    // another store keeps the same key elsewhere
    let other = StoreKey::create("mystore2".into(), key);
    assert_ne!(store_key.hash().to_vec(), other.hash().to_vec());
}

#[test]
fn test_concat_keys() {
    // Keys are prefixed with the name of the store.
    let snap = rapido::digest_map::DigestMap::new();
    let mut c1 = StoreView::wrap(&snap, rapido::digest_map::DigestMap::new());
    let store = MyStore {};

    store.put(
        "1".into(),
        Person {
            name: "bob".into(),
            age: 1u8,
        },
        &mut c1,
    );

    store.put(
        "2".into(),
        Person {
            name: "carl".into(),
            age: 2u8,
        },
        &mut c1,
    );

    let p = store.get("1".into(), &c1).unwrap();
    assert_eq!("bob", p.name);

    let t = c1.into_cache();
    println!("{:?}", t);

    let c2 = StoreView::wrap(&snap, t);
    println!("{:?}", c2.into_cache());
}

#[test]
fn appstate_test_test_app_state() {
    let mut node = AppBuilder::new().with_app(PersonHandler {}).node().unwrap();
    {
        // New uses default
        let app_state = node.chain_state();
        assert_eq!(0i64, app_state.height);
        assert_eq!(Vec::<u8>::new(), app_state.apphash);
    }

    node.commit_with(vec![1, 1]);

    {
        let app_state = node.chain_state();
        assert_eq!(1i64, app_state.height);
        assert_eq!(vec![1, 1], app_state.apphash);
    }

    node.commit_with(vec![2, 2]);

    {
        let app_state = node.chain_state();
        assert_eq!(2i64, app_state.height);
        assert_eq!(vec![2, 2], app_state.apphash);
    }

    // a node that starts again from what was committed
    let stored = node.chain_state().to_bytes();
    let restored = rapido::schema::ChainState::from_bytes(&stored).unwrap();
    let again = Node::restore(
        AppBuilder::new().with_app(PersonHandler {}),
        rapido::store::clone_snapshot(node.snapshot()),
        restored,
    )
    .unwrap();
    assert_eq!(2i64, again.info("").last_block_height);
    assert_eq!(vec![2, 2], again.info("").last_block_app_hash);
}
