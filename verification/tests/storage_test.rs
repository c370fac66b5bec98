use rapido::account_address::AccountAddress;
use rapido::context::Context;
use rapido::digest_map::DigestMap;
use rapido::module::{AppModule, DefaultAuthenticator};
use rapido::node::{AppBuilder, Node};
use rapido::store::{Snapshot, Store, StoreView};
use rapido::tx::SignedTransaction;

const ROUTE_NAME: &str = "exapp";

// Bytes under a number.
struct SchemaStore;
impl Store for SchemaStore {
    type Key = u32;
    type Value = Vec<u8>;

    fn name(&self) -> String {
        ROUTE_NAME.into()
    }

    fn key_bytes(&self, key: &u32) -> Vec<u8> {
        key.to_le_bytes().to_vec()
    }

    fn value_bytes(&self, value: &Vec<u8>) -> Vec<u8> {
        value.clone()
    }

    fn value_from_bytes(&self, raw: &[u8]) -> Option<Vec<u8>> {
        Some(raw.to_vec())
    }
}

struct SimpleHandler;
impl AppModule for SimpleHandler {
    fn name(&self) -> String {
        ROUTE_NAME.into()
    }

    fn initialize(&self, _view: &mut StoreView) -> Result<(), String> {
        Ok(())
    }

    fn handle_tx(&self, ctx: &mut Context, view: &mut StoreView) -> Result<(), String> {
        let store = SchemaStore {};
        store.put(1u32, ctx.msg.clone(), view);
        Ok(())
    }

    fn handle_query(&self, _path: &str, _key: Vec<u8>, _view: &StoreView) -> Result<Vec<u8>, String> {
        Ok(vec![])
    }
}

fn send_and_check_code(app: &mut Node<SimpleHandler, DefaultAuthenticator>, val: Vec<u8>) {
    let tx = SignedTransaction::create(vec![], ROUTE_NAME, val, 0);
    let resp = app.deliver_tx(&tx.encode());
    assert_eq!(0u32, resp.code);
}

fn commit_and_check_storage(app: &mut Node<SimpleHandler, DefaultAuthenticator>, expected: Vec<u8>) {
    app.commit();
    let view = StoreView::wrap_snapshot(app.snapshot());
    let store = SchemaStore {};
    assert_eq!(store.query(1u32, &view).unwrap(), expected);
}

#[test]
fn test_app_basics() {
    // Create the app
    let mut app = AppBuilder::new().with_app(SimpleHandler {}).node().unwrap();

    send_and_check_code(&mut app, vec![0x1]);
    send_and_check_code(&mut app, vec![0x2]);
    send_and_check_code(&mut app, vec![0x3]);

    commit_and_check_storage(&mut app, vec![0x3]);

    send_and_check_code(&mut app, vec![0x4]);
    send_and_check_code(&mut app, vec![0x5]);

    commit_and_check_storage(&mut app, vec![0x5]);
}

#[test]
fn test_basic() {
    let mut app = AppBuilder::new().with_app(SimpleHandler {}).node().unwrap();

    // Run all the txs...
    for i in 1..10000u32 {
        send_and_check_code(&mut app, i.to_le_bytes().to_vec());
    }

    app.commit();

    let view = StoreView::wrap_snapshot(app.snapshot());
    let store = SchemaStore {};
    println!("commit hash: {:?}", app.chain_state().apphash);
    assert_eq!(
        9999u32.to_le_bytes().to_vec(),
        store.query(1u32, &view).unwrap()
    );
}

#[test]
fn test_nschema() {
    let mut db: Snapshot = DigestMap::new();
    let store = SchemaStore {};

    {
        let view = StoreView::wrap_snapshot(&db);
        let noacct = store.query(1u32, &view);
        assert!(noacct.is_none());
    }

    {
        let mut fork = rapido::store::clone_snapshot(&db);
        let mut view = StoreView::wrap(&db, DigestMap::new());
        store.put(1u32, vec![5, 5, 5], &mut view);
        store.put(2u32, vec![5, 5, 5], &mut view);

        view.commit(&mut fork);
        let h = rapido::store::state_root(&fork);
        println!("{:?}", h);
        db = fork;
    }

    {
        let view = StoreView::wrap_snapshot(&db);
        let a1 = store.query(1u32, &view);
        let a2 = store.query(1u32, &view);
        assert_eq!(vec![5, 5, 5], a1.unwrap());
        assert_eq!(vec![5, 5, 5], a2.unwrap());
    }
}

#[test]
fn test_address_as_store_key() {
    let mut db: DigestMap<Vec<u8>> = DigestMap::new();

    {
        db.insert(AccountAddress::new([1u8; 32]).object_hash(), vec![1]);
        db.insert(AccountAddress::new([2u8; 32]).object_hash(), vec![2]);
    }

    {
        assert_eq!(
            db.get(&AccountAddress::new([1u8; 32]).object_hash()).unwrap(),
            &vec![1]
        );
        assert_eq!(
            db.get(&AccountAddress::new([2u8; 32]).object_hash()).unwrap(),
            &vec![2]
        );
    }

    // written to storage and read back
    let a = AccountAddress::new([7u8; 32]);
    assert_eq!(32, a.size());
    let mut buffer = vec![0u8; 34];
    assert_eq!(32, a.write(&mut buffer));
    assert_eq!([&[7u8; 32][..], &[0u8, 0u8][..]].concat(), buffer);
    assert_eq!(a, AccountAddress::read(&buffer[..32]));
    assert!(a.same(&AccountAddress::read(&buffer[..32])));
    assert!(!a.same(&AccountAddress::new([8u8; 32])));
}
