use rapido::context::Context;
use rapido::crypto::PublicKey;
use rapido::module::{AppModule, Authenticator};
use rapido::node::{AppBuilder, BuildError};
use rapido::store::{Store, StoreView};
use rapido::testkit::{testing_keypair, TestKit};
use rapido::tx::{verify_tx_signature, AccountId, SignedTransaction};

// Model
#[derive(Debug)]
pub struct Model {
    pub value: u8,
}

impl Model {
    pub fn decode(raw: Vec<u8>) -> Self {
        assert_eq!(1, raw.len(), "decode model");
        Model { value: raw[0] }
    }
}

// Store
pub struct ModelStore {
    name: String,
}

impl ModelStore {
    pub fn load(appname: &str) -> Self {
        Self {
            name: format!("{:}.store", appname),
        }
    }
}

impl Store for ModelStore {
    type Key = AccountId;
    type Value = Model;

    fn name(&self) -> String {
        self.name.clone()
    }

    fn key_bytes(&self, key: &AccountId) -> Vec<u8> {
        let mut raw = (key.len() as u32).to_le_bytes().to_vec();
        raw.extend_from_slice(key);
        raw
    }

    fn value_bytes(&self, value: &Model) -> Vec<u8> {
        vec![value.value]
    }

    fn value_from_bytes(&self, raw: &[u8]) -> Option<Model> {
        if raw.len() == 1 {
            Some(Model { value: raw[0] })
        } else {
            None
        }
    }
}

// Messages
#[derive(Debug, Clone, PartialEq)]
pub enum Msgs {
    Create(u8),
    Inc,
}

impl Msgs {
    fn encode(&self) -> Vec<u8> {
        match self {
            Msgs::Create(v) => vec![0u8, *v],
            Msgs::Inc => vec![1u8],
        }
    }

    fn decode(raw: &[u8]) -> Result<Msgs, String> {
        match raw {
            [0u8, v] => Ok(Msgs::Create(*v)),
            [1u8] => Ok(Msgs::Inc),
            _ => Err("cannot decode the message".into()),
        }
    }
}

// App logic
pub struct ModelApp {
    name: String,
}

impl ModelApp {
    pub fn new(name: &str) -> Self {
        Self { name: name.into() }
    }
}

impl AppModule for ModelApp {
    fn name(&self) -> String {
        self.name.clone()
    }

    fn initialize(&self, _view: &mut StoreView) -> Result<(), String> {
        Ok(())
    }

    fn handle_tx(&self, ctx: &mut Context, cache: &mut StoreView) -> Result<(), String> {
        let msg: Msgs = Msgs::decode(&ctx.msg)?;
        match msg {
            Msgs::Create(val) => {
                let store = ModelStore::load(&self.name);
                store.put(ctx.sender.clone(), Model { value: val }, cache);
                let n = String::from_utf8(ctx.sender.clone()).unwrap();
                ctx.dispatch_event("model", &[("created", &n)]);
                return Ok(());
            }
            Msgs::Inc => {
                let store = ModelStore::load(&self.name);
                match store.get(ctx.sender.clone(), cache) {
                    Some(mut m) => {
                        m.value += 1;
                        store.put(ctx.sender.clone(), m, cache);
                        let n = String::from_utf8(ctx.sender.clone()).unwrap();
                        ctx.dispatch_event("model", &[("inc", &n)]);
                        return Ok(());
                    }
                    _ => Err("model for user not found".into()),
                }
            }
        }
    }

    fn handle_query(&self, path: &str, key: Vec<u8>, view: &StoreView) -> Result<Vec<u8>, String> {
        match path {
            "/" => {
                let store = ModelStore::load(&self.name);
                match store.query(key, view) {
                    Some(p) => Ok(vec![p.value]),
                    None => Err("Model not found for user".into()),
                }
            }
            _ => Err("invalid query".into()),
        }
    }
}

// Test Authenticator that only recognizes 1 account. Set via AppBuilder
pub struct TestAuthenticator {
    pubkey: PublicKey,
}
impl TestAuthenticator {
    pub fn new(pubkey: PublicKey) -> Self {
        Self { pubkey }
    }
}
impl Authenticator for TestAuthenticator {
    fn validate(&self, tx: &SignedTransaction, _view: &StoreView) -> Result<(), String> {
        // Check the signature
        if !verify_tx_signature(tx, &self.pubkey) {
            return Err("bad signature".into());
        }
        Ok(())
    }

    fn increment_nonce(&self, _tx: &SignedTransaction, _view: &mut StoreView) -> Result<(), String> {
        Ok(())
    }
}

fn tx(sender: &str, app: &str, msg: Msgs, nonce: u64) -> SignedTransaction {
    SignedTransaction::create(sender.as_bytes().to_vec(), app, msg.encode(), nonce)
}

#[test]
fn test_core_basics() {
    // App name
    let appone = "appone";
    // Account
    let account = "dave";

    let mut tester = TestKit::create(AppBuilder::new().with_app(ModelApp::new(appone))).unwrap();
    tester.start().unwrap();

    {
        let txs = &[&tx(account, appone, Msgs::Create(1), 0u64)];

        assert!(tester.check_tx(txs).is_ok());
        assert!(tester.commit_tx(txs).is_ok());

        let qr = tester.query("appone", account.into()).unwrap();
        let m = Model::decode(qr);
        assert_eq!(1, m.value);
    }

    assert!(tester.query("appone", "badaccountname".into()).is_err());

    {
        let txs = &[&tx(account, appone, Msgs::Inc, 0u64)];

        assert!(tester.check_tx(txs).is_ok());
        assert!(tester.commit_tx(txs).is_ok());

        let qr = tester.query("appone", account.into()).unwrap();
        let m = Model::decode(qr);
        assert_eq!(2, m.value);
    }
}

#[test]
fn test_multi_mods() {
    // App names
    let app1 = "app1";
    let app2 = "app2";
    let app3 = "app3";

    // Accounts
    let bob = "bob";
    let alice = "alice";

    let app = AppBuilder::new()
        .with_app(ModelApp::new(app1))
        .with_app(ModelApp::new(app2))
        .with_app(ModelApp::new(app3));

    let mut tester = TestKit::create(app).unwrap();
    tester.start().unwrap();

    let txs = &[
        &tx(bob, app1, Msgs::Create(1), 0u64),
        &tx(alice, app1, Msgs::Create(1), 0u64),
        &tx(bob, app3, Msgs::Create(1), 0u64),
        &tx(alice, app3, Msgs::Create(1), 0u64),
        &tx(bob, app2, Msgs::Create(1), 0u64),
    ];

    assert!(tester.check_tx(txs).is_ok());
    assert!(tester.commit_tx(txs).is_ok());

    assert!(tester.query(app1, bob.into()).is_ok());
    assert!(tester.query(app1, alice.into()).is_ok());
    assert!(tester.query(app2, bob.into()).is_ok());
    assert!(tester.query(app2, bob.into()).is_ok());
    assert!(tester.query(app2, bob.into()).is_ok());
    assert!(tester.query(app2, alice.into()).is_err());
}

#[test]
fn test_check_with_simple_authenticator() {
    let app1 = "app1";
    let alice = "alice";
    let badguy = "bad";

    let (alicepk, alicesk) = testing_keypair("alice's key");
    let (_badpk, badsk) = testing_keypair("another key");

    let app = AppBuilder::new()
        .set_authenticator(TestAuthenticator::new(alicepk))
        .with_app(ModelApp::new(app1));

    let mut tester = TestKit::create(app).unwrap();
    tester.start().unwrap();

    // Check alice passes
    let mut alicetx = tx(alice, app1, Msgs::Create(1), 0u64);
    alicetx.sign(&alicesk);

    let txs = &[&alicetx];
    assert!(tester.check_tx(txs).is_ok());

    // Check 'bad' fails
    let mut badtx = tx(badguy, app1, Msgs::Create(1), 0u64);
    badtx.sign(&badsk);

    let txs1 = &[&badtx];
    assert!(tester.check_tx(txs1).is_err());
}

#[test]
fn test_signature_authenticator_scenario() {
    // The same sender, signed once with the right key and once with another.
    let (pk, sk) = testing_keypair("alice's key");
    let (_opk, osk) = testing_keypair("another key");
    let app = AppBuilder::new()
        .set_authenticator(TestAuthenticator::new(pk))
        .with_app(ModelApp::new("app1"));
    let mut tester = TestKit::create(app).unwrap();
    tester.start().unwrap();

    let mut good = tx("alice", "app1", Msgs::Create(1), 0u64);
    good.sign(&sk);
    let mut forged = tx("alice", "app1", Msgs::Create(1), 0u64);
    forged.sign(&osk);

    assert!(tester.check_tx(&[&good]).is_ok());
    assert_eq!(
        Err("reason: bad signature".to_string()),
        tester.check_tx(&[&forged])
    );
    let unsigned = tx("alice", "app1", Msgs::Create(1), 0u64);
    assert!(tester.check_tx(&[&unsigned]).is_err());

    let before = tester.query("app1", "alice".into());
    assert!(before.is_err());
    let apphash = tester.commit_tx(&[&good]).unwrap();
    assert_eq!(32, apphash.len());
    assert_ne!(vec![0u8; 32], apphash);
    assert_eq!(vec![1u8], tester.query("app1", "alice".into()).unwrap());
}

#[test]
fn test_kit_must_be_started() {
    let mut tester = TestKit::create(AppBuilder::new().with_app(ModelApp::new("app1"))).unwrap();
    let t = tx("dave", "app1", Msgs::Create(1), 0u64);
    let expected = Err("Must first call the start method".to_string());
    assert_eq!(expected, tester.check_tx(&[&t]));
    assert_eq!(
        Err("Must first call the start method".to_string()),
        tester.commit_tx(&[&t])
    );
    assert_eq!(
        Err("Must first call the start method".to_string()),
        tester.query("app1", "dave".into())
    );
}

#[test]
fn test_reserved_name_is_rejected() {
    let built = AppBuilder::new()
        .with_app(ModelApp::new("app1"))
        .with_app(ModelApp::new("rapido"))
        .node();
    assert_eq!(Some(BuildError::ReservedName), built.err());
    let only = AppBuilder::new().with_app(ModelApp::new("rapido")).node();
    assert_eq!(Some(BuildError::ReservedName), only.err());
}

#[test]
fn test_missing_service() {
    let built = AppBuilder::<ModelApp, _>::new().node();
    assert_eq!(Some(BuildError::NoModules), built.err());
}

// Two modules of one name that tell themselves apart by what they store.
pub struct Tagged {
    name: String,
    tag: u8,
}

impl AppModule for Tagged {
    fn name(&self) -> String {
        self.name.clone()
    }

    fn initialize(&self, _view: &mut StoreView) -> Result<(), String> {
        Ok(())
    }

    fn handle_tx(&self, ctx: &mut Context, cache: &mut StoreView) -> Result<(), String> {
        let store = ModelStore::load("tagged");
        store.put(ctx.sender.clone(), Model { value: self.tag }, cache);
        Ok(())
    }

    fn handle_query(&self, _path: &str, _key: Vec<u8>, _view: &StoreView) -> Result<Vec<u8>, String> {
        Ok(vec![self.tag])
    }
}

#[test]
fn test_first_come_wins() {
    let app = AppBuilder::new()
        .with_app(Tagged { name: "twin".into(), tag: 1 })
        .with_app(Tagged { name: "other".into(), tag: 2 })
        .with_app(Tagged { name: "twin".into(), tag: 3 });
    let mut node = app.node().unwrap();
    assert_eq!(vec![1u8], node.query("twin", vec![]).value);
    assert_eq!(vec![1u8], node.query("twin/", vec![]).value);
    assert_eq!(vec![2u8], node.query("other", vec![]).value);

    let t = SignedTransaction::create(b"dave".to_vec(), "twin", vec![], 0);
    assert_eq!(0, node.deliver_tx(&t.encode()).code);
    node.commit();
    let snap = node.snapshot();
    let store = ModelStore::load("tagged");
    let view = StoreView::wrap_snapshot(snap);
    assert_eq!(1u8, store.query(b"dave".to_vec(), &view).unwrap().value);
}

#[test]
fn test_kit_wallet() {
    let (apk, ask) = testing_keypair("dave");
    let (bpk, bsk) = testing_keypair("dave");

    assert_eq!(apk, bpk);
    assert_eq!(ask, bsk);
}
