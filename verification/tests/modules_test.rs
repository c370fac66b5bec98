use rapido::context::Context;
use rapido::counter::{CounterExample, CounterHandler, Msgs};
use rapido::module::AppModule;
use rapido::node::AppBuilder;
use rapido::store::StoreView;
use rapido::testkit::TestKit;
use rapido::tx::SignedTransaction;

fn counter_tx(sender: &str, msg: Msgs) -> SignedTransaction {
    SignedTransaction::create(sender.into(), "counter.app", msg.encode(), 0)
}

#[test]
fn test_counter_app() {
    let mut tester = TestKit::create(AppBuilder::new().with_app(CounterHandler {})).unwrap();
    tester.start().unwrap();

    assert_eq!(
        Err("reason: user not found".to_string()),
        tester.commit_tx(&[&counter_tx("dave", Msgs::Add(1))])
    );
    assert!(tester
        .commit_tx(&[&counter_tx("", Msgs::Create("dave".into()))])
        .is_ok());
    assert_eq!(Ok(vec![0, 0]), tester.query("counter.app", b"dave".to_vec()));
    assert_eq!(
        Err("reason: User already exists".to_string()),
        tester.commit_tx(&[&counter_tx("", Msgs::Create("dave".into()))])
    );

    let txs = [
        counter_tx("dave", Msgs::Add(300)),
        counter_tx("dave", Msgs::Subtract(44)),
    ];
    assert!(tester.commit_tx(&[&txs[0], &txs[1]]).is_ok());
    assert_eq!(Ok(vec![0, 1]), tester.query("counter.app", b"dave".to_vec()));

    assert_eq!(
        Err("reason: can't have negative results from a subtract".to_string()),
        tester.commit_tx(&[&counter_tx("dave", Msgs::Subtract(257))])
    );
    assert_eq!(
        Err("reason: can't count beyond the largest number".to_string()),
        tester.commit_tx(&[&counter_tx("dave", Msgs::Add(u16::MAX))])
    );
    assert_eq!(Ok(vec![0, 1]), tester.query("counter.app", b"dave".to_vec()));

    assert_eq!(
        Err("reason: not count found for: bob".to_string()),
        tester.query("counter.app", b"bob".to_vec())
    );
    assert_eq!(
        Err("reason: nothing else to see here...".to_string()),
        tester.query("counter.app/other", b"dave".to_vec())
    );
    assert_eq!(
        Err("reason: Error parsing the query key!".to_string()),
        tester.query("counter.app", vec![0xff])
    );

    assert_eq!(vec![0, 4, 0, 0, 0, b'd', b'a', b'v', b'e'], Msgs::Create("dave".into()).encode());
    assert_eq!(vec![1, 0x2c, 0x01], Msgs::Add(300).encode());
    assert_eq!(Some(Msgs::Subtract(2)), Msgs::decode(&[2, 2, 0]));
    assert_eq!(None, Msgs::decode(&[3, 2, 0]));
    assert_eq!(None, Msgs::decode(&[1, 2]));
    assert_eq!(None, Msgs::decode(&[]));
}

#[test]
fn test_counting_example() {
    let mut node = AppBuilder::new().with_app(CounterExample {}).node().unwrap();
    node.init_chain().unwrap();
    assert_eq!(b"count is: 0".to_vec(), node.query("counter", vec![]).value);
    let tx = SignedTransaction::create(vec![], "counter", vec![], 0).encode();
    for _ in 0..12 {
        let resp = node.deliver_tx(&tx);
        assert_eq!(0, resp.code);
        assert_eq!("counter.count", resp.events[0].kind);
        assert_eq!(
            vec![(b"added".to_vec(), b"one".to_vec())],
            resp.events[0].attributes
        );
    }
    assert_eq!(b"count is: 0".to_vec(), node.query("counter", vec![]).value);
    node.commit();
    assert_eq!(b"count is: 12".to_vec(), node.query("counter/", vec![]).value);
    assert_eq!(b"hello there".to_vec(), node.query("counter/random", vec![]).value);
    assert_eq!(1, node.query("counter/other", vec![]).code);
}

pub struct Picky;
impl AppModule for Picky {
    fn name(&self) -> String {
        "picky".into()
    }

    fn initialize(&self, _view: &mut StoreView) -> Result<(), String> {
        Ok(())
    }

    fn handle_tx(&self, ctx: &mut Context, _view: &mut StoreView) -> Result<(), String> {
        if ctx.msg == vec![1u8] {
            Ok(())
        } else {
            Err("".into())
        }
    }

    fn handle_query(&self, _path: &str, _key: Vec<u8>, _view: &StoreView) -> Result<Vec<u8>, String> {
        Ok(vec![])
    }
}

#[test]
fn test_builder() {
    let mut app = AppBuilder::new().with_app(Picky {}).node().unwrap();
    {
        let tx1 = SignedTransaction::create(vec![], "picky", vec![2], 0).encode();
        let result = app.deliver_tx(&tx1);
        assert_eq!(1u32, result.code);
    }

    {
        let tx1 = SignedTransaction::create(vec![], "picky", vec![1], 0).encode();
        let result = app.deliver_tx(&tx1);
        assert_eq!(0u32, result.code);
    }
}

pub struct BadGenesis;
impl AppModule for BadGenesis {
    fn name(&self) -> String {
        "bad".into()
    }

    fn initialize(&self, _view: &mut StoreView) -> Result<(), String> {
        Err("no genesis".into())
    }

    fn handle_tx(&self, _ctx: &mut Context, _view: &mut StoreView) -> Result<(), String> {
        Ok(())
    }

    fn handle_query(&self, _path: &str, _key: Vec<u8>, _view: &StoreView) -> Result<Vec<u8>, String> {
        Ok(vec![])
    }
}

#[test]
fn test_genesis_failure() {
    let mut node = AppBuilder::new().with_app(BadGenesis {}).node().unwrap();
    assert_eq!(Err("no genesis".to_string()), node.init_chain());
    assert!(node.staged_changes().is_empty());

    let mut tester = TestKit::create(AppBuilder::new().with_app(BadGenesis {})).unwrap();
    assert_eq!(Err("no genesis".to_string()), tester.start());
    assert_eq!(
        Err("Must first call the start method".to_string()),
        tester.check_tx(&[])
    );
    let production = AppBuilder::new().with_app(BadGenesis {}).use_production_db();
    assert!(production.uses_production_db());
}
