use rapido::context::Context;
use rapido::module::{AppModule, DefaultAuthenticator};
use rapido::node::{AppBuilder, Node};
use rapido::store::{Store, StoreView};
use rapido::tx::SignedTransaction;

const CRYPTO_SERVICE_ROUTE_NAME: &str = "cryptoapp";

#[derive(Debug, PartialEq)]
struct Account {
    name: Vec<u8>,
    balance: u64,
}

impl Account {
    fn to_bytes(&self) -> Vec<u8> {
        let mut raw = self.balance.to_le_bytes().to_vec();
        raw.extend_from_slice(&self.name);
        raw
    }

    fn from_bytes(raw: &[u8]) -> Result<Self, String> {
        if raw.len() < 8 {
            return Err("cannot decode the account".into());
        }
        let mut balance = [0u8; 8];
        balance.copy_from_slice(&raw[..8]);
        Ok(Account {
            name: raw[8..].to_vec(),
            balance: u64::from_le_bytes(balance),
        })
    }
}

struct AccountStore;
impl Store for AccountStore {
    type Key = Vec<u8>;
    type Value = Account;

    fn name(&self) -> String {
        CRYPTO_SERVICE_ROUTE_NAME.into()
    }

    fn key_bytes(&self, key: &Vec<u8>) -> Vec<u8> {
        let mut raw = (key.len() as u32).to_le_bytes().to_vec();
        raw.extend_from_slice(key);
        raw
    }

    fn value_bytes(&self, value: &Account) -> Vec<u8> {
        value.to_bytes()
    }

    fn value_from_bytes(&self, raw: &[u8]) -> Option<Account> {
        Account::from_bytes(raw).ok()
    }
}

// The first byte of a message tells its kind.
const CREATE: u8 = 0;
const DEPOSIT: u8 = 1;
const TRANSFER: u8 = 2;

struct CryptocurrencyService;
impl AppModule for CryptocurrencyService {
    fn name(&self) -> String {
        CRYPTO_SERVICE_ROUTE_NAME.into()
    }

    fn initialize(&self, _view: &mut StoreView) -> Result<(), String> {
        Ok(())
    }

    fn handle_tx(&self, ctx: &mut Context, view: &mut StoreView) -> Result<(), String> {
        let store = AccountStore {};
        match ctx.msg.split_first() {
            Some((&CREATE, account)) => {
                if store.get(account.to_vec(), view).is_some() {
                    return Err("account already exists".into());
                }
                let fresh = Account {
                    name: account.to_vec(),
                    balance: 0u64,
                };
                store.put(account.to_vec(), fresh, view);
                Ok(())
            }
            Some((&DEPOSIT, rest)) if rest.len() > 8 => {
                let (amount, account) = rest.split_at(8);
                let mut found = match store.get(account.to_vec(), view) {
                    Some(a) => a,
                    None => return Err("account doesn't exist".into()),
                };
                let mut bytes = [0u8; 8];
                bytes.copy_from_slice(amount);
                found.balance += u64::from_le_bytes(bytes);
                store.put(account.to_vec(), found, view);
                Ok(())
            }
            Some((&TRANSFER, rest)) if rest.len() > 8 => {
                let (amount, recipient) = rest.split_at(8);
                let mut bytes = [0u8; 8];
                bytes.copy_from_slice(amount);
                let amount = u64::from_le_bytes(bytes);
                let mut from = match store.get(ctx.sender.clone(), view) {
                    Some(a) => a,
                    None => return Err("Error parsing sender".into()),
                };
                let mut to = match store.get(recipient.to_vec(), view) {
                    Some(a) => a,
                    None => return Err("account doesn't exist".into()),
                };
                if from.balance < amount {
                    return Err("Insufficient funds!".into());
                }
                from.balance -= amount;
                to.balance += amount;
                store.put(ctx.sender.clone(), from, view);
                store.put(recipient.to_vec(), to, view);
                Ok(())
            }
            _ => Err("unknown message".into()),
        }
    }

    fn handle_query(&self, _path: &str, key: Vec<u8>, view: &StoreView) -> Result<Vec<u8>, String> {
        match (AccountStore {}).query(key, view) {
            Some(account) => Ok(account.to_bytes()),
            None => Err("account doesn't exist".into()),
        }
    }
}

type App = Node<CryptocurrencyService, DefaultAuthenticator>;

fn create_app() -> App {
    AppBuilder::new()
        .with_app(CryptocurrencyService {})
        .node()
        .unwrap()
}

fn message(kind: u8, amount: Option<u64>, account: &[u8]) -> Vec<u8> {
    let mut raw = vec![kind];
    if let Some(amount) = amount {
        raw.extend_from_slice(&amount.to_le_bytes());
    }
    raw.extend_from_slice(account);
    raw
}

fn send_and_check_code(app: &mut App, sender: &[u8], msg: Vec<u8>, expected_code: u32) {
    let tx = SignedTransaction::create(sender.to_vec(), CRYPTO_SERVICE_ROUTE_NAME, msg, 0);
    let resp = app.deliver_tx(&tx.encode());
    assert_eq!(expected_code, resp.code);
}

fn check_query_account(app: &mut App, excode: u32, exacct: Vec<u8>, exbal: u64) {
    // Request
    let resp = app.query(&format!("{}/anything", CRYPTO_SERVICE_ROUTE_NAME), exacct.clone());
    assert_eq!(excode, resp.code);

    // Response
    let account = Account::from_bytes(&resp.value);
    assert!(account.is_ok());
    let expected_account = account.unwrap();
    assert_eq!(exacct, expected_account.name);
    assert_eq!(exbal, expected_account.balance);
}

#[test]
fn test_simple() {
    let mut app = create_app();

    send_and_check_code(&mut app, b"", message(CREATE, None, b"dave"), 0);

    app.commit(); /* MUST commit */

    // Duplicate account fails
    send_and_check_code(&mut app, b"", message(CREATE, None, b"dave"), 1);

    // Try query
    check_query_account(&mut app, 0u32, b"dave".to_vec(), 0u64);
}

#[test]
fn test_create_account() {
    let mut app = create_app();

    let dave = vec![0x11];

    send_and_check_code(&mut app, &dave, message(CREATE, None, &dave), 0); // <= bueno

    app.commit(); /* MUST commit */

    // Duplicate account fails
    send_and_check_code(&mut app, &dave, message(CREATE, None, &dave), 1); // <= fail code

    send_and_check_code(&mut app, &dave, message(DEPOSIT, Some(10), &dave), 0);
    app.commit();
    check_query_account(&mut app, 0u32, dave.clone(), 10u64);

    // a transfer moves what is there and no more
    let carl = vec![0x22];
    send_and_check_code(&mut app, &carl, message(CREATE, None, &carl), 0);
    send_and_check_code(&mut app, &dave, message(TRANSFER, Some(11), &carl), 1);
    send_and_check_code(&mut app, &dave, message(TRANSFER, Some(4), &carl), 0);
    app.commit();
    check_query_account(&mut app, 0u32, dave.clone(), 6u64);
    check_query_account(&mut app, 0u32, carl.clone(), 4u64);
}
