use rapido::context::Context;
use rapido::crypto::{hash, PublicKey, SecretKey};
use rapido::module::{AppModule, Authenticator};
use rapido::node::AppBuilder;
use rapido::store::{Store, StoreView};
use rapido::testkit::testing_keypair;
use rapido::tx::{sign_transaction, verify_tx_signature, SignedTransaction};

const ACCOUNT_SERVICE_ROUTE: &str = "accounts_service";
const PODNA_SERVICE_ROUTE: &str = "proof_of_dna_service";
const REGISTRATION_COST: u8 = 5; // The cost to register

/// Simple Wallet used for testing
struct TestWallet {
    wallets: Vec<(Vec<u8>, u8, SecretKey, PublicKey)>,
}

impl TestWallet {
    fn generate(num: usize) -> Self {
        let mut w: Vec<(Vec<u8>, u8, SecretKey, PublicKey)> = Vec::new();
        for i in 0..=num {
            let (pk, sk) = testing_keypair(&format!("wallet {}", i));
            let address = hash(&pk.to_vec());
            w.push((address.to_vec(), 5, sk, pk))
        }
        Self { wallets: w }
    }

    fn get_address(&self, index: usize) -> Vec<u8> {
        self.wallets[index].0.clone()
    }

    fn get_secretkey(&self, index: usize) -> SecretKey {
        self.wallets[index].2.clone()
    }

    fn generate_genesis_data(&self) -> Vec<(Vec<u8>, u8, [u8; 32])> {
        self.wallets
            .iter()
            .map(|(addr, bal, _, pk)| (addr.clone(), *bal, pk.as_bytes()))
            .collect()
    }
}

#[derive(PartialEq, Debug)]
struct Account {
    id: Vec<u8>,
    balance: u8, // intentional for testing
    public_key_bits: [u8; 32],
}

impl Account {
    fn new(id: Vec<u8>, balance: u8, public_key_bits: [u8; 32]) -> Self {
        Self {
            id,
            balance,
            public_key_bits,
        }
    }

    fn get_public_key(&self) -> PublicKey {
        PublicKey::new(self.public_key_bits)
    }

    fn encode(&self) -> Vec<u8> {
        let mut raw = (self.id.len() as u32).to_le_bytes().to_vec();
        raw.extend_from_slice(&self.id);
        raw.push(self.balance);
        raw.extend_from_slice(&self.public_key_bits);
        raw
    }

    fn decode(data: Vec<u8>) -> Self {
        let n = u32::from_le_bytes([data[0], data[1], data[2], data[3]]) as usize;
        assert_eq!(4 + n + 1 + 32, data.len());
        let mut key = [0u8; 32];
        key.copy_from_slice(&data[4 + n + 1..]);
        Account::new(data[4..4 + n].to_vec(), data[4 + n], key)
    }

    fn debit(&mut self, amount: u8) -> Result<(), String> {
        if self.balance < amount {
            return Err("Insufficient funds".into());
        }
        self.balance -= amount;
        Ok(())
    }

    fn credit(&mut self, amount: u8) {
        self.balance += amount;
    }
}

fn prefixed(key: &[u8]) -> Vec<u8> {
    let mut raw = (key.len() as u32).to_le_bytes().to_vec();
    raw.extend_from_slice(key);
    raw
}

struct AccountStore;
impl Store for AccountStore {
    type Key = Vec<u8>;
    type Value = Account;

    fn name(&self) -> String {
        "_accounts_store_".into()
    }

    fn key_bytes(&self, key: &Vec<u8>) -> Vec<u8> {
        prefixed(key)
    }

    fn value_bytes(&self, value: &Account) -> Vec<u8> {
        value.encode()
    }

    fn value_from_bytes(&self, raw: &[u8]) -> Option<Account> {
        Some(Account::decode(raw.to_vec()))
    }
}

impl AccountStore {
    fn create(&self, id: Vec<u8>, balance: u8, pubkey: [u8; 32], view: &mut StoreView) {
        if let None = self.get(id.clone(), view) {
            self.put(id.clone(), Account::new(id, balance, pubkey), view);
        }
    }

    fn transfer(
        &self,
        sender: Vec<u8>,
        recip: Vec<u8>,
        amount: u8,
        view: &mut StoreView,
    ) -> Result<(), String> {
        let from_account = self.get(sender.clone(), view);
        if from_account.is_none() {
            return Err("sender account not found".into());
        }
        let to_account = self.get(recip.clone(), view);
        if to_account.is_none() {
            return Err("recipient account not found".into());
        }
        let mut fa = from_account.unwrap();
        let mut ta = to_account.unwrap();

        fa.debit(amount)?;
        ta.credit(amount);

        self.put(sender, fa, view);
        self.put(recip, ta, view);

        Ok(())
    }
}

// A store of bytes under a name of its own.
struct BytesStore(&'static str);
impl Store for BytesStore {
    type Key = Vec<u8>;
    type Value = Vec<u8>;

    fn name(&self) -> String {
        self.0.into()
    }

    fn key_bytes(&self, key: &Vec<u8>) -> Vec<u8> {
        prefixed(key)
    }

    fn value_bytes(&self, value: &Vec<u8>) -> Vec<u8> {
        value.clone()
    }

    fn value_from_bytes(&self, raw: &[u8]) -> Option<Vec<u8>> {
        Some(raw.to_vec())
    }
}

fn register_dna(acct: Vec<u8>, dna: [u8; 32], view: &mut StoreView) -> Result<(), String> {
    let acct_to_dna = BytesStore("_podna_a_to_d_store_");
    let dna_to_acct = BytesStore("_podna_d_to_a_store_");
    if let Some(_) = dna_to_acct.get(dna.to_vec(), view) {
        return Err("DNA already registered!".into());
    }
    acct_to_dna.put(acct.clone(), dna.to_vec(), view);
    dna_to_acct.put(dna.to_vec(), acct, view);
    Ok(())
}

struct RegisterTx(Vec<u8>, [u8; 32]);
impl RegisterTx {
    fn new(to_pay: Vec<u8>, dna: [u8; 32]) -> Self {
        Self(to_pay, dna)
    }

    fn encode(&self) -> Vec<u8> {
        let mut raw = prefixed(&self.0);
        raw.extend_from_slice(&self.1);
        raw
    }

    fn decode(raw: &[u8]) -> Result<Self, String> {
        if raw.len() < 36 {
            return Err("cannot decode the registration".into());
        }
        let mut dna = [0u8; 32];
        dna.copy_from_slice(&raw[raw.len() - 32..]);
        Ok(RegisterTx(raw[4..raw.len() - 32].to_vec(), dna))
    }

    fn execute(&self, sender: Vec<u8>, view: &mut StoreView) -> Result<(), String> {
        let accounts = AccountStore {};
        if let None = accounts.get(sender.clone(), view) {
            return Err("No account found".into());
        }
        let acct = accounts.get(sender.clone(), view).unwrap();
        register_dna(acct.id, self.1, view)
            .and_then(|_| accounts.transfer(sender, self.0.clone(), REGISTRATION_COST, view))
    }
}

// The two services of the application.
enum Service {
    Accounts(Vec<(Vec<u8>, u8, [u8; 32])>),
    Dna,
}

impl AppModule for Service {
    fn name(&self) -> String {
        match self {
            Service::Accounts(_) => ACCOUNT_SERVICE_ROUTE.into(),
            Service::Dna => PODNA_SERVICE_ROUTE.into(),
        }
    }

    fn initialize(&self, view: &mut StoreView) -> Result<(), String> {
        if let Service::Accounts(genesis) = self {
            let store = AccountStore {};
            for (id, bal, pk) in genesis {
                store.create(id.clone(), *bal, *pk, view);
            }
        }
        Ok(())
    }

    fn handle_tx(&self, ctx: &mut Context, view: &mut StoreView) -> Result<(), String> {
        match self {
            Service::Accounts(_) => Err("Not implemented".into()),
            Service::Dna => RegisterTx::decode(&ctx.msg)?.execute(ctx.sender.clone(), view),
        }
    }

    fn handle_query(&self, path: &str, key: Vec<u8>, view: &StoreView) -> Result<Vec<u8>, String> {
        match self {
            Service::Accounts(_) => {
                if path != "/account" {
                    return Err("Only handle account queries".into());
                }
                match (AccountStore {}).query(key, view) {
                    Some(acct) => Ok(acct.encode()),
                    None => Err("Account not found".into()),
                }
            }
            Service::Dna => {
                if path != "/dna" {
                    return Err("bad path for query".into());
                }
                match BytesStore("_podna_a_to_d_store_").query(key, view) {
                    Some(value) => Ok(value),
                    None => Err("Account not found".into()),
                }
            }
        }
    }
}

struct SenderAuthenticator;
impl Authenticator for SenderAuthenticator {
    fn validate(&self, tx: &SignedTransaction, view: &StoreView) -> Result<(), String> {
        match (AccountStore {})
            .get(tx.sender(), view)
            .filter(|acct| verify_tx_signature(tx, &acct.get_public_key()))
        {
            Some(_) => Ok(()),
            None => Err("Account not found or bad signature".into()),
        }
    }

    fn increment_nonce(&self, _tx: &SignedTransaction, _view: &mut StoreView) -> Result<(), String> {
        Ok(())
    }
}

fn create_tx(sender: Vec<u8>, sk: &SecretKey, msg: RegisterTx) -> Vec<u8> {
    let mut tx = SignedTransaction::create(sender, PODNA_SERVICE_ROUTE, msg.encode(), 0);
    sign_transaction(&mut tx, sk);
    tx.encode()
}

fn build(wallet: &TestWallet) -> rapido::node::Node<Service, SenderAuthenticator> {
    AppBuilder::new()
        .set_authenticator(SenderAuthenticator {})
        .with_app(Service::Accounts(wallet.generate_genesis_data()))
        .with_app(Service::Dna)
        .node()
        .unwrap()
}

#[test]
fn test_check_tx() {
    const DNA_STORE_OWNER: usize = 0;
    const BOB: usize = 1;

    let wallet = TestWallet::generate(3);
    let mut node = build(&wallet);

    node.init_chain().unwrap();
    node.commit();

    {
        // Fails with account verification error
        let badsender = SignedTransaction::create(
            vec![1u8; 4],
            PODNA_SERVICE_ROUTE,
            RegisterTx::new(vec![1u8; 4], [2u8; 32]).encode(),
            0,
        );
        let bits = badsender.encode();
        let resp = node.check_tx(&bits);
        assert_eq!(1u32, resp.code);
        assert_eq!("Account not found or bad signature", resp.log);
    }

    {
        // Fails: bad signature
        let mut tx = SignedTransaction::create(
            wallet.get_address(BOB),
            PODNA_SERVICE_ROUTE,
            RegisterTx::new(wallet.get_address(DNA_STORE_OWNER), [2u8; 32]).encode(),
            0,
        );
        sign_transaction(&mut tx, &wallet.get_secretkey(BOB));
        // ALTER THE SIGNATURE
        let mut bits = tx.encode();
        let at = bits.len() - 64;
        bits[at] = bits[at] >> 1;
        assert_ne!(tx.encode(), bits);
        assert_eq!(1u32, node.check_tx(&bits).code);
    }

    {
        // Pass
        let goodtxbits = create_tx(
            wallet.get_address(BOB),
            &wallet.get_secretkey(BOB),
            RegisterTx::new(wallet.get_address(DNA_STORE_OWNER), [2u8; 32]),
        );
        assert_eq!(0u32, node.check_tx(&goodtxbits).code);
    }
}

#[test]
fn test_state_transistions() {
    const DNA_STORE_OWNER: usize = 0;
    const BOB: usize = 1;
    const ALICE: usize = 2;

    let wallet = TestWallet::generate(3);
    let mut node = build(&wallet);

    node.init_chain().unwrap();
    let initial_app_hash = node.commit();

    {
        // Bob registers his DNA
        let goodtxbits = create_tx(
            wallet.get_address(BOB),
            &wallet.get_secretkey(BOB),
            RegisterTx::new(wallet.get_address(DNA_STORE_OWNER), [2u8; 32]),
        );
        assert_eq!(0u32, node.deliver_tx(&goodtxbits).code);
    }

    let root1 = node.commit();
    assert_ne!(initial_app_hash, root1);

    {
        // Check Bob's balance
        let resp = node.query(
            &format!("{}/account", ACCOUNT_SERVICE_ROUTE),
            wallet.get_address(BOB),
        );
        assert_eq!(0u32, resp.code);
        assert_eq!(0, Account::decode(resp.value).balance)
    }

    {
        // Check DNA Store owner's balance
        let resp = node.query(
            &format!("{}/account", ACCOUNT_SERVICE_ROUTE),
            wallet.get_address(DNA_STORE_OWNER),
        );
        assert_eq!(0u32, resp.code);
        assert_eq!(10, Account::decode(resp.value).balance)
    }

    {
        // Alice try to register Bob's DNA
        let txbits = create_tx(
            wallet.get_address(ALICE),
            &wallet.get_secretkey(ALICE),
            RegisterTx::new(wallet.get_address(DNA_STORE_OWNER), [2u8; 32]),
        );
        assert!(node.deliver_tx(&txbits).code != 0);
        node.commit();
    }

    let root2 = node.commit();
    assert_eq!(root1, root2); // apphash shouldn't change

    {
        // Now Alice gets it right
        let txbits = create_tx(
            wallet.get_address(ALICE),
            &wallet.get_secretkey(ALICE),
            RegisterTx::new(wallet.get_address(DNA_STORE_OWNER), [3u8; 32]),
        );
        assert!(node.deliver_tx(&txbits).code == 0);
        node.commit();
    }

    let root3 = node.commit();
    assert_ne!(root3, root2);

    {
        // Check Alice's balance
        let resp = node.query(
            &format!("{}/account", ACCOUNT_SERVICE_ROUTE),
            wallet.get_address(ALICE),
        );
        assert_eq!(0u32, resp.code);
        assert_eq!(0, Account::decode(resp.value).balance)
    }

    {
        // Check DNA Store owner's balance
        let resp = node.query(
            &format!("{}/account", ACCOUNT_SERVICE_ROUTE),
            wallet.get_address(DNA_STORE_OWNER),
        );
        assert_eq!(0u32, resp.code);
        assert_eq!(15, Account::decode(resp.value).balance)
    }

    {
        // Verify Bob's DNA
        let resp = node.query(
            &format!("{}/dna", PODNA_SERVICE_ROUTE),
            wallet.get_address(BOB),
        );
        assert_eq!(0u32, resp.code);
        assert_eq!(vec![2u8; 32], resp.value);
    }

    {
        // Verify Alice's DNA
        let resp = node.query(
            &format!("{}/dna", PODNA_SERVICE_ROUTE),
            wallet.get_address(ALICE),
        );
        assert_eq!(0u32, resp.code);
        assert_eq!(vec![3u8; 32], resp.value);
    }
}
