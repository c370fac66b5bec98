//! Basic account support with an authenticator, primarily for development
//! and testing. Accounts are bootstrapped from trust anchors: the accounts
//! of genesis can create other accounts.
use vstd::prelude::*;
use crate::codec::{
    append_slice, bytes_field, lemma_parse_bytes_field, lemma_parse_bytes_field_unique,
    lemma_parse_u64_field, max_field_len, parse_bytes_field, parse_u64_field, read_bytes,
    read_u64, u64_field, write_bytes, write_u64,
};
use crate::context::{Context, EventModel};
use crate::crypto::{hash, sha256, PublicKey};
use crate::encoding::{base58_text, base58_encode, bytes_fit, concat, str_bytes, string_from_utf8};
use crate::module::{AppModule, Authenticator, QueryOutcome, StepOutcome, TxOutcome};
use crate::store::{lookup, storage_digest, Committed, Staged, Store, StoreView};
use crate::tx::{verifies_with, verify_tx_signature, AccountId, SignedTransaction, TxFields};

verus! {

/// The bytes of a public key.
pub type PublicKeyBytes = [u8; 32];

/// The name of the account module.
pub open spec fn account_app_name() -> Seq<char> {
    "rapido.account"@
}

/// The name of the account store.
pub open spec fn account_store_name() -> Seq<char> {
    "rapido.account.store"@
}

/// The identifier of the account that belongs to a public key: the hash
/// of the key in base 58.
pub open spec fn account_id(pubkey: Seq<u8>) -> Seq<u8> {
    vstd::utf8::encode_utf8(base58_text(sha256(pubkey)))
}

/// An account as mathematical values.
pub struct AccountModel {
    /// The account's identifier.
    pub id: Seq<u8>,
    /// The nonce that the account's next transaction has to carry.
    pub nonce: u64,
    /// The key that the account's transactions are signed with.
    pub pubkey: Seq<u8>,
    /// Whether the account may create accounts.
    pub trustanchor: bool,
}

/// The encoding of an account: identifier, nonce, the 32 bytes of the key,
/// and one byte for the trust anchor flag.
pub open spec fn account_bytes(a: AccountModel) -> Seq<u8> {
    bytes_field(a.id) + u64_field(a.nonce) + a.pubkey + seq![
        if a.trustanchor {
            1u8
        } else {
            0u8
        },
    ]
}

/// The account that bytes encode, or nothing.
pub open spec fn parse_account(raw: Seq<u8>) -> Option<AccountModel> {
    match parse_bytes_field(raw) {
        None => None,
        Some((id, r1)) => match parse_u64_field(r1) {
            None => None,
            Some((nonce, r2)) => if r2.len() == 33 && r2[32] <= 1 {
                Some(
                    AccountModel {
                        id,
                        nonce,
                        pubkey: r2.subrange(0, 32),
                        trustanchor: r2[32] == 1,
                    },
                )
            } else {
                None
            },
        },
    }
}

/// Decoding an encoded account gives the account back.
pub proof fn lemma_account_round_trip(a: AccountModel)
    requires
        a.id.len() <= max_field_len(),
        a.pubkey.len() == 32,
    ensures
        parse_account(account_bytes(a)) == Some(a),
{
    let flag = seq![
        if a.trustanchor {
            1u8
        } else {
            0u8
        },
    ];
    let r2 = a.pubkey + flag;
    let r1 = u64_field(a.nonce) + r2;
    assert(account_bytes(a) == bytes_field(a.id) + r1);
    lemma_parse_bytes_field(a.id, r1);
    lemma_parse_u64_field(a.nonce, r2);
    assert(r2.subrange(0, 32) == a.pubkey);
}

/// An account that decodes has an identifier short enough to encode, and
/// a key of 32 bytes.
pub proof fn lemma_parsed_account_fits(raw: Seq<u8>)
    requires
        parse_account(raw).is_some(),
    ensures
        parse_account(raw).unwrap().id.len() <= max_field_len(),
        parse_account(raw).unwrap().pubkey.len() == 32,
{
    lemma_parse_bytes_field_unique(raw);
}

/// The identifier of the account that belongs to a public key.
pub fn generate_account_id(pk: &PublicKey) -> (id: Vec<u8>)
    ensures
        id@ == account_id(pk@),
{
    let key = pk.to_vec();
    let digest = hash(key.as_slice()).to_vec();
    let text = base58_encode(digest.as_slice());
    str_bytes(text.as_str())
}

/// Account model.
#[derive(Debug, PartialEq, Eq, Clone)]
pub struct Account {
    /// The account's identifier.
    pub id: AccountId,
    /// The nonce that the account's next transaction has to carry.
    pub nonce: u64,
    /// The key that the account's transactions are signed with.
    pub pubkey: PublicKeyBytes,
    // flag: can this entity create accounts
    trustanchor: bool,
}

impl View for Account {
    type V = AccountModel;

    closed spec fn view(&self) -> AccountModel {
        AccountModel {
            id: self.id@,
            nonce: self.nonce,
            pubkey: self.pubkey@,
            trustanchor: self.trustanchor,
        }
    }
}

impl Account {
    /// Create a new account given a public key.
    pub fn create(pk: &PublicKey, is_ta: bool) -> (a: Self)
        ensures
            a@ == (AccountModel {
                id: account_id(pk@),
                nonce: 0,
                pubkey: pk@,
                trustanchor: is_ta,
            }),
    {
        Account { id: generate_account_id(pk), nonce: 0u64, pubkey: pk.as_bytes(), trustanchor: is_ta }
    }

    /// The account's identifier.
    pub fn id(&self) -> (id: Vec<u8>)
        ensures
            id@ == self@.id,
    {
        vstd::slice::slice_to_vec(self.id.as_slice())
    }

    /// The account's nonce.
    pub fn nonce(&self) -> (n: u64)
        ensures
            n == self@.nonce,
    {
        self.nonce
    }

    /// The account's public key.
    pub fn public_key(&self) -> (k: PublicKey)
        ensures
            k@ == self@.pubkey,
    {
        PublicKey::new(self.pubkey)
    }

    /// The identifier as text; fails where it is no well-formed text.
    pub fn id_to_str(&self) -> (r: Result<String, String>)
        ensures
            r.is_ok() == vstd::utf8::valid_utf8(self@.id),
            r.is_ok() ==> r.unwrap()@ == vstd::utf8::decode_utf8(self@.id),
            r.is_err() ==> r.unwrap_err()@ == "problem decoding account id to string"@,
    {
        match string_from_utf8(self.id()) {
            Some(s) => Ok(s),
            None => Err("problem decoding account id to string".to_owned()),
        }
    }

    /// Is the account a trust anchor?
    pub fn is_trust_anchor(&self) -> (r: bool)
        ensures
            r == self@.trustanchor,
    {
        self.trustanchor
    }

    /// The account with another public key.
    pub fn update_pubkey(&self, pk: PublicKeyBytes) -> (a: Self)
        ensures
            a@ == (AccountModel { pubkey: pk@, ..self@ }),
    {
        Account { id: self.id(), nonce: self.nonce, pubkey: pk, trustanchor: self.trustanchor }
    }

    /// The account with its nonce advanced by one.
    pub fn increment_nonce(&self) -> (a: Self)
        requires
            self@.nonce < u64::MAX,
        ensures
            a@ == (AccountModel { nonce: (self@.nonce + 1) as u64, ..self@ }),
    {
        Account {
            id: self.id(),
            nonce: self.nonce + 1,
            pubkey: self.pubkey,
            trustanchor: self.trustanchor,
        }
    }

    /// Encode the account.
    pub fn to_bytes(&self) -> (raw: Vec<u8>)
        requires
            self@.id.len() <= max_field_len(),
        ensures
            raw@ == account_bytes(self@),
    {
        let mut raw: Vec<u8> = Vec::new();
        write_bytes(&mut raw, self.id.as_slice());
        write_u64(&mut raw, self.nonce);
        let key = PublicKey::new(self.pubkey).to_vec();
        append_slice(&mut raw, key.as_slice());
        raw.push(if self.trustanchor { 1u8 } else { 0u8 });
        assert(raw@ == account_bytes(self@));
        raw
    }

    /// Decode an account; nothing where the bytes are no account's
    /// encoding.
    pub fn from_bytes(raw: &[u8]) -> (r: Option<Account>)
        ensures
            r.is_some() == parse_account(raw@).is_some(),
            r.is_some() ==> r.unwrap()@ == parse_account(raw@).unwrap(),
    {
        assert(raw@.subrange(0, raw@.len() as int) == raw@);
        let (id, at_nonce) = match read_bytes(raw, 0) {
            Some(x) => x,
            None => { return None; },
        };
        let (nonce, at_key) = match read_u64(raw, at_nonce) {
            Some(x) => x,
            None => { return None; },
        };
        if raw.len() - at_key != 33 {
            return None;
        }
        let flag: u8 = raw[at_key + 32];
        if flag > 1 {
            return None;
        }
        let key = vstd::slice::slice_subrange(raw, at_key, at_key + 32);
        let pubkey = match PublicKey::from_slice(key) {
            Some(k) => k.as_bytes(),
            None => { return None; },
        };
        let ghost r2 = raw@.subrange(at_key as int, raw@.len() as int);
        assert(key@ == r2.subrange(0, 32));
        assert(r2[32] == flag);
        Some(Account { id, nonce, pubkey, trustanchor: flag == 1 })
    }
}

/// The key pair made of the hash of a text.
pub fn create_keypair(v: &str) -> (pair: (PublicKey, crate::crypto::SecretKey))
    ensures
        pair.1@ == sha256(vstd::utf8::encode_utf8(v@)),
        pair.0@ == crate::crypto::ed25519_public(pair.1@),
{
    let seed = hash(v.as_bytes());
    crate::crypto::gen_keypair_from_seed(&seed)
}

/// The account of the key pair made of a text.
fn generator(v: &str) -> (a: Account)
    ensures
        a@ == dev_account(v@),
{
    let pair = create_keypair(v);
    Account::create(&pair.0, false)
}

/// The account that development uses under a name.
pub open spec fn dev_account(name: Seq<char>) -> AccountModel {
    let pubkey = crate::crypto::ed25519_public(sha256(vstd::utf8::encode_utf8(name)));
    AccountModel { id: account_id(pubkey), nonce: 0, pubkey, trustanchor: false }
}

/// Return a list of accounts to use for testing and development: those of
/// `/Dave`, `/Bob` and `/Alice`.
pub fn generate_dev_accounts() -> (accounts: Vec<Account>)
    ensures
        accounts@.len() == 3,
        accounts@[0]@ == dev_account("/Dave"@),
        accounts@[1]@ == dev_account("/Bob"@),
        accounts@[2]@ == dev_account("/Alice"@),
{
    let mut accounts: Vec<Account> = Vec::new();
    accounts.push(generator("/Dave"));
    accounts.push(generator("/Bob"));
    accounts.push(generator("/Alice"));
    accounts
}

/// Account store: accounts by identifier.
pub struct AccountStore;

impl AccountStore {
    /// The account store.
    pub fn new() -> (s: Self) {
        AccountStore {  }
    }
}

impl Store for AccountStore {
    type Key = AccountId;

    type Value = Account;

    open spec fn spec_name(&self) -> Seq<char> {
        account_store_name()
    }

    open spec fn spec_key_bytes(&self, key: &AccountId) -> Seq<u8> {
        bytes_field(key@)
    }

    open spec fn spec_value_bytes(&self, value: &Account) -> Seq<u8> {
        account_bytes(value@)
    }

    open spec fn key_fits(&self, key: &AccountId) -> bool {
        key@.len() <= max_field_len()
    }

    open spec fn value_fits(&self, value: &Account) -> bool {
        value@.id.len() <= max_field_len()
    }

    open spec fn decodable(&self, raw: Seq<u8>) -> bool {
        parse_account(raw).is_some()
    }

    open spec fn decodes_to(&self, raw: Seq<u8>, value: &Account) -> bool {
        parse_account(raw) == Some(value@)
    }

    fn name(&self) -> (n: String) {
        proof {
            reveal_strlit("rapido.account.store");
            crate::encoding::lemma_utf8_len("rapido.account.store"@);
        }
        "rapido.account.store".to_owned()
    }

    fn key_bytes(&self, key: &AccountId) -> (raw: Vec<u8>) {
        let mut raw: Vec<u8> = Vec::new();
        write_bytes(&mut raw, key.as_slice());
        raw
    }

    fn value_bytes(&self, value: &Account) -> (raw: Vec<u8>) {
        value.to_bytes()
    }

    fn value_from_bytes(&self, raw: &[u8]) -> (r: Option<Account>) {
        Account::from_bytes(raw)
    }
}

/// A message of the account module as mathematical values.
pub enum MsgModel {
    /// Create an account for a public key.
    Create(Seq<u8>),
    /// Change the sender's public key.
    ChangePubKey(Seq<u8>),
}

/// Message used in transactions.
#[derive(Debug, PartialEq, Eq, Clone)]
pub enum Msgs {
    /// Create an account for a public key. The sender must be a trust
    /// anchor.
    Create(PublicKeyBytes),
    /// Change the sender's public key.
    ChangePubKey(PublicKeyBytes),
}

impl View for Msgs {
    type V = MsgModel;

    open spec fn view(&self) -> MsgModel {
        match self {
            Msgs::Create(k) => MsgModel::Create(k@),
            Msgs::ChangePubKey(k) => MsgModel::ChangePubKey(k@),
        }
    }
}

/// The encoding of a message: one byte for its kind, then the key.
pub open spec fn msg_bytes(m: MsgModel) -> Seq<u8> {
    match m {
        MsgModel::Create(k) => seq![0u8] + k,
        MsgModel::ChangePubKey(k) => seq![1u8] + k,
    }
}

/// The message that bytes encode, or nothing.
pub open spec fn parse_msg(raw: Seq<u8>) -> Option<MsgModel> {
    if raw.len() != 33 {
        None
    } else if raw[0] == 0 {
        Some(MsgModel::Create(raw.subrange(1, 33)))
    } else if raw[0] == 1 {
        Some(MsgModel::ChangePubKey(raw.subrange(1, 33)))
    } else {
        None
    }
}

impl Msgs {
    /// Encode the message.
    pub fn encode(&self) -> (raw: Vec<u8>)
        ensures
            raw@ == msg_bytes(self@),
            parse_msg(raw@) == Some(self@),
    {
        let mut raw: Vec<u8> = Vec::new();
        let key = match self {
            Msgs::Create(k) => {
                raw.push(0u8);
                PublicKey::new(*k).to_vec()
            },
            Msgs::ChangePubKey(k) => {
                raw.push(1u8);
                PublicKey::new(*k).to_vec()
            },
        };
        append_slice(&mut raw, key.as_slice());
        assert(raw@.subrange(1, 33) == key@);
        raw
    }

    /// Decode a message; nothing where the bytes are no message's
    /// encoding.
    pub fn decode(raw: &[u8]) -> (r: Option<Msgs>)
        ensures
            r.is_some() == parse_msg(raw@).is_some(),
            r.is_some() ==> r.unwrap()@ == parse_msg(raw@).unwrap(),
    {
        if raw.len() != 33 {
            return None;
        }
        let kind: u8 = raw[0];
        let key = match PublicKey::from_slice(vstd::slice::slice_subrange(raw, 1, 33)) {
            Some(k) => k.as_bytes(),
            None => { return None; },
        };
        if kind == 0 {
            Some(Msgs::Create(key))
        } else if kind == 1 {
            Some(Msgs::ChangePubKey(key))
        } else {
            None
        }
    }
}

/// The digest under which the account store keeps an identifier.
pub open spec fn account_digest(id: Seq<u8>) -> Seq<u8> {
    storage_digest(account_store_name(), bytes_field(id))
}

/// The account that a view holds under an identifier, or nothing where it
/// holds none that decodes.
pub open spec fn stored_account(staged: Staged, committed: Committed, id: Seq<u8>) -> Option<
    AccountModel,
> {
    match lookup(staged, committed, account_digest(id)) {
        None => None,
        Some(raw) => parse_account(raw),
    }
}

/// A transaction that failed for a reason, with what is staged.
pub open spec fn tx_failed(log: Seq<char>, staged: Staged) -> TxOutcome {
    TxOutcome { ok: false, log, staged, events: Seq::empty() }
}

/// A transaction that succeeded without events, with what is staged.
pub open spec fn tx_done(staged: Staged) -> TxOutcome {
    TxOutcome { ok: true, log: Seq::empty(), staged, events: Seq::empty() }
}

/// A step that failed for a reason, with what is staged.
pub open spec fn step_failed(log: Seq<char>, staged: Staged) -> StepOutcome {
    StepOutcome { ok: false, log, staged }
}

/// A step that succeeded, with what is staged.
pub open spec fn step_done(staged: Staged) -> StepOutcome {
    StepOutcome { ok: true, log: Seq::empty(), staged }
}

/// What is staged once an account has been put under an identifier.
pub open spec fn with_account(staged: Staged, id: Seq<u8>, a: AccountModel) -> Staged {
    staged.insert(account_digest(id), Some(account_bytes(a)))
}

/// The state transition of the account module.
///
/// The sender must have an account. To create an account the sender must
/// be a trust anchor; the new account belongs to the given key, starts at
/// nonce zero and is no trust anchor. To change a key, the sender's
/// account is stored again with the given key.
pub open spec fn account_tx(
    sender: Seq<u8>,
    msg: Seq<u8>,
    staged: Staged,
    committed: Committed,
) -> TxOutcome {
    match parse_msg(msg) {
        None => tx_failed("problem decoding the message"@, staged),
        Some(m) => if sender.len() > max_field_len() {
            tx_failed("user not found"@, staged)
        } else {
            match stored_account(staged, committed, sender) {
                None => tx_failed("user not found"@, staged),
                Some(acct) => match m {
                    MsgModel::Create(pubkey) => if !acct.trustanchor {
                        tx_failed("only a trust anchor can create an account"@, staged)
                    } else if account_id(pubkey).len() > max_field_len() {
                        tx_failed("problem encoding the account id"@, staged)
                    } else {
                        tx_done(
                            with_account(
                                staged,
                                account_id(pubkey),
                                AccountModel {
                                    id: account_id(pubkey),
                                    nonce: 0,
                                    pubkey,
                                    trustanchor: false,
                                },
                            ),
                        )
                    },
                    MsgModel::ChangePubKey(pubkey) => tx_done(
                        with_account(staged, acct.id, AccountModel { pubkey, ..acct }),
                    ),
                },
            }
        },
    }
}

/// What genesis stages: a trust anchor account for each key, in order.
pub open spec fn genesis_accounts(keys: Seq<Seq<u8>>, staged: Staged) -> StepOutcome
    decreases keys.len(),
{
    if keys.len() == 0 {
        step_done(staged)
    } else {
        let before = genesis_accounts(keys.drop_last(), staged);
        let id = account_id(keys.last());
        if !before.ok {
            before
        } else if id.len() > max_field_len() {
            step_failed("problem encoding the account id"@, before.staged)
        } else {
            step_done(
                with_account(
                    before.staged,
                    id,
                    AccountModel { id, nonce: 0, pubkey: keys.last(), trustanchor: true },
                ),
            )
        }
    }
}

/// The answer of the account module to a query: the encoded account under
/// the key, for the path `/`.
pub open spec fn account_query(
    path: Seq<char>,
    key: Seq<u8>,
    staged: Staged,
    committed: Committed,
) -> QueryOutcome {
    if key.len() == 0 || key.len() > max_field_len() {
        QueryOutcome { ok: false, log: "bad account key"@, value: Seq::empty() }
    } else if path != "/"@ {
        QueryOutcome { ok: false, log: path + " not found"@, value: Seq::empty() }
    } else {
        match stored_account(staged, committed, key) {
            None => QueryOutcome { ok: false, log: "account not found"@, value: Seq::empty() },
            Some(acct) => QueryOutcome { ok: true, log: Seq::empty(), value: account_bytes(acct) },
        }
    }
}

/// The account module: it keeps the accounts and lets trust anchors
/// create them.
pub struct AccountModule {
    // PublicKeys of genesis accounts
    genesis: Vec<[u8; 32]>,
}

impl AccountModule {
    /// The keys of the genesis accounts.
    pub closed spec fn genesis_keys(&self) -> Seq<Seq<u8>> {
        Seq::new(self.genesis@.len(), |i: int| self.genesis@[i]@)
    }

    /// The module with the public keys of its genesis accounts. These
    /// become the trust anchors.
    pub fn new(genesis: Vec<[u8; 32]>) -> (m: Self)
        ensures
            m.genesis_keys() == Seq::new(genesis@.len(), |i: int| genesis@[i]@),
    {
        AccountModule { genesis }
    }
}

impl AppModule for AccountModule {
    open spec fn spec_name(&self) -> Seq<char> {
        account_app_name()
    }

    open spec fn genesis(&self, staged: Staged, committed: Committed) -> StepOutcome {
        genesis_accounts(self.genesis_keys(), staged)
    }

    open spec fn tx_outcome(
        &self,
        sender: Seq<u8>,
        msg: Seq<u8>,
        staged: Staged,
        committed: Committed,
    ) -> TxOutcome {
        account_tx(sender, msg, staged, committed)
    }

    open spec fn query_outcome(
        &self,
        path: Seq<char>,
        key: Seq<u8>,
        staged: Staged,
        committed: Committed,
    ) -> QueryOutcome {
        account_query(path, key, staged, committed)
    }

    fn name(&self) -> (n: String) {
        "rapido.account".to_owned()
    }

    // Load genesis accounts.  These entries become the trust anchors
    #[verifier::loop_isolation(false)]
    fn initialize(&self, view: &mut StoreView) -> (r: Result<(), String>) {
        let store = AccountStore::new();
        let n: usize = self.genesis.len();
        let mut i: usize = 0;
        let ghost keys = self.genesis_keys();
        assert(keys.subrange(0, 0) == Seq::<Seq<u8>>::empty());
        while i < n
            invariant
                i <= n,
                n == self.genesis@.len(),
                ({
                    let o = genesis_accounts(keys.subrange(0, i as int), old(view).staged());
                    o.ok && o.staged == view.staged()
                }),
            decreases n - i,
        {
            proof {
                let next = keys.subrange(0, i + 1);
                assert(next.drop_last() == keys.subrange(0, i as int));
                assert(next.last() == self.genesis@[i as int]@);
            }
            let pubkey = PublicKey::new(self.genesis[i]);
            let account = Account::create(&pubkey, true);  // <= make them a trust anchor
            let id = account.id();
            if !bytes_fit(id.as_slice()) {
                proof {
                    lemma_genesis_stops(keys, i + 1, old(view).staged());
                }
                return Err("problem encoding the account id".to_owned());
            }
            store.put(id, account, view);
            i = i + 1;
        }
        assert(keys.subrange(0, n as int) == keys);
        Ok(())
    }

    fn handle_tx(&self, ctx: &mut Context, view: &mut StoreView) -> (r: Result<(), String>) {
        assert(ctx.spec_events() + Seq::<EventModel>::empty() == ctx.spec_events());
        let payload = ctx.payload();
        let msg = match Msgs::decode(payload.as_slice()) {
            Some(m) => m,
            None => { return Err("problem decoding the message".to_owned()); },
        };
        let sender = ctx.sender();
        if !bytes_fit(sender.as_slice()) {
            return Err("user not found".to_owned());
        }
        let store = AccountStore::new();
        let ghost raw = lookup(view.staged(), view.committed(), account_digest(sender@));
        // Ensure the caller's account exists
        let acct = match store.get(sender, view) {
            Some(a) => a,
            None => { return Err("user not found".to_owned()); },
        };
        proof {
            lemma_parsed_account_fits(raw.unwrap());
        }
        match msg {
            // Create an account.  The origin of this call, must be a trust anchor
            Msgs::Create(pubkey) => {
                if !acct.is_trust_anchor() {
                    return Err("only a trust anchor can create an account".to_owned());
                }
                let pk = PublicKey::new(pubkey);
                // Create the new account
                let new_account = Account::create(&pk, false);
                let id = new_account.id();
                if !bytes_fit(id.as_slice()) {
                    return Err("problem encoding the account id".to_owned());
                }
                store.put(id, new_account, view);
                Ok(())
            },
            // Change an existing publickey.  The origin of this call is the owner
            // of the publickey
            Msgs::ChangePubKey(pubkey) => {
                let updated = acct.update_pubkey(pubkey);
                store.put(updated.id(), updated, view);
                Ok(())
            },
        }
    }

    fn handle_query(&self, path: &str, key: Vec<u8>, view: &StoreView) -> (r: Result<
        Vec<u8>,
        String,
    >) {
        if key.len() == 0 || !bytes_fit(key.as_slice()) {
            return Err("bad account key".to_owned());
        }
        // return a serialized account for the given id.
        if !crate::router::str_eq(path, "/") {
            return Err(concat(path, " not found"));
        }
        let store = AccountStore::new();
        let ghost raw = lookup(view.staged(), view.committed(), account_digest(key@));
        match store.get(key, view) {
            Some(acct) => {
                proof {
                    lemma_parsed_account_fits(raw.unwrap());
                }
                Ok(acct.to_bytes())
            },
            None => Err("account not found".to_owned()),
        }
    }
}

/// Once a genesis account has failed, the failure stands whatever keys
/// follow.
pub proof fn lemma_genesis_stops(keys: Seq<Seq<u8>>, k: int, staged: Staged)
    requires
        0 <= k <= keys.len(),
        !genesis_accounts(keys.subrange(0, k), staged).ok,
    ensures
        genesis_accounts(keys, staged) == genesis_accounts(keys.subrange(0, k), staged),
    decreases keys.len() - k,
{
    if k < keys.len() {
        let front = keys.drop_last();
        assert(front.subrange(0, k) == keys.subrange(0, k));
        lemma_genesis_stops(front, k, staged);
    } else {
        assert(keys.subrange(0, k) == keys);
    }
}

/// Why the account authenticator turns a transaction down, if it does: the
/// sender has no account, the signature is not valid under the account's
/// key, or the nonce is not the account's.
pub open spec fn account_verdict(tx: TxFields, staged: Staged, committed: Committed) -> Option<
    Seq<char>,
> {
    match stored_account(staged, committed, tx.sender) {
        None => Some("user not found"@),
        Some(acct) => if !verifies_with(tx, acct.pubkey) {
            Some("bad signature"@)
        } else if acct.nonce != tx.nonce {
            Some("nonce don't match"@)
        } else {
            None
        },
    }
}

/// What advancing the sender's nonce comes to: the sender's account is
/// stored again with its nonce raised by one.
pub open spec fn account_nonce_step(tx: TxFields, staged: Staged, committed: Committed) -> StepOutcome {
    match stored_account(staged, committed, tx.sender) {
        None => step_failed("user not found"@, staged),
        Some(acct) => if acct.nonce == u64::MAX {
            step_failed("nonce cannot be advanced"@, staged)
        } else {
            step_done(
                with_account(
                    staged,
                    tx.sender,
                    AccountModel { nonce: (acct.nonce + 1) as u64, ..acct },
                ),
            )
        },
    }
}

/// Replay protection: once the nonce of an admitted transaction has been
/// advanced, the same transaction is turned down for its nonce, and the
/// transaction with the next nonce finds the account waiting for it.
pub proof fn lemma_admitted_once(tx: TxFields, staged: Staged, committed: Committed)
    requires
        account_verdict(tx, staged, committed).is_none(),
        account_nonce_step(tx, staged, committed).ok,
    ensures
        account_verdict(tx, account_nonce_step(tx, staged, committed).staged, committed) == Some(
            "nonce don't match"@,
        ),
        stored_account(
            account_nonce_step(tx, staged, committed).staged,
            committed,
            tx.sender,
        ).unwrap().nonce == tx.nonce + 1,
{
    let raw = lookup(staged, committed, account_digest(tx.sender)).unwrap();
    let acct = parse_account(raw).unwrap();
    lemma_parsed_account_fits(raw);
    lemma_account_round_trip(AccountModel { nonce: (acct.nonce + 1) as u64, ..acct });
}

/// Authenticator over the account store: a transaction is admitted where
/// its sender has an account, its signature is valid under the account's
/// key, and its nonce is the account's.
pub struct AccountAuthenticator;

impl Authenticator for AccountAuthenticator {
    open spec fn verdict(&self, tx: TxFields, staged: Staged, committed: Committed) -> Option<
        Seq<char>,
    > {
        account_verdict(tx, staged, committed)
    }

    open spec fn nonce_step(&self, tx: TxFields, staged: Staged, committed: Committed) -> StepOutcome {
        account_nonce_step(tx, staged, committed)
    }

    fn validate(&self, tx: &SignedTransaction, view: &StoreView) -> (r: Result<(), String>) {
        tx.check_fits();
        let caller = tx.sender();
        let txnonce = tx.nonce();
        let store = AccountStore::new();
        let acct = match store.get(caller, view) {
            Some(a) => a,
            None => { return Err("user not found".to_owned()); },
        };
        let caller_pubkey = acct.public_key();
        // Validate signature
        if !verify_tx_signature(tx, &caller_pubkey) {
            return Err("bad signature".to_owned());
        }
        // Check nonce
        if acct.nonce() != txnonce {
            return Err("nonce don't match".to_owned());
        }
        Ok(())
    }

    fn increment_nonce(&self, tx: &SignedTransaction, view: &mut StoreView) -> (r: Result<
        (),
        String,
    >) {
        tx.check_fits();
        let caller = tx.sender();
        let store = AccountStore::new();
        let ghost raw = lookup(view.staged(), view.committed(), account_digest(caller@));
        let acct = match store.get(tx.sender(), view) {
            Some(a) => a,
            None => { return Err("user not found".to_owned()); },
        };
        proof {
            lemma_parsed_account_fits(raw.unwrap());
        }
        if acct.nonce() == u64::MAX {
            return Err("nonce cannot be advanced".to_owned());
        }
        let unonce = acct.increment_nonce();
        store.put(caller, unonce, view);
        Ok(())
    }
}

} // verus!
