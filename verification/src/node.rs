//! The node: the harness that a consensus host drives through info,
//! genesis, admission, execution, queries and commits.
use vstd::prelude::*;
use vstd::utf8::{decode_utf8, encode_utf8};
use crate::context::{events_view, Context, Event, EventModel};
use crate::encoding::concat;
use crate::errors::{FailureKind, RapidoError};
use crate::module::{AppModule, Authenticator, DefaultAuthenticator};
use crate::router::{
    distinct_names, has_reserved, keep_first, lemma_first_come_wins, lemma_keep_first_reserved,
    lemma_route, parse_abci_query_path, parse_path, reserved_name, route, str_eq,
};
use crate::schema::ChainState;
use crate::store::{
    apply_changes, clone_cache, map_root, merged, state_root, Cache, Committed, Snapshot, Staged,
    StoreView,
};
use crate::digest_map::DigestMap;
use crate::tx::{decoding, SignedTransaction};

verus! {

/// The state of a node as mathematical values.
pub struct NodeState {
    /// What is committed.
    pub committed: Committed,
    /// The admission cache: changes staged while transactions are checked.
    pub check: Staged,
    /// The execution cache: changes staged while a block is executed.
    pub deliver: Staged,
    /// The height of the last committed block.
    pub height: i64,
    /// The application hash after the last committed block.
    pub apphash: Seq<u8>,
}

/// What the node answers to a transaction.
pub struct TxReply {
    /// Zero for success, one for failure.
    pub code: u32,
    /// The reason of a failure.
    pub log: Seq<char>,
    /// The events of a successful execution.
    pub events: Seq<EventModel>,
}

/// What the node answers to a query.
pub struct QueryReply {
    /// Zero for success, one for failure.
    pub code: u32,
    /// The value found.
    pub value: Seq<u8>,
    /// The reason of a failure.
    pub log: Seq<char>,
    /// The key that was asked for.
    pub key: Seq<u8>,
}

/// The reply that turns a transaction down.
pub open spec fn rejected(log: Seq<char>) -> TxReply {
    TxReply { code: 1, log, events: Seq::empty() }
}

/// The reply that accepts a transaction.
pub open spec fn accepted(events: Seq<EventModel>) -> TxReply {
    TxReply { code: 0, log: Seq::empty(), events }
}

/// The log line for bytes that are no transaction.
pub open spec fn malformed_log() -> Seq<char> {
    "problem decoding the signed tx"@
}

/// The log line for a transaction that names no registered module.
pub open spec fn unknown_module_log(name: Seq<char>) -> Seq<char> {
    "No registered AppModule found for name: "@ + name
}

/// The log line for a nonce that could not be advanced at admission.
pub open spec fn check_nonce_log() -> Seq<char> {
    "check tx : inc nonce error"@
}

/// The log line for a nonce that could not be advanced at execution.
pub open spec fn deliver_nonce_log() -> Seq<char> {
    "deliver tx nonce error"@
}

/// What checking a transaction for admission comes to: the node's next
/// state and its reply.
///
/// Bytes that are no transaction, and a transaction for no registered
/// module, are turned down and change nothing. Otherwise the authenticator
/// decides over the admission cache. What it turns down changes nothing.
/// What it admits has its nonce advanced in the admission cache; should
/// that fail, the transaction is turned down and nothing changes.
pub open spec fn check_step<M: AppModule, A: Authenticator>(
    modules: Seq<M>,
    auth: A,
    s: NodeState,
    raw: Seq<u8>,
) -> (NodeState, TxReply) {
    match decoding(raw) {
        None => (s, rejected(malformed_log())),
        Some(tx) => if route(modules, tx.app).is_none() {
            (s, rejected(unknown_module_log(tx.app)))
        } else {
            match auth.verdict(tx, s.check, s.committed) {
                Some(reason) => (s, rejected(reason)),
                None => {
                    let n = auth.nonce_step(tx, s.check, s.committed);
                    if n.ok {
                        (NodeState { check: n.staged, ..s }, accepted(Seq::empty()))
                    } else {
                        (s, rejected(check_nonce_log()))
                    }
                },
            }
        },
    }
}

/// What executing a transaction comes to: the node's next state and its
/// reply.
///
/// Bytes that are no transaction, and a transaction for no registered
/// module, are turned down and change nothing. Otherwise the module's
/// handler runs over the execution cache. Where it succeeds, what it
/// staged is kept; where it fails, what it staged is dropped. Either way
/// the authenticator then advances the sender's nonce. Should that fail,
/// the transaction fails and the execution cache stays as it was.
pub open spec fn deliver_step<M: AppModule, A: Authenticator>(
    modules: Seq<M>,
    auth: A,
    s: NodeState,
    raw: Seq<u8>,
) -> (NodeState, TxReply) {
    match decoding(raw) {
        None => (s, rejected(malformed_log())),
        Some(tx) => match route(modules, tx.app) {
            None => (s, rejected(unknown_module_log(tx.app))),
            Some(i) => {
                let o = modules[i].tx_outcome(tx.sender, tx.msg, s.deliver, s.committed);
                let base = if o.ok {
                    o.staged
                } else {
                    s.deliver
                };
                let n = auth.nonce_step(tx, base, s.committed);
                if !n.ok {
                    (s, rejected(deliver_nonce_log()))
                } else if o.ok {
                    (NodeState { deliver: n.staged, ..s }, accepted(o.events))
                } else {
                    (NodeState { deliver: n.staged, ..s }, rejected(o.log))
                }
            },
        },
    }
}

/// Why checking a transaction fails, where it does.
pub open spec fn check_failure<M: AppModule, A: Authenticator>(
    modules: Seq<M>,
    auth: A,
    s: NodeState,
    raw: Seq<u8>,
) -> Option<FailureKind> {
    match decoding(raw) {
        None => Some(FailureKind::MalformedTransaction),
        Some(tx) => if route(modules, tx.app).is_none() {
            Some(FailureKind::UnknownModule)
        } else if auth.verdict(tx, s.check, s.committed).is_some() {
            Some(FailureKind::AuthFailure)
        } else if !auth.nonce_step(tx, s.check, s.committed).ok {
            Some(FailureKind::NonceFailure)
        } else {
            None
        },
    }
}

/// Why executing a transaction fails, where it does.
pub open spec fn deliver_failure<M: AppModule, A: Authenticator>(
    modules: Seq<M>,
    auth: A,
    s: NodeState,
    raw: Seq<u8>,
) -> Option<FailureKind> {
    match decoding(raw) {
        None => Some(FailureKind::MalformedTransaction),
        Some(tx) => match route(modules, tx.app) {
            None => Some(FailureKind::UnknownModule),
            Some(i) => {
                let o = modules[i].tx_outcome(tx.sender, tx.msg, s.deliver, s.committed);
                let base = if o.ok {
                    o.staged
                } else {
                    s.deliver
                };
                if !auth.nonce_step(tx, base, s.committed).ok {
                    Some(FailureKind::NonceFailure)
                } else if !o.ok {
                    Some(FailureKind::ExecFailure)
                } else {
                    None
                }
            },
        },
    }
}

/// What running a transaction comes to, for admission or for execution.
pub open spec fn run_step<M: AppModule, A: Authenticator>(
    modules: Seq<M>,
    auth: A,
    s: NodeState,
    is_check: bool,
    raw: Seq<u8>,
) -> (NodeState, TxReply) {
    if is_check {
        check_step(modules, auth, s, raw)
    } else {
        deliver_step(modules, auth, s, raw)
    }
}

/// Why running a transaction fails, where it does.
pub open spec fn run_failure<M: AppModule, A: Authenticator>(
    modules: Seq<M>,
    auth: A,
    s: NodeState,
    is_check: bool,
    raw: Seq<u8>,
) -> Option<FailureKind> {
    if is_check {
        check_failure(modules, auth, s, raw)
    } else {
        deliver_failure(modules, auth, s, raw)
    }
}

/// The reply that goes with the result of running a transaction.
pub open spec fn reply_of(r: Result<Vec<Event>, RapidoError>) -> TxReply {
    match r {
        Ok(events) => accepted(events_view(events@)),
        Err(e) => rejected(e.spec_log()),
    }
}

/// What genesis comes to: every module's setup in the order of
/// registration, each over what the ones before it staged. After the
/// first failure no further module runs.
pub open spec fn genesis_all<M: AppModule>(
    modules: Seq<M>,
    staged: Staged,
    committed: Committed,
) -> crate::module::StepOutcome
    decreases modules.len(),
{
    if modules.len() == 0 {
        crate::module::StepOutcome { ok: true, log: Seq::empty(), staged }
    } else {
        let before = genesis_all(modules.drop_last(), staged, committed);
        if !before.ok {
            before
        } else {
            modules.last().genesis(before.staged, committed)
        }
    }
}

/// The node's state after a commit that the engine answered with
/// `apphash`: what was staged for execution is committed, both caches are
/// empty, and the chain is one block higher.
pub open spec fn commit_state(s: NodeState, apphash: Seq<u8>) -> NodeState {
    NodeState {
        committed: merged(s.deliver, s.committed),
        check: Map::empty(),
        deliver: Map::empty(),
        height: (s.height + 1) as i64,
        apphash,
    }
}

/// What a query comes to. The path names the module; the module answers
/// from committed state alone.
pub open spec fn query_reply<M: AppModule>(
    modules: Seq<M>,
    committed: Committed,
    path: Seq<char>,
    data: Seq<u8>,
) -> QueryReply {
    match parse_path(encode_utf8(path)) {
        None => QueryReply {
            code: 1,
            value: Seq::empty(),
            log: "Malformed query path"@,
            key: data,
        },
        Some((name, rest)) => match route(modules, decode_utf8(name)) {
            None => QueryReply {
                code: 1,
                value: Seq::empty(),
                log: "Query: cannot find appname: "@ + decode_utf8(name),
                key: Seq::empty(),
            },
            Some(i) => {
                let o = modules[i].query_outcome(decode_utf8(rest), data, Map::empty(), committed);
                if o.ok {
                    QueryReply { code: 0, value: o.value, log: Seq::empty(), key: data }
                } else {
                    QueryReply { code: 1, value: Seq::empty(), log: o.log, key: data }
                }
            },
        },
    }
}

/// The answer to `info`.
#[derive(Debug, Clone, PartialEq, Eq)]
pub struct ResponseInfo {
    /// The name and version of the framework.
    pub data: String,
    /// The protocol version that the request gave.
    pub version: String,
    /// The height of the last committed block.
    pub last_block_height: i64,
    /// The application hash after the last committed block.
    pub last_block_app_hash: Vec<u8>,
}

/// The answer to `check_tx`.
#[derive(Debug, Clone, PartialEq, Eq)]
pub struct ResponseCheckTx {
    /// Zero for success; anything else turns the transaction down.
    pub code: u32,
    /// The reason of a failure.
    pub log: String,
}

/// The answer to `deliver_tx`.
#[derive(Debug, Clone, PartialEq, Eq)]
pub struct ResponseDeliverTx {
    /// Zero for success.
    pub code: u32,
    /// Result bytes; the node leaves them empty.
    pub data: Vec<u8>,
    /// The reason of a failure.
    pub log: String,
    /// The events that the handler recorded.
    pub events: Vec<Event>,
}

/// The answer to `query`.
#[derive(Debug, Clone, PartialEq, Eq)]
pub struct ResponseQuery {
    /// Zero for success.
    pub code: u32,
    /// The reason of a failure.
    pub log: String,
    /// The key that was asked for.
    pub key: Vec<u8>,
    /// The value found.
    pub value: Vec<u8>,
}

/// The answer to `commit`.
#[derive(Debug, Clone, PartialEq, Eq)]
pub struct ResponseCommit {
    /// The new application hash.
    pub data: Vec<u8>,
}

impl ResponseCheckTx {
    /// The answer as mathematical values.
    pub open spec fn reply(&self) -> TxReply {
        TxReply { code: self.code, log: self.log@, events: Seq::empty() }
    }
}

impl ResponseDeliverTx {
    /// The answer as mathematical values.
    pub open spec fn reply(&self) -> TxReply {
        TxReply { code: self.code, log: self.log@, events: events_view(self.events@) }
    }

    /// The answer that reports a failure.
    pub fn failure(log: String) -> (resp: Self)
        ensures
            resp.reply() == rejected(log@),
            resp.data@.len() == 0,
    {
        let resp = ResponseDeliverTx { code: 1, data: Vec::new(), log, events: Vec::new() };
        assert(events_view(resp.events@) == Seq::<EventModel>::empty());
        resp
    }

    /// The answer that reports success with the events recorded.
    pub fn success(events: Vec<Event>) -> (resp: Self)
        ensures
            resp.reply() == accepted(events_view(events@)),
            resp.data@.len() == 0,
    {
        let resp = ResponseDeliverTx { code: 0, data: Vec::new(), log: String::new(), events };
        resp
    }
}

impl ResponseQuery {
    /// The answer as mathematical values.
    pub open spec fn reply(&self) -> QueryReply {
        QueryReply { code: self.code, value: self.value@, log: self.log@, key: self.key@ }
    }
}

/// Why a node could not be built.
#[derive(Debug, Clone, Copy, PartialEq, Eq)]
pub enum BuildError {
    /// No module was registered.
    NoModules,
    /// A module has the reserved name `rapido`.
    ReservedName,
}

/// The position of the first module with a name.
#[verifier::loop_isolation(false)]
fn find_module<M: AppModule>(modules: &Vec<M>, name: &str) -> (r: Option<usize>)
    ensures
        match r {
            Some(i) => route(modules@, name@) == Some(i as int) && i < modules@.len()
                && modules@[i as int].spec_name() == name@,
            None => route(modules@, name@).is_none(),
        },
{
    proof {
        lemma_route(modules@, name@);
    }
    let mut i: usize = 0;
    while i < modules.len()
        invariant
            i <= modules@.len(),
            forall|j: int| 0 <= j < i ==> (#[trigger] modules@[j]).spec_name() != name@,
        decreases modules@.len() - i,
    {
        let n = modules[i].name();
        if str_eq(n.as_str(), name) {
            return Some(i);
        }
        i = i + 1;
    }
    None
}

/// Assemble your app: register modules, choose an authenticator, and build
/// the node.
pub struct AppBuilder<M: AppModule, A: Authenticator> {
    appmodules: Vec<M>,
    authenticator: A,
    use_rocks_db: bool,
}

impl<M: AppModule> AppBuilder<M, DefaultAuthenticator> {
    /// A builder with no module, the default authenticator, and storage in
    /// memory.
    pub fn new() -> (b: Self)
        ensures
            b.modules() == Seq::<M>::empty(),
            b.auth() == DefaultAuthenticator,
            !b.persistent(),
    {
        AppBuilder { appmodules: Vec::new(), authenticator: DefaultAuthenticator, use_rocks_db: false }
    }
}

impl<M: AppModule, A: Authenticator> AppBuilder<M, A> {
    /// The modules registered so far, in order.
    pub closed spec fn modules(&self) -> Seq<M> {
        self.appmodules@
    }

    /// The authenticator chosen.
    pub closed spec fn auth(&self) -> A {
        self.authenticator
    }

    /// Whether state is to be kept on disk.
    pub closed spec fn persistent(&self) -> bool {
        self.use_rocks_db
    }

    /// Keep the application's state on disk. By default it is kept in
    /// memory.
    pub fn use_production_db(self) -> (b: Self)
        ensures
            b.modules() == self.modules(),
            b.auth() == self.auth(),
            b.persistent(),
    {
        AppBuilder {
            appmodules: self.appmodules,
            authenticator: self.authenticator,
            use_rocks_db: true,
        }
    }

    /// Whether state is to be kept on disk.
    pub fn uses_production_db(&self) -> (r: bool)
        ensures
            r == self.persistent(),
    {
        self.use_rocks_db
    }

    /// Set the authenticator, in place of the one chosen before.
    pub fn set_authenticator<B: Authenticator>(self, authenticator: B) -> (b: AppBuilder<M, B>)
        ensures
            b.modules() == self.modules(),
            b.auth() == authenticator,
            b.persistent() == self.persistent(),
    {
        AppBuilder { appmodules: self.appmodules, authenticator, use_rocks_db: self.use_rocks_db }
    }

    /// Call this one or more times to add modules to the application.
    pub fn with_app(self, app: M) -> (b: Self)
        ensures
            b.modules() == self.modules().push(app),
            b.auth() == self.auth(),
            b.persistent() == self.persistent(),
    {
        let mut appmodules = self.appmodules;
        appmodules.push(app);
        AppBuilder { appmodules, authenticator: self.authenticator, use_rocks_db: self.use_rocks_db }
    }

    /// Build the node, with empty state held in memory. Fails where no
    /// module is registered, or one has the reserved name.
    pub fn node(self) -> (r: Result<Node<M, A>, BuildError>)
        ensures
            r.is_ok() == (self.modules().len() > 0 && !has_reserved(self.modules())),
            r.is_err() ==> r->Err_0 == if self.modules().len() == 0 {
                BuildError::NoModules
            } else {
                BuildError::ReservedName
            },
            r.is_ok() ==> {
                let node = r.unwrap();
                &&& node.modules() == keep_first(self.modules())
                &&& node.auth() == self.auth()
                &&& node.state() == NodeState {
                    committed: Map::empty(),
                    check: Map::empty(),
                    deliver: Map::empty(),
                    height: 0,
                    apphash: Seq::empty(),
                }
            },
    {
        Node::restore(self, DigestMap::new(), ChainState::genesis())
    }
}

/// Node executes the registered modules and manages storage. Use the
/// `AppBuilder` to create one.
///
/// The node reads committed state from a snapshot that it holds itself,
/// and stages every write in one of two caches: one for admission, one for
/// execution. A node that stands alone commits with `commit`, which takes
/// the root over its own snapshot as the application hash. A node in front
/// of a persistent engine is kept in step with it by its host: the host
/// writes `staged_changes` to the engine, takes the engine's aggregated
/// hash, and hands it to `commit_with`; after a restart it hands what the
/// engine holds to `restore`.
pub struct Node<M: AppModule, A: Authenticator> {
    db: Snapshot,
    appmodules: Vec<M>,
    authenticator: A,
    check_cache: Cache,
    deliver_cache: Cache,
    chain_state: ChainState,
}

impl<M: AppModule, A: Authenticator> Node<M, A> {
    /// The registered modules, in the order of registration.
    pub closed spec fn modules(&self) -> Seq<M> {
        self.appmodules@
    }

    /// The authenticator.
    pub closed spec fn auth(&self) -> A {
        self.authenticator
    }

    /// The node's state.
    pub closed spec fn state(&self) -> NodeState {
        NodeState {
            committed: self.db@,
            check: self.check_cache@,
            deliver: self.deliver_cache@,
            height: self.chain_state.height,
            apphash: self.chain_state.apphash@,
        }
    }

    /// Create a new node. This is called by the builder.
    pub fn new(config: AppBuilder<M, A>) -> (r: Result<Self, BuildError>)
        ensures
            r.is_ok() == (config.modules().len() > 0 && !has_reserved(config.modules())),
            r.is_err() ==> r->Err_0 == if config.modules().len() == 0 {
                BuildError::NoModules
            } else {
                BuildError::ReservedName
            },
            r.is_ok() ==> {
                let node = r.unwrap();
                &&& node.modules() == keep_first(config.modules())
                &&& node.auth() == config.auth()
                &&& node.state() == NodeState {
                    committed: Map::empty(),
                    check: Map::empty(),
                    deliver: Map::empty(),
                    height: 0,
                    apphash: Seq::empty(),
                }
            },
    {
        Node::restore(config, DigestMap::new(), ChainState::genesis())
    }

    /// Create a node over state that was committed before: the snapshot of
    /// committed values and the chain state that goes with it.
    #[verifier::loop_isolation(false)]
    pub fn restore(config: AppBuilder<M, A>, db: Snapshot, chain_state: ChainState) -> (r: Result<
        Self,
        BuildError,
    >)
        ensures
            r.is_ok() == (config.modules().len() > 0 && !has_reserved(config.modules())),
            r.is_err() ==> r->Err_0 == if config.modules().len() == 0 {
                BuildError::NoModules
            } else {
                BuildError::ReservedName
            },
            r.is_ok() ==> {
                let node = r.unwrap();
                &&& node.modules() == keep_first(config.modules())
                &&& distinct_names(node.modules())
                &&& !has_reserved(node.modules())
                &&& node.auth() == config.auth()
                &&& node.state() == NodeState {
                    committed: db@,
                    check: Map::empty(),
                    deliver: Map::empty(),
                    height: chain_state.height,
                    apphash: chain_state.apphash@,
                }
            },
    {
        let ghost all = config.appmodules@;
        let mut pending: Vec<M> = config.appmodules;
        if pending.len() == 0 {
            return Err(BuildError::NoModules);
        }
        let mut registry: Vec<M> = Vec::new();
        let mut done: usize = 0;
        let total: usize = pending.len();
        assert(all.subrange(0, 0) == Seq::<M>::empty());
        while pending.len() > 0
            invariant
                done <= total,
                total == all.len(),
                pending@ == all.subrange(done as int, total as int),
                registry@ == keep_first(all.subrange(0, done as int)),
                !has_reserved(all.subrange(0, done as int)),
            decreases pending@.len(),
        {
            let module = pending.remove(0);
            let name = module.name();
            let ghost front = all.subrange(0, done as int);
            let ghost next = all.subrange(0, done + 1);
            proof {
                assert(module == all[done as int]);
                assert(next.drop_last() == front);
                assert(next.last() == module);
            }
            if str_eq(name.as_str(), "rapido") {
                proof {
                    assert(all[done as int].spec_name() == reserved_name());
                }
                return Err(BuildError::ReservedName);
            }
            // First come, first served.
            if find_module(&registry, name.as_str()).is_none() {
                registry.push(module);
            }
            proof {
                assert(registry@ == keep_first(next));
                assert forall|i: int| 0 <= i < next.len() implies (#[trigger] next[i]).spec_name()
                    != reserved_name() by {
                    if i < front.len() {
                        assert(front[i].spec_name() != reserved_name());
                    }
                }
                assert(pending@ == all.subrange(done + 1, total as int));
            }
            done = done + 1;
        }
        assert(all.subrange(0, total as int) == all);
        proof {
            lemma_first_come_wins(all, reserved_name());
            lemma_keep_first_reserved(all);
        }
        Ok(
            Node {
                db,
                appmodules: registry,
                authenticator: config.authenticator,
                check_cache: DigestMap::new(),
                deliver_cache: DigestMap::new(),
                chain_state,
            },
        )
    }

    /// The chain state: the height of the last committed block and the
    /// application hash after it.
    pub fn chain_state(&self) -> (s: ChainState)
        ensures
            s.height == self.state().height,
            s.apphash@ == self.state().apphash,
    {
        ChainState {
            height: self.chain_state.height,
            apphash: vstd::slice::slice_to_vec(self.chain_state.apphash.as_slice()),
        }
    }

    /// The committed state.
    pub fn snapshot(&self) -> (s: &Snapshot)
        ensures
            s@ == self.state().committed,
    {
        &self.db
    }

    /// A copy of the changes staged for execution: what the next commit
    /// will write.
    pub fn staged_changes(&self) -> (c: Cache)
        ensures
            c@ == self.state().deliver,
    {
        clone_cache(&self.deliver_cache)
    }

    /// Tell the consensus host where the chain stands, so that it can
    /// replay what the node has missed.
    pub fn info(&self, version: &str) -> (resp: ResponseInfo)
        ensures
            resp.data@ == "rapido_v3"@,
            resp.version@ == version@,
            resp.last_block_height == self.state().height,
            resp.last_block_app_hash@ == self.state().apphash,
    {
        ResponseInfo {
            data: "rapido_v3".to_owned(),
            version: version.to_owned(),
            last_block_height: self.chain_state.height,
            last_block_app_hash: vstd::slice::slice_to_vec(self.chain_state.apphash.as_slice()),
        }
    }

    /// Run once, at genesis: every module sets up its initial state in the
    /// execution cache. Nothing is committed; the first commit persists
    /// what was staged. Where a module fails, its reason is returned and
    /// the node is left as it was: the caller must stop rather than go on
    /// from a broken genesis.
    #[verifier::loop_isolation(false)]
    pub fn init_chain(&mut self) -> (r: Result<(), String>)
        ensures
            final(self).modules() == old(self).modules(),
            final(self).auth() == old(self).auth(),
            ({
                let s = old(self).state();
                let o = genesis_all(old(self).modules(), s.deliver, s.committed);
                &&& r.is_ok() == o.ok
                &&& r.is_err() ==> r.unwrap_err()@ == o.log
                &&& final(self).state() == if o.ok {
                    NodeState { deliver: o.staged, ..s }
                } else {
                    s
                }
            }),
    {
        let mut cache = clone_cache(&self.deliver_cache);
        let n: usize = self.appmodules.len();
        let mut i: usize = 0;
        assert(self.appmodules@.subrange(0, 0) == Seq::<M>::empty());
        while i < n
            invariant
                i <= n,
                n == self.appmodules@.len(),
                *self == *old(self),
                ({
                    let o = genesis_all(
                        self.appmodules@.subrange(0, i as int),
                        self.deliver_cache@,
                        self.db@,
                    );
                    o.ok && o.staged == cache@
                }),
            decreases n - i,
        {
            let ghost front = self.appmodules@.subrange(0, i as int);
            let ghost next = self.appmodules@.subrange(0, i + 1);
            proof {
                assert(next.drop_last() == front);
                assert(next.last() == self.appmodules@[i as int]);
            }
            let mut view = StoreView::wrap(&self.db, cache);
            let result = self.appmodules[i].initialize(&mut view);
            cache = view.into_cache();
            match result {
                Ok(()) => {},
                Err(log) => {
                    proof {
                        lemma_genesis_stops(self.appmodules@, i + 1, self.deliver_cache@, self.db@);
                    }
                    return Err(log);
                },
            }
            i = i + 1;
        }
        assert(self.appmodules@.subrange(0, n as int) == self.appmodules@);
        self.deliver_cache = cache;
        Ok(())
    }

    /// Serve a query against committed state. The path names the module,
    /// as `appname`, `appname/` or `appname/somepath`; the module answers
    /// from what is committed and sees nothing that is staged.
    pub fn query(&self, path: &str, data: Vec<u8>) -> (resp: ResponseQuery)
        ensures
            resp.reply() == query_reply(self.modules(), self.state().committed, path@, data@),
    {
        let (appname, query_path) = match parse_abci_query_path(path) {
            Some(pair) => pair,
            None => {
                return ResponseQuery {
                    code: 1,
                    log: "Malformed query path".to_owned(),
                    key: data,
                    value: Vec::new(),
                };
            },
        };
        proof {
            vstd::utf8::encode_utf8_decode_utf8(appname@);
            vstd::utf8::encode_utf8_decode_utf8(query_path@);
        }
        let i = match find_module(&self.appmodules, appname) {
            Some(i) => i,
            None => {
                return ResponseQuery {
                    code: 1,
                    log: concat("Query: cannot find appname: ", appname),
                    key: Vec::new(),
                    value: Vec::new(),
                };
            },
        };
        let view = StoreView::wrap_snapshot(&self.db);
        let key = vstd::slice::slice_to_vec(data.as_slice());
        match self.appmodules[i].handle_query(query_path, key, &view) {
            Ok(value) => ResponseQuery { code: 0, log: String::new(), key: data, value },
            Err(msg) => ResponseQuery { code: 1, log: msg, key: data, value: Vec::new() },
        }
    }

    /// Run a transaction, for admission or for execution. Returns the
    /// events of a successful execution, or the failure.
    ///
    /// For admission the authenticator decides over the admission cache,
    /// and the nonce of an admitted transaction is advanced there, so that
    /// one sender can have several transactions with successive nonces
    /// waiting. A transaction that is turned down leaves the admission
    /// cache as it was.
    ///
    /// For execution the module's handler runs over the execution cache.
    /// What a failing handler staged is dropped, so that a failed
    /// transaction leaves nothing behind but the advance of its sender's
    /// nonce, which follows either way so that no transaction can be
    /// replayed.
    pub fn run_tx(&mut self, is_check: bool, raw: &[u8]) -> (r: Result<Vec<Event>, RapidoError>)
        ensures
            final(self).modules() == old(self).modules(),
            final(self).auth() == old(self).auth(),
            final(self).state() == run_step(
                old(self).modules(),
                old(self).auth(),
                old(self).state(),
                is_check,
                raw@,
            ).0,
            reply_of(r) == run_step(
                old(self).modules(),
                old(self).auth(),
                old(self).state(),
                is_check,
                raw@,
            ).1,
            match r {
                Ok(_) => run_failure(
                    old(self).modules(),
                    old(self).auth(),
                    old(self).state(),
                    is_check,
                    raw@,
                ).is_none(),
                Err(e) => run_failure(
                    old(self).modules(),
                    old(self).auth(),
                    old(self).state(),
                    is_check,
                    raw@,
                ) == Some(e.spec_kind()),
            },
    {
        // Decode the incoming transaction
        let tx = match SignedTransaction::decode(raw) {
            Ok(tx) => tx,
            Err(e) => {
                return Err(e);
            },
        };
        // Return err if there are no appmodules matching the route
        let i = match find_module(&self.appmodules, tx.appname()) {
            Some(i) => i,
            None => {
                return Err(
                    RapidoError::UnknownModule(
                        concat("No registered AppModule found for name: ", tx.appname()),
                    ),
                );
            },
        };
        // If this is a check_tx handle it
        if is_check {
            let cache = clone_cache(&self.check_cache);
            let mut view = StoreView::wrap(&self.db, cache);
            match self.authenticator.validate(&tx, &view) {
                Ok(()) => {},
                Err(reason) => {
                    return Err(RapidoError::AuthFailure(reason));
                },
            }
            // Increment the nonce for a sender in the checkTx cache
            // this is to ensure multiple txs from a user are tracked
            // this doesn't affect the nonce count in deliver_tx
            let advanced = self.authenticator.increment_nonce(&tx, &mut view);
            let cache = view.into_cache();
            return match advanced {
                Ok(()) => {
                    // Refresh the cache
                    self.check_cache = cache;
                    let events: Vec<Event> = Vec::new();
                    assert(events_view(events@) == Seq::<EventModel>::empty());
                    Ok(events)
                },
                Err(_) => Err(RapidoError::NonceFailure("check tx : inc nonce error".to_owned())),
            };
        }
        // Run DeliverTx

        let cache = clone_cache(&self.deliver_cache);
        let mut view = StoreView::wrap(&self.db, cache);
        let mut ctx = tx.into_context();
        let handled = self.appmodules[i].handle_tx(&mut ctx, &mut view);
        let staged = view.into_cache();
        // Keep what a successful handler staged; drop what a failing one did.
        let base = match &handled {
            Ok(()) => staged,
            Err(_) => clone_cache(&self.deliver_cache),
        };
        let mut view = StoreView::wrap(&self.db, base);
        // Increment the nonce for a sender
        let advanced = self.authenticator.increment_nonce(&tx, &mut view);
        let cache = view.into_cache();
        match advanced {
            Ok(()) => {},
            Err(_) => {
                return Err(RapidoError::NonceFailure("deliver tx nonce error".to_owned()));
            },
        }
        self.deliver_cache = cache;
        match handled {
            Ok(()) => Ok(ctx.get_events()),
            Err(msg) => Err(RapidoError::ExecFailure(msg)),
        }
    }

    /// Who gets in the mempool? Checks a transaction for admission and
    /// answers with code zero where it is admitted, with code one and the
    /// reason where it is not.
    pub fn check_tx(&mut self, raw: &[u8]) -> (resp: ResponseCheckTx)
        ensures
            final(self).modules() == old(self).modules(),
            final(self).auth() == old(self).auth(),
            final(self).state() == check_step(
                old(self).modules(),
                old(self).auth(),
                old(self).state(),
                raw@,
            ).0,
            resp.reply() == check_step(
                old(self).modules(),
                old(self).auth(),
                old(self).state(),
                raw@,
            ).1,
    {
        match self.run_tx(true, raw) {
            Ok(_) => ResponseCheckTx { code: 0, log: String::new() },
            Err(msg) => ResponseCheckTx { code: 1u32, log: msg.log() },
        }
    }

    /// Executes a transaction of the block in progress and answers with
    /// code zero and the events recorded where it succeeds, with code one
    /// and the reason where it fails.
    pub fn deliver_tx(&mut self, raw: &[u8]) -> (resp: ResponseDeliverTx)
        ensures
            final(self).modules() == old(self).modules(),
            final(self).auth() == old(self).auth(),
            resp.data@.len() == 0,
            final(self).state() == deliver_step(
                old(self).modules(),
                old(self).auth(),
                old(self).state(),
                raw@,
            ).0,
            resp.reply() == deliver_step(
                old(self).modules(),
                old(self).auth(),
                old(self).state(),
                raw@,
            ).1,
    {
        match self.run_tx(false, raw) {
            Ok(events) => ResponseDeliverTx::success(events),
            Err(msg) => ResponseDeliverTx::failure(msg.log()),
        }
    }

    /// Called at the start of a block. The node does nothing here.
    pub fn begin_block(&mut self)
        ensures
            *final(self) == *old(self),
    {
    }

    /// Called at the end of a block. The node does nothing here.
    pub fn end_block(&mut self)
        ensures
            *final(self) == *old(self),
    {
    }

    /// Commit the block with the application hash that the storage engine
    /// computed over committed state after the staged changes were written
    /// to it. What was staged for execution is committed, the chain is one
    /// block higher, and both caches start empty again.
    pub fn commit_with(&mut self, apphash: Vec<u8>) -> (resp: ResponseCommit)
        requires
            old(self).state().height < i64::MAX,
        ensures
            final(self).modules() == old(self).modules(),
            final(self).auth() == old(self).auth(),
            final(self).state() == commit_state(old(self).state(), apphash@),
            resp.data@ == apphash@,
    {
        apply_changes(&self.deliver_cache, &mut self.db);
        let data = vstd::slice::slice_to_vec(apphash.as_slice());
        self.chain_state = ChainState { height: self.chain_state.height + 1, apphash };
        self.deliver_cache = DigestMap::new();
        self.check_cache = DigestMap::new();
        ResponseCommit { data }
    }

    /// Commit the block of a node that keeps its state in memory. The
    /// application hash is the root over the committed entries.
    pub fn commit(&mut self) -> (resp: ResponseCommit)
        requires
            old(self).state().height < i64::MAX,
        ensures
            final(self).modules() == old(self).modules(),
            final(self).auth() == old(self).auth(),
            final(self).state() == commit_state(old(self).state(), resp.data@),
            resp.data@ == map_root(final(self).state().committed),
            resp.data@.len() == 32,
    {
        apply_changes(&self.deliver_cache, &mut self.db);
        let apphash = state_root(&self.db);
        let data = vstd::slice::slice_to_vec(apphash.as_slice());
        self.chain_state = ChainState { height: self.chain_state.height + 1, apphash };
        self.deliver_cache = DigestMap::new();
        self.check_cache = DigestMap::new();
        ResponseCommit { data }
    }
}

/// Once a module's setup has failed, the failure stands whatever modules
/// follow.
pub proof fn lemma_genesis_stops<M: AppModule>(
    modules: Seq<M>,
    k: int,
    staged: Staged,
    committed: Committed,
)
    requires
        0 <= k <= modules.len(),
        !genesis_all(modules.subrange(0, k), staged, committed).ok,
    ensures
        genesis_all(modules, staged, committed) == genesis_all(
            modules.subrange(0, k),
            staged,
            committed,
        ),
    decreases modules.len() - k,
{
    if k < modules.len() {
        let front = modules.drop_last();
        assert(front.subrange(0, k) == modules.subrange(0, k));
        lemma_genesis_stops(front, k, staged, committed);
    } else {
        assert(modules.subrange(0, k) == modules);
    }
}

} // verus!
