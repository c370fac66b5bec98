//! TestKit runs an application without a consensus host: it plays the
//! host's part over a node that keeps its state in memory.
use vstd::prelude::*;
use vstd::utf8::encode_utf8;
use crate::crypto::{ed25519_public, gen_keypair_from_seed, hash, sha256, PublicKey, SecretKey};
use crate::encoding::concat;
use crate::module::{AppModule, Authenticator};
use crate::node::{
    check_step, commit_state, deliver_step, genesis_all, query_reply, AppBuilder, BuildError,
    Node, NodeState,
};
use crate::router::{has_reserved, keep_first};
use crate::store::map_root;
use crate::tx::{encoding, SignedTransaction};

verus! {

/// The wire encodings of a list of transactions.
pub open spec fn encodings(txs: Seq<&SignedTransaction>) -> Seq<Seq<u8>> {
    Seq::new(txs.len(), |i: int| encoding(txs[i]@))
}

/// The log line of a result that was turned down.
pub open spec fn reason(log: Seq<char>) -> Seq<char> {
    "reason: "@ + log
}

/// The log line of a kit that was not started.
pub open spec fn not_started_log() -> Seq<char> {
    "Must first call the start method"@
}

/// The log line of a chain that cannot grow any higher.
pub open spec fn height_log() -> Seq<char> {
    "The chain has reached its greatest height"@
}

/// Checking transactions in order up to the first that is turned down:
/// the node's state afterwards, and the reason where one was turned down.
pub open spec fn check_all<M: AppModule, A: Authenticator>(
    modules: Seq<M>,
    auth: A,
    s: NodeState,
    raws: Seq<Seq<u8>>,
) -> (NodeState, Option<Seq<char>>)
    decreases raws.len(),
{
    if raws.len() == 0 {
        (s, None)
    } else {
        let (before, failed) = check_all(modules, auth, s, raws.drop_last());
        if failed.is_some() {
            (before, failed)
        } else {
            let (after, reply) = check_step(modules, auth, before, raws.last());
            if reply.code != 0 {
                (after, Some(reason(reply.log)))
            } else {
                (after, None)
            }
        }
    }
}

/// Executing transactions in order up to the first that fails: the node's
/// state afterwards, and the reason where one failed.
pub open spec fn deliver_all<M: AppModule, A: Authenticator>(
    modules: Seq<M>,
    auth: A,
    s: NodeState,
    raws: Seq<Seq<u8>>,
) -> (NodeState, Option<Seq<char>>)
    decreases raws.len(),
{
    if raws.len() == 0 {
        (s, None)
    } else {
        let (before, failed) = deliver_all(modules, auth, s, raws.drop_last());
        if failed.is_some() {
            (before, failed)
        } else {
            let (after, reply) = deliver_step(modules, auth, before, raws.last());
            if reply.code != 0 {
                (after, Some(reason(reply.log)))
            } else {
                (after, None)
            }
        }
    }
}

/// Once a transaction has been turned down, the result stands whatever
/// transactions follow.
pub proof fn lemma_check_all_stops<M: AppModule, A: Authenticator>(
    modules: Seq<M>,
    auth: A,
    s: NodeState,
    raws: Seq<Seq<u8>>,
    k: int,
)
    requires
        0 <= k <= raws.len(),
        check_all(modules, auth, s, raws.subrange(0, k)).1.is_some(),
    ensures
        check_all(modules, auth, s, raws) == check_all(modules, auth, s, raws.subrange(0, k)),
    decreases raws.len() - k,
{
    if k < raws.len() {
        let front = raws.drop_last();
        assert(front.subrange(0, k) == raws.subrange(0, k));
        lemma_check_all_stops(modules, auth, s, front, k);
    } else {
        assert(raws.subrange(0, k) == raws);
    }
}

/// Once a transaction has failed, the result stands whatever transactions
/// follow.
pub proof fn lemma_deliver_all_stops<M: AppModule, A: Authenticator>(
    modules: Seq<M>,
    auth: A,
    s: NodeState,
    raws: Seq<Seq<u8>>,
    k: int,
)
    requires
        0 <= k <= raws.len(),
        deliver_all(modules, auth, s, raws.subrange(0, k)).1.is_some(),
    ensures
        deliver_all(modules, auth, s, raws) == deliver_all(modules, auth, s, raws.subrange(0, k)),
    decreases raws.len() - k,
{
    if k < raws.len() {
        let front = raws.drop_last();
        assert(front.subrange(0, k) == raws.subrange(0, k));
        lemma_deliver_all_stops(modules, auth, s, front, k);
    } else {
        assert(raws.subrange(0, k) == raws);
    }
}

/// TestKit for testing an application without a consensus host.
pub struct TestKit<M: AppModule, A: Authenticator> {
    node: Node<M, A>,
    has_init: bool,
}

impl<M: AppModule, A: Authenticator> TestKit<M, A> {
    /// The state of the node under test.
    pub closed spec fn state(&self) -> NodeState {
        self.node.state()
    }

    /// The modules of the node under test.
    pub closed spec fn modules(&self) -> Seq<M> {
        self.node.modules()
    }

    /// The authenticator of the node under test.
    pub closed spec fn auth(&self) -> A {
        self.node.auth()
    }

    /// Whether `start` has run.
    pub closed spec fn started(&self) -> bool {
        self.has_init
    }

    /// Create the kit from the builder. Fails where the builder cannot
    /// build a node.
    pub fn create(builder: AppBuilder<M, A>) -> (r: Result<Self, BuildError>)
        ensures
            r.is_ok() == (builder.modules().len() > 0 && !has_reserved(builder.modules())),
            r.is_err() ==> r->Err_0 == if builder.modules().len() == 0 {
                BuildError::NoModules
            } else {
                BuildError::ReservedName
            },
            r.is_ok() ==> {
                let kit = r->Ok_0;
                &&& !kit.started()
                &&& kit.modules() == keep_first(builder.modules())
                &&& kit.auth() == builder.auth()
                &&& kit.state() == NodeState {
                    committed: Map::empty(),
                    check: Map::empty(),
                    deliver: Map::empty(),
                    height: 0,
                    apphash: Seq::empty(),
                }
            },
    {
        match builder.node() {
            Ok(node) => Ok(TestKit { node, has_init: false }),
            Err(e) => Err(e),
        }
    }

    /// Must be called first, and once: it plays the host's part at
    /// genesis, which is the call that lets every module set up its state,
    /// followed by the commit that makes that state visible to admission
    /// and to queries. Where a module's setup fails, the reason is
    /// returned and the kit stays unstarted.
    pub fn start(&mut self) -> (r: Result<(), String>)
        ensures
            final(self).modules() == old(self).modules(),
            final(self).auth() == old(self).auth(),
            old(self).state().height == i64::MAX ==> r.is_err() && r.unwrap_err()@ == height_log()
                && final(self).state() == old(self).state() && final(self).started() == old(
                self,
            ).started(),
            old(self).state().height < i64::MAX ==> {
                let s = old(self).state();
                let o = genesis_all(old(self).modules(), s.deliver, s.committed);
                &&& r.is_ok() == o.ok
                &&& r.is_err() ==> r.unwrap_err()@ == o.log
                &&& final(self).started() == (o.ok || old(self).started())
                &&& final(self).state() == if o.ok {
                    commit_state(
                        NodeState { deliver: o.staged, ..s },
                        map_root(final(self).state().committed),
                    )
                } else {
                    s
                }
            },
    {
        if self.node.chain_state().height == i64::MAX {
            return Err("The chain has reached its greatest height".to_owned());
        }
        match self.node.init_chain() {
            Ok(()) => {
                let _ = self.node.commit();
                self.has_init = true;
                Ok(())
            },
            Err(log) => Err(log),
        }
    }

    /// Run transactions through admission, as the host does before it
    /// takes them into the mempool. Stops at the first transaction that is
    /// turned down and returns its reason.
    #[verifier::loop_isolation(false)]
    pub fn check_tx(&mut self, txs: &[&SignedTransaction]) -> (r: Result<(), String>)
        ensures
            final(self).modules() == old(self).modules(),
            final(self).auth() == old(self).auth(),
            final(self).started() == old(self).started(),
            !old(self).started() ==> r.is_err() && r.unwrap_err()@ == not_started_log()
                && final(self).state() == old(self).state(),
            old(self).started() ==> {
                let (after, failed) = check_all(
                    old(self).modules(),
                    old(self).auth(),
                    old(self).state(),
                    encodings(txs@),
                );
                &&& final(self).state() == after
                &&& r.is_ok() == failed.is_none()
                &&& r.is_err() ==> r.unwrap_err()@ == failed.unwrap()
            },
    {
        if !self.has_init {
            return Err("Must first call the start method".to_owned());
        }
        let ghost raws = encodings(txs@);
        let mut i: usize = 0;
        assert(raws.subrange(0, 0) == Seq::<Seq<u8>>::empty());
        while i < txs.len()
            invariant
                i <= txs@.len(),
                self.has_init,
                self.node.modules() == old(self).node.modules(),
                self.node.auth() == old(self).node.auth(),
                check_all(
                    old(self).modules(),
                    old(self).auth(),
                    old(self).state(),
                    raws.subrange(0, i as int),
                ) == (self.node.state(), None::<Seq<char>>),
            decreases txs@.len() - i,
        {
            let raw = txs[i].encode();
            proof {
                let next = raws.subrange(0, i + 1);
                assert(next.drop_last() == raws.subrange(0, i as int));
                assert(next.last() == raw@);
            }
            let resp = self.node.check_tx(raw.as_slice());
            if resp.code != 0 {
                proof {
                    lemma_check_all_stops(
                        old(self).modules(),
                        old(self).auth(),
                        old(self).state(),
                        raws,
                        i + 1,
                    );
                }
                return Err(concat("reason: ", resp.log.as_str()));
            }
            i = i + 1;
        }
        assert(raws.subrange(0, txs@.len() as int) == raws);
        Ok(())
    }

    /// Execute transactions and commit them if none fails. Returns the
    /// new application hash. Stops at the first transaction that fails and
    /// returns its reason; nothing is committed then, and what the
    /// transactions before it staged stays staged.
    #[verifier::loop_isolation(false)]
    pub fn commit_tx(&mut self, txs: &[&SignedTransaction]) -> (r: Result<Vec<u8>, String>)
        ensures
            final(self).modules() == old(self).modules(),
            final(self).auth() == old(self).auth(),
            final(self).started() == old(self).started(),
            !old(self).started() ==> r.is_err() && r.unwrap_err()@ == not_started_log()
                && final(self).state() == old(self).state(),
            old(self).started() && old(self).state().height == i64::MAX ==> r.is_err()
                && r.unwrap_err()@ == height_log() && final(self).state() == old(self).state(),
            old(self).started() && old(self).state().height < i64::MAX ==> {
                let (after, failed) = deliver_all(
                    old(self).modules(),
                    old(self).auth(),
                    old(self).state(),
                    encodings(txs@),
                );
                &&& r.is_ok() == failed.is_none()
                &&& r.is_err() ==> r.unwrap_err()@ == failed.unwrap() && final(self).state()
                    == after
                &&& r.is_ok() ==> final(self).state() == commit_state(after, r.unwrap()@)
                    && r.unwrap()@ == map_root(final(self).state().committed)
            },
    {
        if !self.has_init {
            return Err("Must first call the start method".to_owned());
        }
        if self.node.chain_state().height == i64::MAX {
            return Err("The chain has reached its greatest height".to_owned());
        }
        let ghost raws = encodings(txs@);
        let mut i: usize = 0;
        assert(raws.subrange(0, 0) == Seq::<Seq<u8>>::empty());
        while i < txs.len()
            invariant
                i <= txs@.len(),
                self.has_init,
                self.node.modules() == old(self).node.modules(),
                self.node.auth() == old(self).node.auth(),
                self.node.state().height < i64::MAX,
                deliver_all(
                    old(self).modules(),
                    old(self).auth(),
                    old(self).state(),
                    raws.subrange(0, i as int),
                ) == (self.node.state(), None::<Seq<char>>),
            decreases txs@.len() - i,
        {
            let raw = txs[i].encode();
            proof {
                let next = raws.subrange(0, i + 1);
                assert(next.drop_last() == raws.subrange(0, i as int));
                assert(next.last() == raw@);
            }
            let resp = self.node.deliver_tx(raw.as_slice());
            if resp.code != 0 {
                proof {
                    lemma_deliver_all_stops(
                        old(self).modules(),
                        old(self).auth(),
                        old(self).state(),
                        raws,
                        i + 1,
                    );
                }
                return Err(concat("reason: ", resp.log.as_str()));
            }
            i = i + 1;
        }
        assert(raws.subrange(0, txs@.len() as int) == raws);
        // Commit and return the new apphash
        let commit_resp = self.node.commit();
        Ok(commit_resp.data)
    }

    /// Query the latest committed state of an application, under the path
    /// and key that its module's query handler understands. On success,
    /// returns the value as bytes for the caller to decode.
    pub fn query(&mut self, path: &str, key: Vec<u8>) -> (r: Result<Vec<u8>, String>)
        ensures
            final(self).modules() == old(self).modules(),
            final(self).auth() == old(self).auth(),
            final(self).started() == old(self).started(),
            final(self).state() == old(self).state(),
            !old(self).started() ==> r.is_err() && r.unwrap_err()@ == not_started_log(),
            old(self).started() ==> {
                let reply = query_reply(
                    old(self).modules(),
                    old(self).state().committed,
                    path@,
                    key@,
                );
                &&& r.is_ok() == (reply.code == 0)
                &&& r.is_ok() ==> r.unwrap()@ == reply.value
                &&& r.is_err() ==> r.unwrap_err()@ == reason(reply.log)
            },
    {
        if !self.has_init {
            return Err("Must first call the start method".to_owned());
        }
        let resp = self.node.query(path, key);
        if resp.code != 0 {
            return Err(concat("reason: ", resp.log.as_str()));
        }
        // return the query value
        Ok(resp.value)
    }
}

/// A key pair for tests: the pair made of the hash of a name. The same
/// name always gives the same pair.
pub fn testing_keypair(val: &str) -> (pair: (PublicKey, SecretKey))
    ensures
        pair.1@ == sha256(encode_utf8(val@)),
        pair.0@ == ed25519_public(pair.1@),
{
    let seed = hash(val.as_bytes());
    gen_keypair_from_seed(&seed)
}

} // verus!
