//! What an application supplies: modules that handle transactions and
//! queries, and an authenticator that admits transactions.
//!
//! Every handler has to be deterministic: what it returns and what it
//! leaves staged is a function of what it is given. Each trait names that
//! function, so that the node's own contracts can speak of it. A handler
//! written without proof leaves the function unnamed; the node then
//! promises what it promises of any function.
use vstd::prelude::*;
use crate::context::{Context, EventModel};
use crate::store::{Committed, Staged, StoreView};
use crate::tx::{SignedTransaction, TxFields};

verus! {

/// What handling a transaction comes to.
pub struct TxOutcome {
    /// Whether the handler succeeded.
    pub ok: bool,
    /// The reason given where it failed.
    pub log: Seq<char>,
    /// The changes staged when the handler returned.
    pub staged: Staged,
    /// The events the handler recorded, in order.
    pub events: Seq<EventModel>,
}

/// What a step that may stage changes comes to: genesis setup, or the
/// advance of a nonce.
pub struct StepOutcome {
    /// Whether the step succeeded.
    pub ok: bool,
    /// The reason given where it failed.
    pub log: Seq<char>,
    /// The changes staged when the step returned.
    pub staged: Staged,
}

/// What a query comes to.
pub struct QueryOutcome {
    /// Whether the handler succeeded.
    pub ok: bool,
    /// The reason given where it failed.
    pub log: Seq<char>,
    /// The value found where it succeeded.
    pub value: Seq<u8>,
}

/// Main trait to implement the core logic of your application.
pub trait AppModule {
    /// The module's name.
    open spec fn spec_name(&self) -> Seq<char> {
        arbitrary()
    }

    /// What `initialize` does to a view with these staged changes over
    /// this committed state.
    open spec fn genesis(&self, staged: Staged, committed: Committed) -> StepOutcome {
        arbitrary()
    }

    /// What `handle_tx` does with a message of `sender`, given a view with
    /// these staged changes over this committed state.
    open spec fn tx_outcome(
        &self,
        sender: Seq<u8>,
        msg: Seq<u8>,
        staged: Staged,
        committed: Committed,
    ) -> TxOutcome {
        arbitrary()
    }

    /// What `handle_query` answers under a path and a key, given a view
    /// with these staged changes over this committed state.
    open spec fn query_outcome(
        &self,
        path: Seq<char>,
        key: Seq<u8>,
        staged: Staged,
        committed: Committed,
    ) -> QueryOutcome {
        arbitrary()
    }

    /// This should return an application wide unique name for the module.
    /// It is the name a transaction gives to reach the module, and the
    /// first part of a query's path.
    fn name(&self) -> (n: String)
        ensures
            n@ == self.spec_name(),
    ;

    /// Called once, at genesis, to establish the module's initial state.
    fn initialize(&self, view: &mut StoreView) -> (r: Result<(), String>)
        ensures
            ({
                let o = self.genesis(old(view).staged(), old(view).committed());
                &&& r.is_ok() == o.ok
                &&& r.is_err() ==> r.unwrap_err()@ == o.log
                &&& final(view).staged() == o.staged
            }),
    ;

    /// Called to process a transaction. This is where the module's state
    /// transition goes. The context is that of a transaction addressed to
    /// this module.
    fn handle_tx(&self, ctx: &mut Context, view: &mut StoreView) -> (r: Result<(), String>)
        requires
            old(ctx).spec_appname() == self.spec_name(),
        ensures
            ({
                let o = self.tx_outcome(
                    old(ctx).spec_sender(),
                    old(ctx).spec_msg(),
                    old(view).staged(),
                    old(view).committed(),
                );
                &&& r.is_ok() == o.ok
                &&& r.is_err() ==> r.unwrap_err()@ == o.log
                &&& final(view).staged() == o.staged
                &&& final(ctx).spec_events() == old(ctx).spec_events() + o.events
            }),
    ;

    /// Handle a query given a path and a key. The path is what follows the
    /// module's name in the query's path: `/`, `/hello`, `/hello/world`.
    fn handle_query(&self, path: &str, key: Vec<u8>, view: &StoreView) -> (r: Result<
        Vec<u8>,
        String,
    >)
        ensures
            ({
                let o = self.query_outcome(path@, key@, view.staged(), view.committed());
                &&& r.is_ok() == o.ok
                &&& r.is_ok() ==> r.unwrap()@ == o.value
                &&& r.is_err() ==> r.unwrap_err()@ == o.log
            }),
    ;
}

/// Implement to create an authenticator for the application: the policy
/// that decides which transactions enter the mempool, and the replay
/// counter that goes with it.
pub trait Authenticator {
    /// The reason for which `validate` turns a transaction down, given a
    /// view with these staged changes over this committed state; nothing
    /// where it admits the transaction.
    open spec fn verdict(&self, tx: TxFields, staged: Staged, committed: Committed) -> Option<
        Seq<char>,
    > {
        arbitrary()
    }

    /// What `increment_nonce` does to a view with these staged changes
    /// over this committed state.
    open spec fn nonce_step(&self, tx: TxFields, staged: Staged, committed: Committed) -> StepOutcome {
        arbitrary()
    }

    /// Validate an incoming transaction to determine whether it should be
    /// included in the mempool. Validation is limited to checking
    /// signatures and other read-only operations against the store.
    fn validate(&self, tx: &SignedTransaction, view: &StoreView) -> (r: Result<(), String>)
        ensures
            r.is_ok() == self.verdict(tx@, view.staged(), view.committed()).is_none(),
            r.is_err() ==> r.unwrap_err()@ == self.verdict(
                tx@,
                view.staged(),
                view.committed(),
            ).unwrap(),
    ;

    /// Advance the sender's nonce, so that transactions of one sender are
    /// taken in order and none is taken twice.
    fn increment_nonce(&self, tx: &SignedTransaction, view: &mut StoreView) -> (r: Result<
        (),
        String,
    >)
        ensures
            ({
                let o = self.nonce_step(tx@, old(view).staged(), old(view).committed());
                &&& r.is_ok() == o.ok
                &&& r.is_err() ==> r.unwrap_err()@ == o.log
                &&& final(view).staged() == o.staged
            }),
    ;
}

/// Default authenticator, used where the application sets none. It admits
/// every transaction and keeps no nonce.
pub struct DefaultAuthenticator;

impl Authenticator for DefaultAuthenticator {
    open spec fn verdict(&self, tx: TxFields, staged: Staged, committed: Committed) -> Option<
        Seq<char>,
    > {
        None
    }

    open spec fn nonce_step(&self, tx: TxFields, staged: Staged, committed: Committed) -> StepOutcome {
        StepOutcome { ok: true, log: Seq::empty(), staged }
    }

    fn validate(&self, _tx: &SignedTransaction, _view: &StoreView) -> (r: Result<(), String>) {
        Ok(())
    }

    fn increment_nonce(&self, _tx: &SignedTransaction, _view: &mut StoreView) -> (r: Result<
        (),
        String,
    >) {
        Ok(())
    }
}

} // verus!
