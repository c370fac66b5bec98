//! Rapido is a framework for building deterministic replicated
//! state-machine applications that sit behind a consensus engine.
//!
//! The consensus host replays transactions in the same order on every
//! replica and expects the same application hash from each after every
//! block. This crate is the harness that makes an application keep that
//! promise:
//!
//! * [`tx`] holds the signed transaction, its wire encoding and its
//!   signature;
//! * [`store`] holds the staging caches, the view that layers them over
//!   committed state, and typed stores with name-prefixed keys;
//! * [`module`] holds the traits an application implements: modules and
//!   an authenticator;
//! * [`node`] holds the builder and the node that the host drives, and
//!   [`laws`] holds what is proved of the node whatever it runs;
//! * [`testkit`] runs an application without a host.
//!
//! Everything here is verified, down to a handful of functions that call
//! other crates for hashing, signatures and text encodings.
pub mod account;
pub mod account_address;
pub mod appstate;
pub mod client;
pub mod codec;
pub mod context;
pub mod counter;
pub mod crypto;
pub mod did;
pub mod digest_map;
pub mod encoding;
pub mod errors;
pub mod laws;
pub mod module;
pub mod node;
pub mod person;
pub mod router;
pub mod schema;
pub mod store;
pub mod testkit;
pub mod tx;

pub use self::{
    module::{AppModule, Authenticator, DefaultAuthenticator},
    node::{AppBuilder, Node},
    store::{Store, StoreView},
    testkit::{testing_keypair, TestKit},
    tx::{sign_transaction, verify_tx_signature, AccountId, SignedTransaction},
};
pub use self::context::Context;
