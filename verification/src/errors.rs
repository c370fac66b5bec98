//! What can go wrong while the node serves a request.
use vstd::prelude::*;

verus! {

/// The kinds of recoverable failure.
#[derive(Debug, Clone, Copy, PartialEq, Eq)]
pub enum FailureKind {
    /// The bytes are not the encoding of a transaction.
    MalformedTransaction,
    /// No module is registered under the name.
    UnknownModule,
    /// The authenticator turned the transaction down.
    AuthFailure,
    /// The authenticator could not advance the sender's nonce.
    NonceFailure,
    /// The module's transaction handler failed.
    ExecFailure,
}

/// A recoverable failure. Each is reported to the consensus host as a
/// non-zero result code with a log line; none of them stops the node.
#[derive(Debug, Clone, PartialEq, Eq)]
pub enum RapidoError {
    /// The bytes are not the encoding of a transaction.
    MalformedTransaction,
    /// No module is registered under the name; the field holds the log line.
    UnknownModule(String),
    /// The authenticator turned the transaction down.
    AuthFailure(String),
    /// The authenticator could not advance the sender's nonce.
    NonceFailure(String),
    /// The module's transaction handler failed.
    ExecFailure(String),
}

impl RapidoError {
    /// The result code reported for this failure: always 1.
    pub fn code(&self) -> (c: u32)
        ensures
            c == 1,
    {
        1
    }

    /// The log line reported for this failure.
    pub fn log(&self) -> (text: String)
        ensures
            text@ == self.spec_log(),
    {
        match self {
            RapidoError::MalformedTransaction => "problem decoding the signed tx".to_owned(),
            RapidoError::UnknownModule(m) => m.clone(),
            RapidoError::AuthFailure(m) => m.clone(),
            RapidoError::NonceFailure(m) => m.clone(),
            RapidoError::ExecFailure(m) => m.clone(),
        }
    }

    /// The kind of a failure.
    pub open spec fn spec_kind(&self) -> FailureKind {
        match self {
            RapidoError::MalformedTransaction => FailureKind::MalformedTransaction,
            RapidoError::UnknownModule(_) => FailureKind::UnknownModule,
            RapidoError::AuthFailure(_) => FailureKind::AuthFailure,
            RapidoError::NonceFailure(_) => FailureKind::NonceFailure,
            RapidoError::ExecFailure(_) => FailureKind::ExecFailure,
        }
    }

    /// The kind of the failure.
    pub fn kind(&self) -> (k: FailureKind)
        ensures
            k == self.spec_kind(),
    {
        match self {
            RapidoError::MalformedTransaction => FailureKind::MalformedTransaction,
            RapidoError::UnknownModule(_) => FailureKind::UnknownModule,
            RapidoError::AuthFailure(_) => FailureKind::AuthFailure,
            RapidoError::NonceFailure(_) => FailureKind::NonceFailure,
            RapidoError::ExecFailure(_) => FailureKind::ExecFailure,
        }
    }

    /// The log line of a failure.
    pub open spec fn spec_log(&self) -> Seq<char> {
        match self {
            RapidoError::MalformedTransaction => "problem decoding the signed tx"@,
            RapidoError::UnknownModule(m) => m@,
            RapidoError::AuthFailure(m) => m@,
            RapidoError::NonceFailure(m) => m@,
            RapidoError::ExecFailure(m) => m@,
        }
    }
}

} // verus!
