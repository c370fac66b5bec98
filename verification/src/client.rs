//! Requests that a client sends to the consensus host's RPC endpoint.
//!
//! Each request has a method name and named parameters. Binary parameters
//! travel as text: a transaction in base 64, a query key in hexadecimal.
use vstd::prelude::*;
use crate::encoding::{base64_encode, base64_text, hex_encode, hex_encoding};

verus! {

/// The value of one request parameter.
#[derive(Debug, Clone, PartialEq, Eq)]
pub enum ParamValue {
    /// A text.
    Text(String),
    /// A flag.
    Flag(bool),
}

/// Implement to describe a JSON-RPC request.
pub trait AbciRequest {
    /// The method's name.
    fn method(&self) -> &'static str;

    /// The parameters by name, in the order they are sent.
    fn params(&self) -> Vec<(String, ParamValue)>;
}

/// Asks for the application's basic information.
pub struct AbciInfo;

impl AbciRequest for AbciInfo {
    fn method(&self) -> (m: &'static str)
        ensures
            m@ == "abci_info"@,
    {
        "abci_info"
    }

    fn params(&self) -> (p: Vec<(String, ParamValue)>)
        ensures
            p@.len() == 0,
    {
        Vec::new()
    }
}

/// Asks for the network's information.
pub struct NetInfo;

impl AbciRequest for NetInfo {
    fn method(&self) -> (m: &'static str)
        ensures
            m@ == "net_info"@,
    {
        "net_info"
    }

    fn params(&self) -> (p: Vec<(String, ParamValue)>)
        ensures
            p@.len() == 0,
    {
        Vec::new()
    }
}

/// Sends an encoded transaction and waits for its commit.
pub struct BroadcastTxCommit(pub Vec<u8>);

impl AbciRequest for BroadcastTxCommit {
    fn method(&self) -> (m: &'static str)
        ensures
            m@ == "broadcast_tx_commit"@,
    {
        "broadcast_tx_commit"
    }

    fn params(&self) -> (p: Vec<(String, ParamValue)>)
        ensures
            p@.len() == 1,
            p@[0].0@ == "tx"@,
            p@[0].1 is Text,
            p@[0].1->Text_0@ == base64_text(self.0@),
    {
        let encoded = base64_encode(self.0.as_slice());
        let mut p: Vec<(String, ParamValue)> = Vec::new();
        p.push(("tx".to_owned(), ParamValue::Text(encoded)));
        p
    }
}

/// Queries the application under a path with a key.
pub struct AbciQuery {
    path: String,
    data: Vec<u8>,
    proof: bool,
}

impl AbciQuery {
    /// The query's path.
    pub closed spec fn spec_path(&self) -> Seq<char> {
        self.path@
    }

    /// The query's key.
    pub closed spec fn spec_data(&self) -> Seq<u8> {
        self.data@
    }

    /// Whether a proof is asked for.
    pub closed spec fn spec_proof(&self) -> bool {
        self.proof
    }

    /// A query of `path` with the key `data`, asking for no proof.
    pub fn new(path: String, data: Vec<u8>) -> (q: Self)
        ensures
            q.spec_path() == path@,
            q.spec_data() == data@,
            !q.spec_proof(),
    {
        AbciQuery { path, data, proof: false }
    }
}

impl AbciRequest for AbciQuery {
    fn method(&self) -> (m: &'static str)
        ensures
            m@ == "abci_query"@,
    {
        "abci_query"
    }

    fn params(&self) -> (p: Vec<(String, ParamValue)>)
        ensures
            p@.len() == 3,
            p@[0].0@ == "path"@ && p@[0].1 is Text && p@[0].1->Text_0@ == self.spec_path(),
            p@[1].0@ == "data"@ && p@[1].1 is Text && p@[1].1->Text_0@ == hex_encoding(
                self.spec_data(),
            ),
            p@[2].0@ == "proof"@ && p@[2].1 == ParamValue::Flag(self.spec_proof()),
    {
        let encoded = hex_encode(self.data.as_slice());
        let mut p: Vec<(String, ParamValue)> = Vec::new();
        p.push(("path".to_owned(), ParamValue::Text(self.path.clone())));
        p.push(("data".to_owned(), ParamValue::Text(encoded)));
        p.push(("proof".to_owned(), ParamValue::Flag(self.proof)));
        p
    }
}

} // verus!
