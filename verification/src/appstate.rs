//! The chain's own bookkeeping: the last height and application hash, and
//! the keys of the table that collects each module's root hash.
use vstd::prelude::*;
use vstd::utf8::{decode_utf8, encode_utf8, valid_utf8};
use crate::codec::{
    bytes_field, i64_field, max_field_len, parse_bytes_field, parse_i64_field, read_bytes,
    read_i64, write_bytes, write_i64,
};
use crate::encoding::{string_from_utf8, text_fits};

verus! {

/// AppState tells whether a node is in sync: the height of the last block
/// and the application hash after it. It is no part of the application
/// hash itself.
#[derive(Debug, Clone, PartialEq, Eq, Default)]
pub struct AppState {
    /// Last height.
    pub height: i64,
    /// Last accumulated application root hash.
    pub hash: Vec<u8>,
}

/// The encoding of an application state: height, then hash.
pub open spec fn app_state_bytes(height: i64, hash: Seq<u8>) -> Seq<u8> {
    i64_field(height) + bytes_field(hash)
}

/// The application state that bytes encode, or nothing.
pub open spec fn parse_app_state(raw: Seq<u8>) -> Option<(i64, Seq<u8>)> {
    match parse_i64_field(raw) {
        Some((height, r1)) => match parse_bytes_field(r1) {
            Some((hash, r2)) => if r2.len() == 0 {
                Some((height, hash))
            } else {
                None
            },
            None => None,
        },
        None => None,
    }
}

/// Decoding an encoded application state gives it back.
pub proof fn lemma_app_state_round_trip(height: i64, hash: Seq<u8>)
    requires
        hash.len() <= max_field_len(),
    ensures
        parse_app_state(app_state_bytes(height, hash)) == Some((height, hash)),
{
    crate::codec::lemma_parse_i64_field(height, bytes_field(hash));
    assert(bytes_field(hash) == bytes_field(hash) + Seq::<u8>::empty());
    crate::codec::lemma_parse_bytes_field(hash, Seq::<u8>::empty());
}

impl AppState {
    /// Encode the state.
    pub fn to_bytes(&self) -> (raw: Vec<u8>)
        requires
            self.hash@.len() <= max_field_len(),
        ensures
            raw@ == app_state_bytes(self.height, self.hash@),
    {
        let mut raw: Vec<u8> = Vec::new();
        write_i64(&mut raw, self.height);
        write_bytes(&mut raw, self.hash.as_slice());
        raw
    }

    /// Decode a state; nothing where the bytes are no state's encoding.
    pub fn from_bytes(raw: &[u8]) -> (r: Option<AppState>)
        ensures
            r.is_some() == parse_app_state(raw@).is_some(),
            r.is_some() ==> (r.unwrap().height, r.unwrap().hash@) == parse_app_state(raw@).unwrap(),
    {
        assert(raw@.subrange(0, raw@.len() as int) == raw@);
        let (height, at_hash) = match read_i64(raw, 0) {
            Some(x) => x,
            None => { return None; },
        };
        let (hash, end) = match read_bytes(raw, at_hash) {
            Some(x) => x,
            None => { return None; },
        };
        if end != raw.len() {
            return None;
        }
        Some(AppState { height, hash })
    }
}

/// Why a proof table key could not be written or read.
#[derive(Debug, Clone, Copy, PartialEq, Eq)]
pub enum ProofTableKeyError {
    /// The index of the store does not fit in one byte.
    IndexTooLarge,
    /// The route is too long to be encoded.
    RouteTooLong,
    /// The bytes are no key's encoding.
    Malformed,
}

/// Composite key for the proof table: a module's route and the index of
/// one of its stores.
#[derive(Debug, PartialEq, Eq)]
pub struct ProofTableKey(pub String, pub u8);

/// The encoding of a proof table key: the route as a text, then the index
/// as one byte.
pub open spec fn proof_table_key_bytes(route: Seq<char>, index: u8) -> Seq<u8> {
    bytes_field(encode_utf8(route)).push(index)
}

/// The key that bytes encode, as route and index, or nothing.
pub open spec fn parse_proof_table_key(raw: Seq<u8>) -> Option<(Seq<char>, u8)> {
    match parse_bytes_field(raw) {
        Some((route, rest)) => if rest.len() == 1 && valid_utf8(route) {
            Some((decode_utf8(route), rest[0]))
        } else {
            None
        },
        None => None,
    }
}

/// Decoding an encoded key gives the key back.
pub proof fn lemma_proof_table_key_round_trip(route: Seq<char>, index: u8)
    requires
        encode_utf8(route).len() <= max_field_len(),
    ensures
        parse_proof_table_key(proof_table_key_bytes(route, index)) == Some((route, index)),
{
    let text = encode_utf8(route);
    assert(proof_table_key_bytes(route, index) == bytes_field(text) + seq![index]);
    crate::codec::lemma_parse_bytes_field(text, seq![index]);
    vstd::utf8::encode_utf8_valid_utf8(route);
    vstd::utf8::encode_utf8_decode_utf8(route);
}

impl ProofTableKey {
    /// Encode a route and the index of a store's hash into a proof table
    /// key. Fails where `index` is larger than a byte holds, or the route
    /// is too long for its length prefix.
    pub fn encode(route: &str, index: usize) -> (r: Result<Vec<u8>, ProofTableKeyError>)
        ensures
            r.is_ok() == (index <= 255 && encode_utf8(route@).len() <= max_field_len()),
            r.is_ok() ==> r.unwrap()@ == proof_table_key_bytes(route@, index as u8),
            r.is_err() ==> r.unwrap_err() == if index > 255 {
                ProofTableKeyError::IndexTooLarge
            } else {
                ProofTableKeyError::RouteTooLong
            },
    {
        if index > 255 {
            return Err(ProofTableKeyError::IndexTooLarge);
        }
        if !text_fits(route) {
            return Err(ProofTableKeyError::RouteTooLong);
        }
        let mut raw: Vec<u8> = Vec::new();
        write_bytes(&mut raw, route.as_bytes());
        raw.push(index as u8);
        Ok(raw)
    }

    /// Decode bytes into a proof table key.
    pub fn decode(raw: Vec<u8>) -> (r: Result<Self, ProofTableKeyError>)
        ensures
            r.is_ok() == parse_proof_table_key(raw@).is_some(),
            r.is_ok() ==> (r.unwrap().0@, r.unwrap().1) == parse_proof_table_key(raw@).unwrap(),
            r.is_err() ==> r.unwrap_err() == ProofTableKeyError::Malformed,
    {
        let input = raw.as_slice();
        assert(input@.subrange(0, input@.len() as int) == input@);
        let (route, next) = match read_bytes(input, 0) {
            Some(x) => x,
            None => { return Err(ProofTableKeyError::Malformed); },
        };
        if input.len() - next != 1 {
            return Err(ProofTableKeyError::Malformed);
        }
        let index: u8 = input[next];
        match string_from_utf8(route) {
            Some(route) => Ok(ProofTableKey(route, index)),
            None => Err(ProofTableKeyError::Malformed),
        }
    }
}

} // verus!
