//! Decentralised identifiers derived from public keys.
use vstd::prelude::*;
use vstd::utf8::{encode_utf8, is_continuation_byte};
use crate::crypto::{hash, sha256, PublicKey};
use crate::encoding::{base58_text, base58_encode, concat};
use crate::router::{index_of_byte, lemma_index_of_byte};

verus! {

/// A public key listed in a DID document.
pub struct DidPubKey {
    /// The key's identifier within the document.
    pub id: String,
    /// The kind of key.
    pub ktype: String,
    /// The key's bytes.
    pub key: Vec<u8>,
}

/// A service endpoint listed in a DID document.
pub struct DidService {
    /// The service's identifier within the document.
    pub id: String,
    /// The kind of service.
    pub stype: String,
    /// Where the service is reached.
    pub endpoint: String,
}

/// A DID document: the identifier with its keys, services and the keys
/// that may authenticate for it.
pub struct DidDocument {
    /// The identifier the document is about.
    pub id: String,
    /// The public keys.
    pub keys: Vec<DidPubKey>,
    /// The service endpoints.
    pub services: Vec<DidService>,
    /// The identifiers of the keys that may authenticate.
    pub authenticate: Vec<String>,
}

/// Why a DID names no authentication key.
#[derive(Debug, Clone, Copy, PartialEq, Eq)]
pub enum DidError {
    /// There is no `#`, or nothing follows it.
    NoKeyId,
    /// There is more than one `#`.
    ManyKeyIds,
}

/// The identifier of a public key: the hash of the key in base 58, after
/// the prefix `did:rapido:`.
pub fn generate_did(pk: PublicKey) -> (did: String)
    ensures
        did@ == "did:rapido:"@ + base58_text(sha256(pk@)),
{
    let key = pk.to_vec();
    let digest = hash(key.as_slice()).to_vec();
    let identifier = base58_encode(digest.as_slice());
    concat("did:rapido:", identifier.as_str())
}

/// The key identifier that the bytes of a DID name: what stands from the
/// only `#` on, where there is exactly one `#` and something follows it.
pub open spec fn key_id(did: Seq<u8>) -> Result<Seq<u8>, DidError> {
    match index_of_byte(did, 0x23) {
        None => Err(DidError::NoKeyId),
        Some(i) => {
            let tail = did.subrange(i + 1, did.len() as int);
            if index_of_byte(tail, 0x23).is_some() {
                Err(DidError::ManyKeyIds)
            } else if tail.len() == 0 {
                Err(DidError::NoKeyId)
            } else {
                Ok(did.subrange(i, did.len() as int))
            }
        },
    }
}

/// Parse the key identifier from a DID: given
/// `did:rapido:CqXbDhD4tLYqmJ9r6w1U76VcEwHp1gzeESsdFJ6H3Mgw#1234` it
/// returns `#1234`.
pub fn parse_authentication_key(did: String) -> (r: Result<String, DidError>)
    ensures
        r.is_ok() == key_id(encode_utf8(did@)).is_ok(),
        r.is_ok() ==> encode_utf8(r.unwrap()@) == key_id(encode_utf8(did@)).unwrap(),
        r.is_err() ==> r.unwrap_err() == key_id(encode_utf8(did@))->Err_0,
{
    let text = did.as_str();
    let bytes = text.as_bytes();
    let n: usize = bytes.len();
    proof {
        lemma_index_of_byte(bytes@, 0x23);
        vstd::utf8::encode_utf8_valid_utf8(did@);
    }
    let mut i: usize = 0;
    while i < n && bytes[i] != 0x23
        invariant
            i <= n,
            n == bytes@.len(),
            forall|j: int| 0 <= j < i ==> bytes@[j] != 0x23,
        decreases n - i,
    {
        i = i + 1;
    }
    if i == n {
        return Err(DidError::NoKeyId);
    }
    let ghost tail = bytes@.subrange(i + 1, n as int);
    proof {
        lemma_index_of_byte(tail, 0x23);
    }
    let mut j: usize = i + 1;
    while j < n && bytes[j] != 0x23
        invariant
            i < j <= n,
            n == bytes@.len(),
            tail == bytes@.subrange(i + 1, n as int),
            forall|k: int| 0 <= k < j - i - 1 ==> tail[k] != 0x23,
        decreases n - j,
    {
        assert(tail[j - i - 1] == bytes@[j as int]);
        j = j + 1;
    }
    if j < n {
        assert(tail[j - i - 1] == bytes@[j as int]);
        return Err(DidError::ManyKeyIds);
    }
    if i + 1 == n {
        return Err(DidError::NoKeyId);
    }
    proof {
        let b: u8 = 0x23;
        assert(!is_continuation_byte(b)) by {
            assert(b & 0xC0 != 0x80) by (bit_vector)
                requires
                    b == 0x23,
            ;
        }
        vstd::utf8::is_char_boundary_iff_not_is_continuation_byte(bytes@, i as int);
    }
    let (_, keyid) = text.split_at(i);
    Ok(keyid.to_owned())
}

} // verus!
