//! The signed transaction: the envelope that carries a module's message
//! from a client to the node.
use vstd::prelude::*;
use vstd::utf8::{decode_utf8, encode_utf8, valid_utf8};
use crate::codec::{
    bytes_field, lemma_parse_bytes_field, lemma_parse_bytes_field_unique, lemma_parse_u64_field,
    lemma_parse_u64_field_unique, max_field_len, parse_bytes_field, parse_u64_field, read_bytes,
    read_u64, u64_field, write_bytes, write_u64, append_slice,
};
use crate::context::Context;
use crate::crypto::{
    ed25519_public, ed25519_signature, ed25519_valid, hash, sha256, sign, verify, Digest,
    PublicKey, SecretKey,
};
use crate::encoding::{concat, hex_encode, hex_encoding, str_bytes, string_from_utf8};
use crate::errors::RapidoError;

verus! {

/// An account identifier: opaque bytes.
pub type AccountId = Vec<u8>;

/// The five fields of a transaction as mathematical values.
pub struct TxFields {
    /// The sender's account identifier.
    pub sender: Seq<u8>,
    /// The name of the module the transaction is for.
    pub app: Seq<char>,
    /// The module's encoded message.
    pub msg: Seq<u8>,
    /// The sender's replay counter.
    pub nonce: u64,
    /// The detached signature; empty while unsigned.
    pub signature: Seq<u8>,
}

/// Whether every variable-length field is short enough for its length
/// prefix.
pub open spec fn fields_fit(f: TxFields) -> bool {
    &&& f.sender.len() <= max_field_len()
    &&& encode_utf8(f.app).len() <= max_field_len()
    &&& f.msg.len() <= max_field_len()
    &&& f.signature.len() <= max_field_len()
}

/// The wire encoding of a transaction: sender, module name, message, nonce
/// and signature, in this order.
pub open spec fn encoding(f: TxFields) -> Seq<u8> {
    bytes_field(f.sender) + bytes_field(encode_utf8(f.app)) + bytes_field(f.msg) + u64_field(
        f.nonce,
    ) + bytes_field(f.signature)
}

/// The transaction that a byte string encodes, or nothing where the bytes
/// end too early, go on too long, or name the module in ill-formed UTF-8.
pub open spec fn decoding(raw: Seq<u8>) -> Option<TxFields> {
    match parse_bytes_field(raw) {
        None => None,
        Some((sender, r1)) => match parse_bytes_field(r1) {
            None => None,
            Some((app, r2)) => match parse_bytes_field(r2) {
                None => None,
                Some((msg, r3)) => match parse_u64_field(r3) {
                    None => None,
                    Some((nonce, r4)) => match parse_bytes_field(r4) {
                        None => None,
                        Some((signature, r5)) => if r5.len() == 0 && valid_utf8(app) {
                            Some(TxFields { sender, app: decode_utf8(app), msg, nonce, signature })
                        } else {
                            None
                        },
                    },
                },
            },
        },
    }
}

/// The bytes that are hashed for signing: sender, module name, message and
/// the nonce in little-endian order. The signature is no part of them.
pub open spec fn signing_bytes(f: TxFields) -> Seq<u8> {
    f.sender + encode_utf8(f.app) + f.msg + u64_field(f.nonce)
}

/// The digest that is signed.
pub open spec fn signing_digest(f: TxFields) -> Seq<u8> {
    sha256(signing_bytes(f))
}

/// Whether the transaction carries a signature over its signing digest
/// that is valid under `public`.
pub open spec fn verifies_with(f: TxFields, public: Seq<u8>) -> bool {
    f.signature.len() == 64 && ed25519_valid(public, signing_digest(f), f.signature)
}

/// The transaction with the signature that `secret` produces over its
/// signing digest.
pub open spec fn signed_by(f: TxFields, secret: Seq<u8>) -> TxFields {
    TxFields { signature: ed25519_signature(secret, signing_digest(f)), ..f }
}

/// Decoding an encoded transaction gives the transaction back.
pub proof fn lemma_decode_encode(f: TxFields)
    requires
        fields_fit(f),
    ensures
        decoding(encoding(f)) == Some(f),
{
    let app = encode_utf8(f.app);
    let r4 = bytes_field(f.signature);
    let r3 = u64_field(f.nonce) + r4;
    let r2 = bytes_field(f.msg) + r3;
    let r1 = bytes_field(app) + r2;
    assert(encoding(f) == bytes_field(f.sender) + r1);
    lemma_parse_bytes_field(f.sender, r1);
    lemma_parse_bytes_field(app, r2);
    lemma_parse_bytes_field(f.msg, r3);
    lemma_parse_u64_field(f.nonce, r4);
    assert(r4 == r4 + Seq::<u8>::empty());
    lemma_parse_bytes_field(f.signature, Seq::<u8>::empty());
    vstd::utf8::encode_utf8_valid_utf8(f.app);
    vstd::utf8::encode_utf8_decode_utf8(f.app);
}

/// The encoding is canonical: bytes that decode to a transaction are that
/// transaction's encoding.
pub proof fn lemma_encode_decode(raw: Seq<u8>)
    requires
        decoding(raw).is_some(),
    ensures
        fields_fit(decoding(raw).unwrap()),
        encoding(decoding(raw).unwrap()) == raw,
{
    let (sender, r1) = parse_bytes_field(raw).unwrap();
    let (app, r2) = parse_bytes_field(r1).unwrap();
    let (msg, r3) = parse_bytes_field(r2).unwrap();
    let (nonce, r4) = parse_u64_field(r3).unwrap();
    let (signature, r5) = parse_bytes_field(r4).unwrap();
    lemma_parse_bytes_field_unique(raw);
    lemma_parse_bytes_field_unique(r1);
    lemma_parse_bytes_field_unique(r2);
    lemma_parse_u64_field_unique(r3);
    lemma_parse_bytes_field_unique(r4);
    vstd::utf8::decode_utf8_encode_utf8(app);
    assert(r5 == Seq::<u8>::empty());
    assert(r4 == bytes_field(signature));
    assert(raw == bytes_field(sender) + bytes_field(app) + bytes_field(msg) + u64_field(nonce)
        + bytes_field(signature));
}

/// The signing digest does not depend on the signature.
pub proof fn lemma_digest_ignores_signature(f: TxFields, signature: Seq<u8>)
    ensures
        signing_digest(TxFields { signature, ..f }) == signing_digest(f),
{
}

/// Two transactions with the same signing bytes have the same sender,
/// module name, message and nonce, provided their senders and module names
/// have the same lengths: the digest's input is the plain concatenation of
/// the four fields.
pub proof fn lemma_signing_bytes_injective(a: TxFields, b: TxFields)
    requires
        signing_bytes(a) == signing_bytes(b),
        a.sender.len() == b.sender.len(),
        encode_utf8(a.app).len() == encode_utf8(b.app).len(),
    ensures
        a.sender == b.sender,
        a.app == b.app,
        a.msg == b.msg,
        a.nonce == b.nonce,
{
    vstd::bytes::lemma_auto_spec_u64_to_from_le_bytes();
    let sa = signing_bytes(a);
    let sb = signing_bytes(b);
    let n1 = a.sender.len() as int;
    let n2 = n1 + encode_utf8(a.app).len();
    assert(u64_field(a.nonce).len() == 8 && u64_field(b.nonce).len() == 8);
    assert(sa.len() == a.sender.len() + encode_utf8(a.app).len() + a.msg.len() + 8);
    assert(sb.len() == b.sender.len() + encode_utf8(b.app).len() + b.msg.len() + 8);
    assert(a.msg.len() == b.msg.len());
    let n3 = n2 + a.msg.len();
    assert(a.sender == sa.subrange(0, n1));
    assert(b.sender == sb.subrange(0, n1));
    assert(encode_utf8(a.app) == sa.subrange(n1, n2));
    assert(encode_utf8(b.app) == sb.subrange(n1, n2));
    assert(a.msg == sa.subrange(n2, n3));
    assert(b.msg == sb.subrange(n2, n3));
    assert(u64_field(a.nonce) == sa.subrange(n3, n3 + 8));
    assert(u64_field(b.nonce) == sb.subrange(n3, n3 + 8));
    vstd::utf8::encode_utf8_decode_utf8(a.app);
    vstd::utf8::encode_utf8_decode_utf8(b.app);
    assert(vstd::bytes::spec_u64_from_le_bytes(u64_field(a.nonce)) == a.nonce);
    assert(vstd::bytes::spec_u64_from_le_bytes(u64_field(b.nonce)) == b.nonce);
}

/// SignedTransaction transports a message from a client to a module of the
/// application. It names the sender and the module, carries the module's
/// encoded message and the sender's nonce, and holds a signature over
/// these four.
#[derive(Debug, PartialEq, Eq)]
pub struct SignedTransaction {
    sender: AccountId,
    app: String,
    msg: Vec<u8>,
    nonce: u64,
    signature: Vec<u8>,
}

impl View for SignedTransaction {
    type V = TxFields;

    closed spec fn view(&self) -> TxFields {
        TxFields {
            sender: self.sender@,
            app: self.app@,
            msg: self.msg@,
            nonce: self.nonce,
            signature: self.signature@,
        }
    }
}

impl SignedTransaction {
    #[verifier::type_invariant]
    spec fn fits(&self) -> bool {
        fields_fit(self@)
    }

    /// Create a new, unsigned transaction around an encoded message.
    pub fn create(sender: AccountId, app: &str, msg: Vec<u8>, nonce: u64) -> (tx: Self)
        requires
            sender@.len() <= max_field_len(),
            encode_utf8(app@).len() <= max_field_len(),
            msg@.len() <= max_field_len(),
        ensures
            tx@ == (TxFields {
                sender: sender@,
                app: app@,
                msg: msg@,
                nonce,
                signature: Seq::<u8>::empty(),
            }),
    {
        SignedTransaction { sender, app: app.to_owned(), msg, nonce, signature: Vec::new() }
    }

    /// The name of the module the transaction is for.
    pub fn appname(&self) -> (name: &str)
        ensures
            name@ == self@.app,
    {
        self.app.as_str()
    }

    /// The sender.
    pub fn sender(&self) -> (id: AccountId)
        ensures
            id@ == self@.sender,
    {
        vstd::slice::slice_to_vec(self.sender.as_slice())
    }

    /// The nonce.
    pub fn nonce(&self) -> (n: u64)
        ensures
            n == self@.nonce,
    {
        self.nonce
    }

    /// The signature; empty while the transaction is unsigned.
    pub fn signature(&self) -> (s: Vec<u8>)
        ensures
            s@ == self@.signature,
    {
        vstd::slice::slice_to_vec(self.signature.as_slice())
    }

    /// The encoded message.
    pub fn msg(&self) -> (m: Vec<u8>)
        ensures
            m@ == self@.msg,
    {
        vstd::slice::slice_to_vec(self.msg.as_slice())
    }

    /// The transaction's fields are short enough to be encoded.
    pub(crate) fn check_fits(&self)
        ensures
            fields_fit(self@),
    {
        proof {
            use_type_invariant(self);
        }
    }

    /// Encode the transaction for the wire.
    pub fn encode(&self) -> (raw: Vec<u8>)
        ensures
            raw@ == encoding(self@),
            decoding(raw@) == Some(self@),
    {
        proof {
            use_type_invariant(self);
            lemma_decode_encode(self@);
        }
        let mut raw: Vec<u8> = Vec::new();
        write_bytes(&mut raw, self.sender.as_slice());
        write_bytes(&mut raw, self.app.as_str().as_bytes());
        write_bytes(&mut raw, self.msg.as_slice());
        write_u64(&mut raw, self.nonce);
        write_bytes(&mut raw, self.signature.as_slice());
        assert(raw@ == encoding(self@));
        raw
    }

    /// Decode a transaction from the wire. Fails with `MalformedTransaction`
    /// on bytes that are no transaction's encoding.
    pub fn decode(raw: &[u8]) -> (r: Result<Self, RapidoError>)
        ensures
            r.is_ok() == decoding(raw@).is_some(),
            r.is_ok() ==> r.unwrap()@ == decoding(raw@).unwrap(),
            r.is_err() ==> r.unwrap_err() == RapidoError::MalformedTransaction,
    {
        assert(raw@.subrange(0, raw@.len() as int) == raw@);
        let (sender, at_app) = match read_bytes(raw, 0) {
            Some(x) => x,
            None => { return Err(RapidoError::MalformedTransaction); },
        };
        let (app, at_msg) = match read_bytes(raw, at_app) {
            Some(x) => x,
            None => { return Err(RapidoError::MalformedTransaction); },
        };
        let (msg, at_nonce) = match read_bytes(raw, at_msg) {
            Some(x) => x,
            None => { return Err(RapidoError::MalformedTransaction); },
        };
        let (nonce, at_signature) = match read_u64(raw, at_nonce) {
            Some(x) => x,
            None => { return Err(RapidoError::MalformedTransaction); },
        };
        let (signature, end) = match read_bytes(raw, at_signature) {
            Some(x) => x,
            None => { return Err(RapidoError::MalformedTransaction); },
        };
        if end != raw.len() {
            return Err(RapidoError::MalformedTransaction);
        }
        let ghost app_bytes = app@;
        let name = match string_from_utf8(app) {
            Some(s) => s,
            None => { return Err(RapidoError::MalformedTransaction); },
        };
        proof {
            lemma_encode_decode(raw@);
            vstd::utf8::decode_utf8_encode_utf8(app_bytes);
        }
        Ok(SignedTransaction { sender, app: name, msg, nonce, signature })
    }

    /// The digest that is signed: the hash of sender, module name, message
    /// and nonce.
    pub fn hash(&self) -> (h: Digest)
        ensures
            h@ == signing_digest(self@),
    {
        let mut contents: Vec<u8> = Vec::new();
        append_slice(&mut contents, self.sender.as_slice());
        append_slice(&mut contents, self.app.as_str().as_bytes());
        append_slice(&mut contents, self.msg.as_slice());
        write_u64(&mut contents, self.nonce);
        assert(contents@ == signing_bytes(self@));
        hash(contents.as_slice())
    }

    /// Sign the transaction. Afterwards it carries the signature of
    /// `private_key` over its signing digest, and verifies under the public
    /// key that belongs to `private_key`.
    pub fn sign(&mut self, private_key: &SecretKey)
        ensures
            final(self)@ == signed_by(old(self)@, private_key@),
            verifies_with(final(self)@, ed25519_public(private_key@)),
    {
        proof {
            use_type_invariant(&*self);
        }
        let digest = self.hash().to_vec();
        let signature = sign(digest.as_slice(), private_key);
        self.signature = signature;
    }

    /// Convert the transaction to the context that a module's handler sees.
    pub fn into_context(&self) -> (ctx: Context)
        ensures
            ctx.spec_sender() == self@.sender,
            ctx.spec_msg() == self@.msg,
            ctx.spec_appname() == self@.app,
            ctx.spec_events() == Seq::<crate::context::EventModel>::empty(),
    {
        Context::new(self)
    }

    /// The encoded transaction as hexadecimal text with the prefix `0x`.
    pub fn to_hex(&self) -> (text: String)
        ensures
            text@ == "0x"@ + hex_encoding(encoding(self@)),
    {
        let raw = self.encode();
        let digits = hex_encode(raw.as_slice());
        concat("0x", digits.as_str())
    }
}

impl Clone for SignedTransaction {
    fn clone(&self) -> (tx: Self)
        ensures
            tx@ == self@,
    {
        proof {
            use_type_invariant(self);
        }
        SignedTransaction {
            sender: self.sender(),
            app: self.app.clone(),
            msg: self.msg(),
            nonce: self.nonce,
            signature: self.signature(),
        }
    }
}

/// Sign a transaction.
pub fn sign_transaction(tx: &mut SignedTransaction, private_key: &SecretKey)
    ensures
        final(tx)@ == signed_by(old(tx)@, private_key@),
        verifies_with(final(tx)@, ed25519_public(private_key@)),
{
    tx.sign(private_key)
}

/// Verify a transaction's signature under a public key. A signature that
/// is not 64 bytes long never verifies.
pub fn verify_tx_signature(tx: &SignedTransaction, public_key: &PublicKey) -> (ok: bool)
    ensures
        ok == verifies_with(tx@, public_key@),
{
    let digest = tx.hash().to_vec();
    verify(tx.signature.as_slice(), digest.as_slice(), public_key)
}

} // verus!
