//! Fixed-size account identifiers.
use vstd::prelude::*;
use crate::crypto::Digest;
use crate::encoding::{hex_decode, hex_decoding, hex_encode, hex_encoding, is_hex_text};

verus! {

/// Size of an account address in bytes.
pub const ACCT_ADDRESS_LENGTH: usize = 32;

/// Why bytes or text could not be read as an account address.
#[derive(Debug, PartialEq, Eq)]
pub enum AddressError {
    /// The bytes are not exactly `ACCT_ADDRESS_LENGTH` long.
    InvalidLength,
    /// The text is not an even number of hexadecimal digits.
    InvalidHex,
}

/// What reading an account address gives.
pub type AccountAddressResult = Result<AccountAddress, AddressError>;

/// A container for unique account identifiers: anything that fits into
/// 32 bytes.
#[derive(Clone, Copy, Debug, PartialEq, Eq)]
pub struct AccountAddress {
    bytes: [u8; 32],
}

impl View for AccountAddress {
    type V = Seq<u8>;

    closed spec fn view(&self) -> Seq<u8> {
        self.bytes@
    }
}

impl AccountAddress {
    /// Create a new address from its 32 bytes.
    pub fn new(address: [u8; 32]) -> (a: Self)
        ensures
            a@ == address@,
    {
        AccountAddress { bytes: address }
    }

    /// The address as a vector of its 32 bytes.
    pub fn to_vec(&self) -> (out: Vec<u8>)
        ensures
            out@ == self@,
            out@.len() == 32,
    {
        let h = Digest::new(self.bytes);
        h.to_vec()
    }

    /// The number of bytes an address takes as a storage key.
    pub fn size(&self) -> (n: usize)
        ensures
            n == 32,
    {
        ACCT_ADDRESS_LENGTH
    }

    /// Write the address to the front of `buffer` and return how many bytes
    /// were written. The rest of the buffer is left as it was.
    pub fn write(&self, buffer: &mut Vec<u8>) -> (n: usize)
        requires
            old(buffer)@.len() >= 32,
        ensures
            n == 32,
            final(buffer)@ == self@ + old(buffer)@.subrange(32, old(buffer)@.len() as int),
    {
        let mut i: usize = 0;
        while i < 32
            invariant
                i <= 32,
                buffer@.len() == old(buffer)@.len(),
                buffer@.len() >= 32,
                forall|j: int| 0 <= j < i ==> buffer@[j] == self.bytes@[j],
                forall|j: int| i <= j < buffer@.len() ==> buffer@[j] == old(buffer)@[j],
            decreases 32 - i,
        {
            buffer.set(i, self.bytes[i]);
            i = i + 1;
        }
        assert(buffer@ =~= self@ + old(buffer)@.subrange(32, old(buffer)@.len() as int));
        32
    }

    /// Read an address back from exactly 32 bytes of storage key.
    pub fn read(buffer: &[u8]) -> (a: Self)
        requires
            buffer@.len() == 32,
        ensures
            a@ == buffer@,
    {
        let h = Digest::from_slice(buffer).unwrap();
        h.to_address()
    }

    /// The digest that names this address in a merkelized map: the address
    /// bytes themselves.
    pub fn object_hash(&self) -> (h: Digest)
        ensures
            h@ == self@,
    {
        Digest::new(self.bytes)
    }

    /// Read an address from bytes; `InvalidLength` unless there are exactly 32.
    pub fn try_from(bytes: &[u8]) -> (r: AccountAddressResult)
        ensures
            r.is_ok() == (bytes@.len() == 32),
            r.is_ok() ==> r.unwrap()@ == bytes@,
            r.is_err() ==> r.unwrap_err() == AddressError::InvalidLength,
    {
        match Digest::from_slice(bytes) {
            Some(h) => Ok(h.to_address()),
            None => Err(AddressError::InvalidLength),
        }
    }

    /// The address as lower-case hexadecimal text.
    pub fn to_hex(&self) -> (text: String)
        ensures
            text@ == hex_encoding(self@),
    {
        let v = self.to_vec();
        hex_encode(v.as_slice())
    }

    /// Read an address from hexadecimal text: `InvalidHex` unless the text is
    /// an even number of hexadecimal digits, `InvalidLength` unless they
    /// stand for exactly 32 bytes.
    pub fn from_str(s: &str) -> (r: AccountAddressResult)
        requires
            s@.len() > 0,
        ensures
            r.is_ok() == (is_hex_text(vstd::utf8::encode_utf8(s@)) && vstd::utf8::encode_utf8(
                s@,
            ).len() == 64),
            r.is_ok() ==> r.unwrap()@ == hex_decoding(vstd::utf8::encode_utf8(s@)),
            r.is_err() ==> (r.unwrap_err() == AddressError::InvalidHex) == !is_hex_text(
                vstd::utf8::encode_utf8(s@),
            ),
    {
        match hex_decode(s) {
            Some(bytes) => AccountAddress::try_from(bytes.as_slice()),
            None => Err(AddressError::InvalidHex),
        }
    }

    /// Whether two addresses hold the same bytes.
    pub fn same(&self, other: &AccountAddress) -> (r: bool)
        ensures
            r == (self@ == other@),
    {
        Digest::new(self.bytes).same(&Digest::new(other.bytes))
    }
}

} // verus!
