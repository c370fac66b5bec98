//! Text encodings of byte strings.
//!
//! Hexadecimal text is produced and read by the `hex` crate; what it
//! returns is stated here digit by digit.
use vstd::prelude::*;

verus! {

/// The lower-case hexadecimal digit for a value below sixteen.
pub open spec fn hex_digit(n: int) -> char {
    if n < 10 {
        ((48 + n) as u8) as char
    } else {
        ((87 + n) as u8) as char
    }
}

/// Hexadecimal text of a byte string: two lower-case digits per byte, the
/// high half first.
pub open spec fn hex_encoding(data: Seq<u8>) -> Seq<char> {
    Seq::new(
        2 * data.len(),
        |i: int|
            if i % 2 == 0 {
                hex_digit(data[i / 2] as int / 16)
            } else {
                hex_digit(data[i / 2] as int % 16)
            },
    )
}

/// The value of one hexadecimal digit given as an ASCII byte, in either
/// case; nothing for any other byte.
pub open spec fn hex_value(c: u8) -> Option<int> {
    if 48 <= c <= 57 {
        Some(c - 48)
    } else if 97 <= c <= 102 {
        Some(c - 87)
    } else if 65 <= c <= 70 {
        Some(c - 55)
    } else {
        None
    }
}

/// Whether a text, given by its bytes, is an even number of hexadecimal
/// digits.
pub open spec fn is_hex_text(text: Seq<u8>) -> bool {
    &&& text.len() % 2 == 0
    &&& forall|i: int| 0 <= i < text.len() ==> (#[trigger] hex_value(text[i])).is_some()
}

/// The bytes that a hexadecimal text stands for.
pub open spec fn hex_decoding(text: Seq<u8>) -> Seq<u8> {
    Seq::new(
        text.len() / 2,
        |i: int| (hex_value(text[2 * i]).unwrap() * 16 + hex_value(text[2 * i + 1]).unwrap()) as u8,
    )
}

/// The base-58 text of a byte string in the Bitcoin alphabet.
pub uninterp spec fn base58_text(data: Seq<u8>) -> Seq<char>;

/// The base-64 text of a byte string in the standard alphabet, padded.
pub uninterp spec fn base64_text(data: Seq<u8>) -> Seq<char>;

/// Lower-case hexadecimal text of a number, without leading zeros.
pub open spec fn lower_hex(n: nat) -> Seq<char>
    decreases n,
{
    if n < 16 {
        seq![hex_digit(n as int)]
    } else {
        lower_hex(n / 16).push(hex_digit((n % 16) as int))
    }
}

/// Decimal text of a number, without leading zeros.
pub open spec fn decimal(n: nat) -> Seq<char>
    decreases n,
{
    if n < 10 {
        seq![((48 + n) as u8) as char]
    } else {
        decimal(n / 10).push(((48 + n % 10) as u8) as char)
    }
}

/// Formats with `{}`. Trusted: the text is the number in decimal digits
/// without leading zeros.
#[verifier::external_body]
pub(crate) fn format_decimal(n: u16) -> (text: String)
    ensures
        text@ == decimal(n as nat),
{
    format!("{}", n)
}

/// Calls `bs58::encode` and `into_string`. Trusted: the result is the
/// base-58 text of the input, a function of the input bytes alone.
#[verifier::external_body]
pub(crate) fn base58_encode(data: &[u8]) -> (text: String)
    ensures
        text@ == base58_text(data@),
{
    bs58::encode(data).into_string()
}

/// Calls `base64::encode`. Trusted: the result is the base-64 text of the
/// input, a function of the input bytes alone.
#[verifier::external_body]
pub(crate) fn base64_encode(data: &[u8]) -> (text: String)
    ensures
        text@ == base64_text(data@),
{
    base64::encode(data)
}

/// Formats with `{:x}`. Trusted: the text is the number in lower-case
/// hexadecimal digits without leading zeros.
#[verifier::external_body]
pub(crate) fn format_lower_hex(n: u16) -> (text: String)
    ensures
        text@ == lower_hex(n as nat),
{
    format!("{:x}", n)
}

/// Calls `hex::encode`. Trusted: the text holds two lower-case hexadecimal
/// digits for each byte, in order.
#[verifier::external_body]
pub(crate) fn hex_encode(data: &[u8]) -> (text: String)
    ensures
        text@ == hex_encoding(data@),
{
    hex::encode(data)
}

/// Calls `hex::decode`. Trusted: it succeeds exactly on an even number of
/// hexadecimal digits of either case, and then returns the bytes they
/// stand for.
#[verifier::external_body]
pub(crate) fn hex_decode(text: &str) -> (r: Option<Vec<u8>>)
    ensures
        r.is_some() == is_hex_text(vstd::utf8::encode_utf8(text@)),
        r.is_some() ==> r.unwrap()@ == hex_decoding(vstd::utf8::encode_utf8(text@)),
{
    hex::decode(text).ok()
}

/// A text takes at most four bytes for each of its characters.
pub proof fn lemma_utf8_len(text: Seq<char>)
    ensures
        vstd::utf8::encode_utf8(text).len() <= 4 * text.len(),
    decreases text.len(),
{
    if text.len() > 0 {
        lemma_utf8_len(text.drop_first());
    }
}

/// Whether a text is short enough for a four-byte length prefix.
pub fn text_fits(text: &str) -> (r: bool)
    ensures
        r == (vstd::utf8::encode_utf8(text@).len() <= 0xffff_ffff),
{
    let n: usize = text.as_bytes().len();
    (n as u64) <= 0xffff_ffff
}

/// Whether a byte string is short enough for a four-byte length prefix.
pub fn bytes_fit(data: &[u8]) -> (r: bool)
    ensures
        r == (data@.len() <= 0xffff_ffff),
{
    let n: usize = data.len();
    (n as u64) <= 0xffff_ffff
}

/// Calls `String::from_utf8`. Trusted: it succeeds exactly on well-formed
/// UTF-8, and then returns the text that the bytes encode.
#[verifier::external_body]
pub(crate) fn string_from_utf8(bytes: Vec<u8>) -> (r: Option<String>)
    ensures
        r.is_some() == vstd::utf8::valid_utf8(bytes@),
        r.is_some() ==> r.unwrap()@ == vstd::utf8::decode_utf8(bytes@),
{
    String::from_utf8(bytes).ok()
}

/// Calls `String::push_str`. Trusted: the text is appended to the string.
#[verifier::external_body]
pub(crate) fn push_str(target: &mut String, text: &str)
    ensures
        final(target)@ == old(target)@ + text@,
{
    target.push_str(text)
}

/// The text made of `a` followed by `b`.
pub fn concat(a: &str, b: &str) -> (out: String)
    ensures
        out@ == a@ + b@,
{
    let mut out: String = a.to_owned();
    push_str(&mut out, b);
    out
}

/// The bytes of a text as a vector.
pub fn str_bytes(text: &str) -> (out: Vec<u8>)
    ensures
        out@ == vstd::utf8::encode_utf8(text@),
{
    vstd::slice::slice_to_vec(text.as_bytes())
}

} // verus!
