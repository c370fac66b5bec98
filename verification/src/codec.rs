//! The deterministic binary encoding of records.
//!
//! A record is its fields in order. An integer is written little-endian in
//! its full width; a byte string or a text is written as its length in
//! four little-endian bytes followed by its bytes. Equal values always
//! give equal bytes, and reading gives back what was written.
use vstd::prelude::*;
use vstd::bytes::{
    lemma_auto_spec_u32_to_from_le_bytes, lemma_auto_spec_u64_to_from_le_bytes,
    spec_u32_from_le_bytes, spec_u32_to_le_bytes, spec_u64_from_le_bytes, spec_u64_to_le_bytes,
    u32_from_le_bytes, u32_to_le_bytes, u64_from_le_bytes, u64_to_le_bytes,
};
use vstd::slice::slice_subrange;

verus! {

/// The largest length that a length prefix can hold.
pub open spec fn max_field_len() -> int {
    0xffff_ffff
}

/// The encoding of a byte string: its length, then its bytes.
pub open spec fn bytes_field(data: Seq<u8>) -> Seq<u8> {
    spec_u32_to_le_bytes(data.len() as u32) + data
}

/// The encoding of an unsigned 64-bit integer.
pub open spec fn u64_field(value: u64) -> Seq<u8> {
    spec_u64_to_le_bytes(value)
}

/// The encoding of a signed 64-bit integer: its two's complement bits.
pub open spec fn i64_field(value: i64) -> Seq<u8> {
    spec_u64_to_le_bytes(value as u64)
}

/// Reads a byte string from the front of `input`: the string and what
/// follows it, or nothing where `input` ends too early.
pub open spec fn parse_bytes_field(input: Seq<u8>) -> Option<(Seq<u8>, Seq<u8>)> {
    if input.len() < 4 {
        None
    } else {
        let n = spec_u32_from_le_bytes(input.subrange(0, 4)) as int;
        if input.len() - 4 < n {
            None
        } else {
            Some((input.subrange(4, 4 + n), input.subrange(4 + n, input.len() as int)))
        }
    }
}

/// Reads an unsigned 64-bit integer from the front of `input`.
pub open spec fn parse_u64_field(input: Seq<u8>) -> Option<(u64, Seq<u8>)> {
    if input.len() < 8 {
        None
    } else {
        Some((spec_u64_from_le_bytes(input.subrange(0, 8)), input.subrange(8, input.len() as int)))
    }
}

/// Reads a signed 64-bit integer from the front of `input`.
pub open spec fn parse_i64_field(input: Seq<u8>) -> Option<(i64, Seq<u8>)> {
    match parse_u64_field(input) {
        Some((bits, rest)) => Some((bits as i64, rest)),
        None => None,
    }
}

/// Reading a written byte string gives the string back, and leaves what
/// was written after it.
pub proof fn lemma_parse_bytes_field(data: Seq<u8>, rest: Seq<u8>)
    requires
        data.len() <= max_field_len(),
    ensures
        parse_bytes_field(bytes_field(data) + rest) == Some((data, rest)),
{
    lemma_auto_spec_u32_to_from_le_bytes();
    let input = bytes_field(data) + rest;
    let n = data.len() as u32;
    assert(input.subrange(0, 4) == spec_u32_to_le_bytes(n));
    assert(input.subrange(4, 4 + n as int) == data);
    assert(input.subrange(4 + n as int, input.len() as int) == rest);
}

/// Whatever reads as a byte string is the encoding of that string,
/// followed by the rest.
pub proof fn lemma_parse_bytes_field_unique(input: Seq<u8>)
    requires
        parse_bytes_field(input).is_some(),
    ensures
        parse_bytes_field(input).unwrap().0.len() <= max_field_len(),
        input == bytes_field(parse_bytes_field(input).unwrap().0) + parse_bytes_field(
            input,
        ).unwrap().1,
{
    lemma_auto_spec_u32_to_from_le_bytes();
    let (data, rest) = parse_bytes_field(input).unwrap();
    let head = input.subrange(0, 4);
    assert(spec_u32_to_le_bytes(spec_u32_from_le_bytes(head)) == head);
    assert(input == head + data + rest);
}

/// Reading a written unsigned integer gives the integer back.
pub proof fn lemma_parse_u64_field(value: u64, rest: Seq<u8>)
    ensures
        parse_u64_field(u64_field(value) + rest) == Some((value, rest)),
{
    lemma_auto_spec_u64_to_from_le_bytes();
    let input = u64_field(value) + rest;
    assert(input.subrange(0, 8) == spec_u64_to_le_bytes(value));
    assert(input.subrange(8, input.len() as int) == rest);
}

/// Whatever reads as an unsigned integer is the encoding of that integer,
/// followed by the rest.
pub proof fn lemma_parse_u64_field_unique(input: Seq<u8>)
    requires
        parse_u64_field(input).is_some(),
    ensures
        input == u64_field(parse_u64_field(input).unwrap().0) + parse_u64_field(input).unwrap().1,
{
    lemma_auto_spec_u64_to_from_le_bytes();
    let head = input.subrange(0, 8);
    assert(spec_u64_to_le_bytes(spec_u64_from_le_bytes(head)) == head);
    assert(input == head + input.subrange(8, input.len() as int));
}

/// Reading a written signed integer gives the integer back.
pub proof fn lemma_parse_i64_field(value: i64, rest: Seq<u8>)
    ensures
        parse_i64_field(i64_field(value) + rest) == Some((value, rest)),
{
    lemma_parse_u64_field(value as u64, rest);
    assert((value as u64) as i64 == value) by (bit_vector);
}

/// Appends the bytes of a slice to a vector.
pub fn append_slice(out: &mut Vec<u8>, data: &[u8])
    ensures
        final(out)@ == old(out)@ + data@,
{
    let mut i: usize = 0;
    while i < data.len()
        invariant
            i <= data@.len(),
            out@ == old(out)@ + data@.subrange(0, i as int),
        decreases data@.len() - i,
    {
        out.push(data[i]);
        i = i + 1;
    }
    assert(data@.subrange(0, data@.len() as int) == data@);
}

/// Appends the encoding of a byte string.
pub fn write_bytes(out: &mut Vec<u8>, data: &[u8])
    requires
        data@.len() <= max_field_len(),
    ensures
        final(out)@ == old(out)@ + bytes_field(data@),
{
    let n: u32 = data.len() as u32;
    let head = u32_to_le_bytes(n);
    append_slice(out, head.as_slice());
    append_slice(out, data);
    assert(out@ == old(out)@ + bytes_field(data@));
}

/// Appends the encoding of an unsigned 64-bit integer.
pub fn write_u64(out: &mut Vec<u8>, value: u64)
    ensures
        final(out)@ == old(out)@ + u64_field(value),
{
    let bytes = u64_to_le_bytes(value);
    append_slice(out, bytes.as_slice());
}

/// Appends the encoding of a signed 64-bit integer.
pub fn write_i64(out: &mut Vec<u8>, value: i64)
    ensures
        final(out)@ == old(out)@ + i64_field(value),
{
    write_u64(out, value as u64);
}

/// Reads a byte string that starts at `pos`, and gives it with the
/// position that follows it.
pub fn read_bytes(input: &[u8], pos: usize) -> (r: Option<(Vec<u8>, usize)>)
    requires
        pos <= input@.len(),
    ensures
        r.is_some() == parse_bytes_field(input@.subrange(pos as int, input@.len() as int)).is_some(),
        r.is_some() ==> {
            let (data, next) = r.unwrap();
            let (want, rest) = parse_bytes_field(
                input@.subrange(pos as int, input@.len() as int),
            ).unwrap();
            &&& data@ == want
            &&& pos <= next <= input@.len()
            &&& input@.subrange(next as int, input@.len() as int) == rest
        },
{
    let ghost tail = input@.subrange(pos as int, input@.len() as int);
    let len: usize = input.len();
    if len - pos < 4 {
        return None;
    }
    let head = slice_subrange(input, pos, pos + 4);
    assert(head@ == tail.subrange(0, 4));
    let n: u32 = u32_from_le_bytes(head);
    let start: usize = pos + 4;
    if ((len - start) as u64) < (n as u64) {
        return None;
    }
    let count: usize = n as usize;
    let body = slice_subrange(input, start, start + count);
    let mut data: Vec<u8> = Vec::new();
    append_slice(&mut data, body);
    assert(data@ == tail.subrange(4, 4 + n as int));
    assert(input@.subrange((start + count) as int, input@.len() as int) == tail.subrange(
        4 + n as int,
        tail.len() as int,
    ));
    Some((data, start + count))
}

/// Reads an unsigned 64-bit integer that starts at `pos`, and gives it
/// with the position that follows it.
pub fn read_u64(input: &[u8], pos: usize) -> (r: Option<(u64, usize)>)
    requires
        pos <= input@.len(),
    ensures
        r.is_some() == parse_u64_field(input@.subrange(pos as int, input@.len() as int)).is_some(),
        r.is_some() ==> {
            let (value, next) = r.unwrap();
            let (want, rest) = parse_u64_field(
                input@.subrange(pos as int, input@.len() as int),
            ).unwrap();
            &&& value == want
            &&& pos <= next <= input@.len()
            &&& input@.subrange(next as int, input@.len() as int) == rest
        },
{
    let ghost tail = input@.subrange(pos as int, input@.len() as int);
    let len: usize = input.len();
    if len - pos < 8 {
        return None;
    }
    let head = slice_subrange(input, pos, pos + 8);
    assert(head@ == tail.subrange(0, 8));
    let value: u64 = u64_from_le_bytes(head);
    assert(input@.subrange((pos + 8) as int, input@.len() as int) == tail.subrange(
        8,
        tail.len() as int,
    ));
    Some((value, pos + 8))
}

/// Reads a signed 64-bit integer that starts at `pos`, and gives it with
/// the position that follows it.
pub fn read_i64(input: &[u8], pos: usize) -> (r: Option<(i64, usize)>)
    requires
        pos <= input@.len(),
    ensures
        r.is_some() == parse_i64_field(input@.subrange(pos as int, input@.len() as int)).is_some(),
        r.is_some() ==> {
            let (value, next) = r.unwrap();
            let (want, rest) = parse_i64_field(
                input@.subrange(pos as int, input@.len() as int),
            ).unwrap();
            &&& value == want
            &&& pos <= next <= input@.len()
            &&& input@.subrange(next as int, input@.len() as int) == rest
        },
{
    match read_u64(input, pos) {
        Some((bits, next)) => Some((bits as i64, next)),
        None => None,
    }
}

} // verus!
