//! The wire encoding of values: what each type writes and reads.
use vstd::prelude::*;
use vstd::utf8::*;
use crate::error::IoError;
use crate::text::{utf16_count, utf16_units};
use crate::varint::{scan_varint, varint_bytes, varint_decode, varint_scan, varint_value, VarInt, VarIntScan};

verus! {

broadcast use vstd::utf8::encode_utf8_valid_utf8, vstd::utf8::encode_utf8_decode_utf8;

/// The longest string, in UTF-16 code units, that the protocol carries.
pub const MAX_STRING_LENGTH: usize = 32767;

/// Appends the bytes of `s` to `out`.
pub fn append_slice(out: &mut Vec<u8>, s: &[u8])
    ensures
        final(out)@ == old(out)@ + s@,
{
    let mut i: usize = 0;
    while i < s.len()
        invariant
            i <= s@.len(),
            out@ == old(out)@ + s@.take(i as int),
        decreases s@.len() - i,
    {
        assert(s@.take(i as int + 1) =~= s@.take(i as int).push(s@[i as int]));
        out.push(s[i]);
        i = i + 1;
    }
    assert(s@.take(s@.len() as int) =~= s@);
}

/// The bytes of `input` from `start` to `end`, as a vector.
pub fn copy_range(input: &[u8], start: usize, end: usize) -> (r: Vec<u8>)
    requires
        start <= end <= input@.len(),
    ensures
        r@ == input@.subrange(start as int, end as int),
{
    let mut out: Vec<u8> = Vec::new();
    let mut i: usize = start;
    while i < end
        invariant
            start <= i <= end <= input@.len(),
            out@ == input@.subrange(start as int, i as int),
        decreases end - i,
    {
        assert(input@.subrange(start as int, i + 1) =~= input@.subrange(start as int, i as int).push(input@[i as int]));
        out.push(input[i]);
        i = i + 1;
    }
    out
}

/// `String::from_utf8` of std: per its documentation the bytes become a
/// string exactly when they are valid UTF-8; the string then holds the
/// characters they encode.
#[verifier::external_body]
pub(crate) fn string_from_utf8(bytes: Vec<u8>) -> (r: Option<String>)
    ensures
        r is Some <==> valid_utf8(bytes@),
        r matches Some(s) ==> s@ == decode_utf8(bytes@),
{
    String::from_utf8(bytes).ok()
}

/// The encoding of a string: its UTF-8 byte length as a variable-length
/// integer, then its UTF-8 bytes; `None` where it is longer than `max`
/// UTF-16 code units.
pub open spec fn string_encoding(s: Seq<char>, max: nat) -> Option<Seq<u8>> {
    if utf16_units(s) > max {
        None
    } else {
        Some(varint_bytes(((encode_utf8(s).len() as usize) as i32) as u32) + encode_utf8(s))
    }
}

/// Writes `s` with its length prefix to `writer`, unless it is longer than
/// `max_utf16` UTF-16 code units, which is `InvalidInput` and writes nothing.
pub fn serialize_string_with_max(s: &str, writer: &mut Vec<u8>, max_utf16: usize) -> (r: Result<(), IoError>)
    ensures
        match string_encoding(s@, max_utf16 as nat) {
            Some(b) => r == Ok::<(), IoError>(()) && final(writer)@ == old(writer)@ + b,
            None => r == Err::<(), IoError>(IoError::InvalidInput) && final(writer)@ == old(writer)@,
        },
{
    let utf16_len = utf16_count(s);
    if utf16_len > max_utf16 {
        return Err(IoError::InvalidInput);
    }
    VarInt::new(s.len() as i32).write_sync(writer);
    append_slice(writer, s.as_bytes());
    Ok(())
}

/// Whether reading a string from the start of `input` would ask for a
/// negative number of bytes, on which the read does not return.
pub open spec fn string_decode_aborts(input: Seq<u8>) -> bool {
    varint_decode(input) matches Some((v, _)) && v < 0
}

/// What reading a string from the start of `input` gives: the characters and
/// the number of bytes taken, or the kind of failure.
pub open spec fn string_decode(input: Seq<u8>, max: nat) -> Result<(Seq<char>, nat), IoError> {
    match varint_scan(input, 0) {
        VarIntScan::Truncated => Err(IoError::UnexpectedEof),
        VarIntScan::TooLong => Err(IoError::InvalidData),
        VarIntScan::Complete(n) => {
            let len = varint_value(input, n) as nat;
            let bytes = input.subrange(n as int, (n + len) as int);
            if n + len > input.len() {
                Err(IoError::UnexpectedEof)
            } else if !valid_utf8(bytes) {
                Err(IoError::InvalidData)
            } else if utf16_units(decode_utf8(bytes)) > max {
                Err(IoError::InvalidInput)
            } else {
                Ok((decode_utf8(bytes), n + len))
            }
        },
    }
}

/// Reads a length-prefixed UTF-8 string from the start of `input`, of at
/// most `max_utf16` UTF-16 code units; gives it and the bytes taken.
pub fn deserialize_string_with_max(input: &[u8], max_utf16: usize) -> (r: Result<(String, usize), IoError>)
    requires
        !string_decode_aborts(input@),
    ensures
        match string_decode(input@, max_utf16 as nat) {
            Ok((s, n)) => r matches Ok((t, m)) && t@ == s && m == n,
            Err(e) => r == Err::<(String, usize), IoError>(e),
        },
{
    let (value, n) = match scan_varint(input) {
        Ok(p) => p,
        Err(e) => return Err(e),
    };
    let len = value as usize;
    if len > input.len() - n {
        return Err(IoError::UnexpectedEof);
    }
    let buf = copy_range(input, n, n + len);
    let s = match string_from_utf8(buf) {
        Some(s) => s,
        None => return Err(IoError::InvalidData),
    };
    let utf16_len = utf16_count(s.as_str());
    if utf16_len > max_utf16 {
        return Err(IoError::InvalidInput);
    }
    Ok((s, n + len))
}

/// A string written within the limit reads back as itself, whatever
/// follows it, taking the bytes it was written in.
pub proof fn lemma_string_roundtrip(s: Seq<char>, max: nat, rest: Seq<u8>)
    requires
        utf16_units(s) <= max,
        encode_utf8(s).len() < 0x8000_0000,
    ensures
        string_encoding(s, max) is Some,
        string_decode(string_encoding(s, max).unwrap() + rest, max)
            == Ok::<(Seq<char>, nat), IoError>((s, string_encoding(s, max).unwrap().len())),
{
    let b = encode_utf8(s);
    let len = b.len() as i32;
    assert(len as u32 == ((b.len() as usize) as i32) as u32);
    let input = string_encoding(s, max).unwrap() + rest;
    crate::varint::lemma_varint_roundtrip(len, b + rest);
    assert(input =~= varint_bytes(len as u32) + (b + rest));
    let k = varint_bytes(len as u32).len();
    assert(input.subrange(k as int, (k + b.len()) as int) =~= b);
}

} // verus!
