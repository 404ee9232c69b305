//! Reads of single protocol values from the start of a byte slice, and the
//! variable-length integer helpers of the frame codec.
use vstd::prelude::*;
use vstd::utf8::{decode_utf8, valid_utf8};
use crate::bytes::{be_value, read_be};
use crate::encoding::{copy_range, string_from_utf8};
use crate::error::IoError;
use crate::varint::{append_varint, scan_varint, varint_bytes, varint_decode, varint_scan, varint_value, VarIntScan};

verus! {

/// Reads one byte.
pub fn read_byte(input: &[u8]) -> (r: Result<(u8, usize), IoError>)
    ensures
        input@.len() >= 1 ==> r == Ok::<(u8, usize), IoError>((input@[0], 1)),
        input@.len() < 1 ==> r == Err::<(u8, usize), IoError>(IoError::UnexpectedEof),
{
    if input.len() < 1 {
        return Err(IoError::UnexpectedEof);
    }
    Ok((input[0], 1))
}

/// Reads a big-endian signed 16-bit integer.
pub fn read_short(input: &[u8]) -> (r: Result<(i16, usize), IoError>)
    ensures
        input@.len() >= 2 ==> r == Ok::<(i16, usize), IoError>(((be_value(input@.take(2)) as u16) as i16, 2)),
        input@.len() < 2 ==> r == Err::<(i16, usize), IoError>(IoError::UnexpectedEof),
{
    if input.len() < 2 {
        return Err(IoError::UnexpectedEof);
    }
    Ok(((read_be(input, 2) as u16) as i16, 2))
}

/// Reads a big-endian signed 64-bit integer.
pub fn read_long(input: &[u8]) -> (r: Result<(i64, usize), IoError>)
    ensures
        input@.len() >= 8 ==> r == Ok::<(i64, usize), IoError>(((be_value(input@.take(8)) as u64) as i64, 8)),
        input@.len() < 8 ==> r == Err::<(i64, usize), IoError>(IoError::UnexpectedEof),
{
    if input.len() < 8 {
        return Err(IoError::UnexpectedEof);
    }
    Ok((read_be(input, 8) as i64, 8))
}

/// Reads a big-endian 64-bit float, as its bit pattern.
pub fn read_double(input: &[u8]) -> (r: Result<(u64, usize), IoError>)
    ensures
        input@.len() >= 8 ==> r == Ok::<(u64, usize), IoError>((be_value(input@.take(8)) as u64, 8)),
        input@.len() < 8 ==> r == Err::<(u64, usize), IoError>(IoError::UnexpectedEof),
{
    if input.len() < 8 {
        return Err(IoError::UnexpectedEof);
    }
    Ok((read_be(input, 8), 8))
}

/// Reads a big-endian 32-bit float, as its bit pattern.
pub fn read_float(input: &[u8]) -> (r: Result<(u32, usize), IoError>)
    ensures
        input@.len() >= 4 ==> r == Ok::<(u32, usize), IoError>((be_value(input@.take(4)) as u32, 4)),
        input@.len() < 4 ==> r == Err::<(u32, usize), IoError>(IoError::UnexpectedEof),
{
    if input.len() < 4 {
        return Err(IoError::UnexpectedEof);
    }
    Ok((read_be(input, 4) as u32, 4))
}

/// Reads a big-endian signed 32-bit integer.
pub fn read_int(input: &[u8]) -> (r: Result<(i32, usize), IoError>)
    ensures
        input@.len() >= 4 ==> r == Ok::<(i32, usize), IoError>(((be_value(input@.take(4)) as u32) as i32, 4)),
        input@.len() < 4 ==> r == Err::<(i32, usize), IoError>(IoError::UnexpectedEof),
{
    if input.len() < 4 {
        return Err(IoError::UnexpectedEof);
    }
    Ok(((read_be(input, 4) as u32) as i32, 4))
}

/// Reads a boolean: any byte but zero is true.
pub fn read_boolean(input: &[u8]) -> (r: Result<(bool, usize), IoError>)
    ensures
        input@.len() >= 1 ==> r == Ok::<(bool, usize), IoError>((input@[0] != 0, 1)),
        input@.len() < 1 ==> r == Err::<(bool, usize), IoError>(IoError::UnexpectedEof),
{
    if input.len() < 1 {
        return Err(IoError::UnexpectedEof);
    }
    Ok((input[0] != 0, 1))
}

/// Reads `len` bytes.
pub fn read_bytes(input: &[u8], len: usize) -> (r: Result<(Vec<u8>, usize), IoError>)
    ensures
        input@.len() >= len ==> (r matches Ok((v, n)) && v@ == input@.take(len as int) && n == len),
        input@.len() < len ==> r == Err::<(Vec<u8>, usize), IoError>(IoError::UnexpectedEof),
{
    if input.len() < len {
        return Err(IoError::UnexpectedEof);
    }
    let v = copy_range(input, 0, len);
    assert(input@.subrange(0, len as int) =~= input@.take(len as int));
    Ok((v, len))
}

/// Whether `read_string` on `input` would ask for a negative length.
pub open spec fn read_string_aborts(input: Seq<u8>) -> bool {
    varint_decode(input) matches Some((v, _)) && v < 0
}

/// What `read_string` gives: a failure of the length prefix is `InvalidData`,
/// too few bytes `UnexpectedEof`, bytes that are not UTF-8 `InvalidData`.
pub open spec fn read_string_result(input: Seq<u8>) -> Result<(Seq<char>, nat), IoError> {
    match varint_scan(input, 0) {
        VarIntScan::Complete(n) => {
            let len = varint_value(input, n) as nat;
            let bytes = input.subrange(n as int, (n + len) as int);
            if n + len > input.len() {
                Err(IoError::UnexpectedEof)
            } else if !valid_utf8(bytes) {
                Err(IoError::InvalidData)
            } else {
                Ok((decode_utf8(bytes), n + len))
            }
        },
        _ => Err(IoError::InvalidData),
    }
}

/// Reads a length-prefixed UTF-8 string, with no limit on its length.
pub fn read_string(input: &[u8]) -> (r: Result<(String, usize), IoError>)
    requires
        !read_string_aborts(input@),
    ensures
        match read_string_result(input@) {
            Ok((s, n)) => r matches Ok((t, m)) && t@ == s && m == n,
            Err(e) => r == Err::<(String, usize), IoError>(e),
        },
{
    let (value, n) = match scan_varint(input) {
        Ok(p) => p,
        Err(_) => return Err(IoError::InvalidData),
    };
    let len = value as usize;
    if len > input.len() - n {
        return Err(IoError::UnexpectedEof);
    }
    let buf = copy_range(input, n, n + len);
    match string_from_utf8(buf) {
        Some(s) => Ok((s, n + len)),
        None => Err(IoError::InvalidData),
    }
}

/// The integer encoded at the start of `src` and the number of its bytes, or
/// `None` where the encoding is truncated or longer than five bytes.
pub fn read_varint(src: &[u8]) -> (r: Option<(i32, usize)>)
    ensures
        match varint_decode(src@) {
            Some((v, n)) => r == Some((v, n as usize)),
            None => r is None,
        },
        r matches Some((_, n)) ==> 1 <= n <= 5 && n <= src@.len(),
        varint_decode(src@) matches Some((_, n)) ==> 1 <= n <= 5 && n <= src@.len(),
{
    proof { crate::varint::lemma_varint_scan_bound(src@, 0); }
    match scan_varint(src) {
        Ok(p) => Some(p),
        Err(_) => None,
    }
}

/// Appends the encoding of a non-negative `value` to `dst`. A negative value
/// never ends its sign-extending shift, so it is not accepted.
pub fn write_varint(dst: &mut Vec<u8>, value: i32)
    requires
        value >= 0,
    ensures
        final(dst)@ == old(dst)@ + varint_bytes(value as u32),
{
    append_varint(dst, value as u32);
}

} // verus!
