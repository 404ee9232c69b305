//! What a connection computes around its I/O: the frames it sends, the
//! compression it announces, its keep-alive, the server's favicon and the
//! location of its keys.
use vstd::prelude::*;
use crate::config::AuthentificationConfig;
use crate::encoding::append_slice;
use crate::error::IoError;
use crate::net_server::{KeepAlive, SetCompression};
use crate::packet::{compress_payload, frame, payload_written};
use crate::serialize::write_varint;
use crate::varint::VarInt;

verus! {

/// State shared by the server's connections beyond the server state; it
/// holds nothing yet.
pub struct ServerContext {}

/// The payload (id and fields) of an outgoing packet as the session carries
/// it: compressed with the session's threshold where compression is on, as
/// it is where it is off.
pub fn compress_outgoing(payload: Vec<u8>, compression_threshold: Option<u32>) -> (r: Result<Vec<u8>, IoError>)
    ensures
        match compression_threshold {
            None => r matches Ok(v) && v@ == payload@,
            Some(t) => r matches Ok(v) && payload_written(payload@, t, v@),
        },
{
    match compression_threshold {
        Some(threshold) => compress_payload(payload, threshold),
        None => Ok(payload),
    }
}

/// The frame of an outgoing packet: its length as a variable-length
/// integer, then the packet.
pub fn frame_outgoing(inner: &[u8]) -> (r: Vec<u8>)
    requires
        inner@.len() <= i32::MAX,
    ensures
        r@ == frame(inner@),
{
    let mut full_frame: Vec<u8> = Vec::new();
    write_varint(&mut full_frame, inner.len() as i32);
    append_slice(&mut full_frame, inner);
    full_frame
}

/// The packet that turns compression on at `threshold`, or `None` where the
/// threshold is 0, which leaves compression off.
pub fn compression_announcement(threshold: u32) -> (r: Option<SetCompression>)
    ensures
        threshold == 0 ==> r is None,
        threshold != 0 ==> (r matches Some(p) && p.threshold == VarInt::new_spec(threshold as i32)),
{
    if threshold == 0 {
        return None;
    }
    Some(SetCompression::new(VarInt::new(threshold as i32)))
}

/// The id of the keep-alive that the server sends.
pub const KEEPALIVE_ID: i32 = 23i32;

/// The keep-alive that the server sends, with id `KEEPALIVE_ID`.
pub fn keepalive_packet() -> (p: KeepAlive)
    ensures
        p.keep_alive_id == VarInt::new_spec(KEEPALIVE_ID),
{
    KeepAlive::new(VarInt::new(KEEPALIVE_ID))
}

/// The eight bytes that start every PNG file.
pub open spec fn png_signature() -> Seq<u8> {
    seq![0x89u8, 0x50u8, 0x4Eu8, 0x47u8, 0x0Du8, 0x0Au8, 0x1Au8, 0x0Au8]
}

/// The character of a base64 digit in the standard alphabet.
pub open spec fn base64_char(d: int) -> char {
    if d < 26 {
        (65 + d) as char
    } else if d < 52 {
        (97 + d - 26) as char
    } else if d < 62 {
        (48 + d - 52) as char
    } else if d == 62 {
        '+'
    } else {
        '/'
    }
}

/// Standard base64 with padding: each three bytes become four digits; a
/// last group of one or two bytes is padded with `=`.
pub open spec fn base64_standard(s: Seq<u8>) -> Seq<char>
    decreases s.len(),
{
    if s.len() == 0 {
        seq![]
    } else {
        let a = s[0] as int;
        let b = if s.len() > 1 { s[1] as int } else { 0 };
        let c = if s.len() > 2 { s[2] as int } else { 0 };
        if s.len() == 1 {
            seq![base64_char(a / 4), base64_char((a % 4) * 16), '=', '=']
        } else if s.len() == 2 {
            seq![base64_char(a / 4), base64_char((a % 4) * 16 + b / 16), base64_char((b % 16) * 4), '=']
        } else {
            seq![
                base64_char(a / 4),
                base64_char((a % 4) * 16 + b / 16),
                base64_char((b % 16) * 4 + c / 64),
                base64_char(c % 64),
            ] + base64_standard(s.skip(3))
        }
    }
}

/// The base64 crate's `STANDARD` engine's `encode`: the standard alphabet
/// with padding, per the crate's documentation and source. It panics where
/// the encoded length overflows `usize`, which `requires` rules out.
#[verifier::external_body]
fn base64_encode(bytes: &[u8]) -> (r: String)
    requires
        bytes@.len() <= usize::MAX / 2,
    ensures
        r@ == base64_standard(bytes@),
{
    base64::Engine::encode(&base64::engine::general_purpose::STANDARD, bytes)
}

/// The favicon of the server list: the PNG file's bytes as a base64 data
/// URI, or `InvalidData` where they do not start with the PNG signature.
pub fn favicon_data_uri(png_bytes: &[u8]) -> (r: Result<String, IoError>)
    requires
        png_bytes@.len() >= 8,
        png_bytes@.len() <= usize::MAX / 2,
    ensures
        png_bytes@.take(8) != png_signature() ==> r == Err::<String, IoError>(IoError::InvalidData),
        png_bytes@.take(8) == png_signature() ==> (r matches Ok(s) && s@ == "data:image/png;base64,"@
            + base64_standard(png_bytes@)),
{
    let signature: [u8; 8] = [0x89u8, 0x50u8, 0x4Eu8, 0x47u8, 0x0Du8, 0x0Au8, 0x1Au8, 0x0Au8];
    let mut i: usize = 0;
    while i < 8
        invariant
            i <= 8,
            png_bytes@.len() >= 8,
            signature@ == png_signature(),
            forall|k: int| 0 <= k < i ==> png_bytes@[k] == png_signature()[k],
        decreases 8 - i,
    {
        if png_bytes[i] != signature[i] {
            assert(png_bytes@.take(8)[i as int] != png_signature()[i as int]);
            return Err(IoError::InvalidData);
        }
        i = i + 1;
    }
    assert(png_bytes@.take(8) =~= png_signature());
    let b64 = base64_encode(png_bytes);
    let mut uri = String::from_str("data:image/png;base64,");
    uri.append(b64.as_str());
    Ok(uri)
}

/// Where the key pair of an authenticating server lies: nothing where
/// authentication is off; the public and the private key's paths where both
/// are set; `InvalidData` where one is missing.
pub fn crypto_key_paths(auth: &AuthentificationConfig) -> (r: Result<Option<(&String, &String)>, IoError>)
    ensures
        !auth.enabled ==> r matches Ok(None),
        auth.enabled ==> match (auth.public_key, auth.private_key) {
            (Some(p), Some(k)) => r matches Ok(Some((a, b))) && *a == p && *b == k,
            _ => r == Err::<Option<(&String, &String)>, IoError>(IoError::InvalidData),
        },
{
    if !auth.enabled {
        return Ok(None);
    }
    match (&auth.public_key, &auth.private_key) {
        (Some(p), Some(k)) => Ok(Some((p, k))),
        _ => Err(IoError::InvalidData),
    }
}

} // verus!
