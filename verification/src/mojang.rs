//! Player profiles and their UUIDs as the session server and the protocol
//! write them.
use vstd::prelude::*;
use vstd::utf8::encode_utf8;
use crate::crypto::hex_digit;
use crate::net_server::Property;

verus! {

/// A profile as Mojang's session server describes an authenticated player.
#[derive(Debug)]
pub struct MojangProfile {
    /// The player's UUID, as a 128-bit integer (most significant byte first).
    pub id: u128,
    pub name: String,
    pub properties: Vec<Property>,
}

/// The `n` lowest hexadecimal digits of `v`, lower case, most significant
/// first, with leading zeros.
pub open spec fn hex_fixed(v: nat, n: nat) -> Seq<char>
    decreases n,
{
    if n == 0 {
        seq![]
    } else {
        hex_fixed(v / 16, (n - 1) as nat).push(hex_digit(v % 16))
    }
}

/// A UUID in its hyphenated form: 32 lower-case hexadecimal digits in
/// groups of 8, 4, 4, 4 and 12.
pub open spec fn hyphenated(id: u128) -> Seq<char> {
    let d = hex_fixed(id as nat, 32);
    d.subrange(0, 8) + seq!['-'] + d.subrange(8, 12) + seq!['-'] + d.subrange(12, 16) + seq!['-']
        + d.subrange(16, 20) + seq!['-'] + d.subrange(20, 32)
}

/// The uuid crate's `Display` of `Uuid::from_u128(id)`: per its
/// documentation and source, the hyphenated form in lower case.
#[verifier::external_body]
pub(crate) fn uuid_string(id: u128) -> (r: String)
    ensures
        r@ == hyphenated(id),
{
    uuid::Uuid::from_u128(id).to_string()
}

/// The name-based (version 3, MD5) UUID of `name` in the OID namespace.
pub uninterp spec fn uuid_v3_oid(name: Seq<u8>) -> u128;

/// The uuid crate's `Uuid::new_v3(&Uuid::NAMESPACE_OID, name)`, as a
/// 128-bit integer: the result is what the name `uuid_v3_oid` gives for
/// the name's UTF-8 bytes.
#[verifier::external_body]
pub(crate) fn offline_uuid(name: &str) -> (r: u128)
    ensures
        r == uuid_v3_oid(encode_utf8(name@)),
{
    uuid::Uuid::new_v3(&uuid::Uuid::NAMESPACE_OID, name.as_bytes()).as_u128()
}

} // verus!
