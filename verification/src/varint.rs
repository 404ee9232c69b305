//! The protocol's variable-length integer: seven bits per byte, least
//! significant group first, the high bit of a byte set when another byte follows.
use vstd::prelude::*;
use crate::error::IoError;

verus! {

/// The bytes that encode `v`, read as an unsigned 32-bit pattern.
pub open spec fn varint_bytes(v: u32) -> Seq<u8>
    decreases v,
{
    if v < 128 {
        seq![v as u8]
    } else {
        seq![(v % 128 + 128) as u8] + varint_bytes(v / 128)
    }
}

/// The value that the low seven bits of the bytes of `s` carry, the first byte
/// being the least significant group.
pub open spec fn varint_sum(s: Seq<u8>) -> nat
    decreases s.len(),
{
    if s.len() == 0 {
        0
    } else {
        (s[0] % 128) as nat + 128 * varint_sum(s.drop_first())
    }
}

/// `128` to the power `i`.
pub open spec fn pow128(i: nat) -> nat
    decreases i,
{
    if i == 0 {
        1
    } else {
        128 * pow128((i - 1) as nat)
    }
}

/// Where the encoding that starts at index `i` of `s` ends.
pub enum VarIntScan {
    /// The encoding ends after the given number of bytes from the start.
    Complete(nat),
    /// The input ends while the encoding goes on.
    Truncated,
    /// A fifth byte still announces another one.
    TooLong,
}

/// Scans `s` from index `i`: the first byte without the continuation bit ends
/// the encoding; a continuation bit on the fifth byte is an error.
pub open spec fn varint_scan(s: Seq<u8>, i: nat) -> VarIntScan
    decreases 5 - i,
{
    if i >= s.len() {
        VarIntScan::Truncated
    } else if s[i as int] < 128 {
        VarIntScan::Complete(i + 1)
    } else if i >= 4 {
        VarIntScan::TooLong
    } else {
        varint_scan(s, i + 1)
    }
}

/// The 32-bit pattern of a sum of groups, read as a signed integer.
pub open spec fn wrap_i32(x: nat) -> i32 {
    ((x % 0x1_0000_0000) as u32) as i32
}

/// The integer that a complete encoding of `n` bytes at the start of `s` holds.
pub open spec fn varint_value(s: Seq<u8>, n: nat) -> i32 {
    wrap_i32(varint_sum(s.take(n as int)))
}

/// The integer encoded at the start of `s` and the number of its bytes, or
/// `None` where the input is truncated or the encoding too long.
pub open spec fn varint_decode(s: Seq<u8>) -> Option<(i32, nat)> {
    match varint_scan(s, 0) {
        VarIntScan::Complete(n) => Some((varint_value(s, n), n)),
        _ => None,
    }
}

/// A variable-length integer: its value and a recorded length.
#[derive(Debug, PartialEq, Eq, Clone, Copy, Structural)]
pub struct VarInt(pub i32, pub u32);

/// Appends the encoding of the 32-bit pattern `v` to `out`.
pub fn append_varint(out: &mut Vec<u8>, v: u32)
    ensures
        final(out)@ == old(out)@ + varint_bytes(v),
{
    let mut value: u32 = v;
    while value >= 128
        invariant
            out@ + varint_bytes(value) == old(out)@ + varint_bytes(v),
        decreases value,
    {
        let ghost before = out@;
        out.push((value % 128 + 128) as u8);
        assert(before + varint_bytes(value) =~= out@ + varint_bytes(value / 128));
        value = value / 128;
    }
    let ghost before = out@;
    out.push(value as u8);
    assert(out@ =~= before + varint_bytes(value));
}

/// What reading an encoded integer from the start of `s` gives: the integer,
/// recorded with the number of bytes it took, and that number; or the kind of
/// failure.
pub open spec fn varint_read(s: Seq<u8>) -> Result<(VarInt, usize), IoError> {
    match varint_scan(s, 0) {
        VarIntScan::Complete(n) => Ok((VarInt(varint_value(s, n), n as u32), n as usize)),
        VarIntScan::Truncated => Err(IoError::UnexpectedEof),
        VarIntScan::TooLong => Err(IoError::InvalidData),
    }
}

/// A 64-bit variable-length integer.
#[derive(Debug, PartialEq, Eq, Clone, Copy, Structural)]
pub struct VarLong(pub i64);

impl VarInt {
    /// The value.
    pub fn val(self) -> (v: i32)
        ensures
            v == self.0,
    {
        self.0
    }

    /// The recorded length.
    pub fn len(self) -> (n: u32)
        ensures
            n == self.1,
    {
        self.1
    }

    /// A variable-length integer holding `value`, with the length of its encoding.
    pub fn new(value: i32) -> (r: Self)
        ensures
            r.0 == value,
            r.1 == varint_bytes(value as u32).len(),
    {
        VarInt(value, Self::encoded_len(value))
    }

    /// The number of bytes that `value` takes on the wire.
    pub fn encoded_len(value: i32) -> (n: u32)
        ensures
            n == varint_bytes(value as u32).len(),
            1 <= n <= 5,
    {
        proof { lemma_varint_bytes_len(value as u32); }
        let mut v: u32 = value as u32;
        let mut count: u32 = 1;
        while v >= 128
            invariant
                1 <= count <= 5,
                count - 1 + varint_bytes(v).len() == varint_bytes(value as u32).len(),
                varint_bytes(value as u32).len() <= 5,
            decreases v,
        {
            proof { lemma_varint_bytes_len(v); }
            count += 1;
            v = v / 128;
        }
        count
    }

    /// Reads an encoded integer from the start of `input`; gives it and the
    /// number of bytes it took. A truncated input is `UnexpectedEof`, a fifth
    /// byte with the continuation bit is `InvalidData`.
    pub fn read_sync(input: &[u8]) -> (r: Result<(VarInt, usize), IoError>)
        ensures
            r == varint_read(input@),
    {
        match scan_varint(input) {
            Ok((value, n)) => Ok((VarInt(value, n as u32), n)),
            Err(e) => Err(e),
        }
    }

    /// Appends the encoding of the value to `writer`.
    pub fn write_sync(&self, writer: &mut Vec<u8>)
        ensures
            final(writer)@ == old(writer)@ + varint_bytes(self.0 as u32),
    {
        append_varint(writer, self.0 as u32);
    }

    /// The encoding of the value.
    pub fn to_bytes(&self) -> (r: Vec<u8>)
        ensures
            r@ == varint_bytes(self.0 as u32),
    {
        let mut buf: Vec<u8> = Vec::new();
        append_varint(&mut buf, self.0 as u32);
        assert(buf@ =~= varint_bytes(self.0 as u32));
        buf
    }

    /// The variable-length integer of `value`, as `new` builds it.
    pub fn from(value: i32) -> (r: Self)
        ensures
            r == VarInt::new_spec(value),
    {
        Self::new(value)
    }

    /// What `new` and `from` build.
    pub open spec fn new_spec(value: i32) -> VarInt {
        VarInt(value, varint_bytes(value as u32).len() as u32)
    }
}

/// Scans the encoding at the start of `input`: the integer and its length,
/// or the kind of failure.
pub fn scan_varint(input: &[u8]) -> (r: Result<(i32, usize), IoError>)
    ensures
        match varint_scan(input@, 0) {
            VarIntScan::Complete(n) => r == Ok::<(i32, usize), IoError>((varint_value(input@, n), n as usize)) && 1 <= n <= 5,
            VarIntScan::Truncated => r == Err::<(i32, usize), IoError>(IoError::UnexpectedEof),
            VarIntScan::TooLong => r == Err::<(i32, usize), IoError>(IoError::InvalidData),
        },
        r matches Ok((_, n)) ==> 1 <= n <= 5 && n <= input@.len(),
{
    let mut acc: u64 = 0;
    let mut mult: u64 = 1;
    let mut i: usize = 0;
    loop
        invariant
            i <= 4,
            mult == pow128(i as nat),
            (i == 0 && mult == 1) || (i == 1 && mult == 0x80) || (i == 2 && mult == 0x4000)
                || (i == 3 && mult == 0x20_0000) || (i == 4 && mult == 0x1000_0000),
            acc < mult,
            acc == varint_sum(input@.take(i as int)),
            varint_scan(input@, 0) == varint_scan(input@, i as nat),
        decreases 5 - i,
    {
        if i >= input.len() {
            return Err(IoError::UnexpectedEof);
        }
        let b = input[i];
        proof {
            assert(input@.take(i as int + 1) =~= input@.take(i as int).push(b));
            lemma_varint_sum_push(input@.take(i as int), b);
        }
        let low: u64 = (b % 128) as u64;
        assert(low * mult <= 127 * mult) by (nonlinear_arith)
            requires
                low <= 127,
        ;
        acc = acc + low * mult;
        if b < 128 {
            let value: i32 = ((acc % 0x1_0000_0000) as u32) as i32;
            return Ok((value, i + 1));
        }
        if i >= 4 {
            return Err(IoError::InvalidData);
        }
        i = i + 1;
        mult = mult * 128;
    }
}

/// A complete encoding ends within the input and within five bytes.
pub proof fn lemma_varint_scan_bound(s: Seq<u8>, i: nat)
    requires
        i <= 4,
    ensures
        varint_scan(s, i) matches VarIntScan::Complete(n) ==> i < n <= s.len() && n <= 5,
    decreases 5 - i,
{
    if i < s.len() && s[i as int] >= 128 && i < 4 {
        lemma_varint_scan_bound(s, i + 1);
    }
}

/// Appending a byte adds its seven low bits at the next group's weight.
pub proof fn lemma_varint_sum_push(s: Seq<u8>, b: u8)
    ensures
        varint_sum(s.push(b)) == varint_sum(s) + (b % 128) as nat * pow128(s.len()),
    decreases s.len(),
{
    if s.len() == 0 {
        assert(s.push(b).drop_first() =~= Seq::<u8>::empty());
        assert(varint_sum(Seq::<u8>::empty()) == 0);
        assert(s.push(b)[0] == b);
        assert(pow128(0) == 1);
        assert(varint_sum(s.push(b)) == (b % 128) as nat + 128 * varint_sum(Seq::<u8>::empty()));
    } else {
        assert(s.push(b)[0] == s[0]);
        assert(pow128(s.len()) == 128 * pow128(s.drop_first().len()));
        assert(s.push(b).drop_first() =~= s.drop_first().push(b));
        lemma_varint_sum_push(s.drop_first(), b);
        let x = varint_sum(s.drop_first());
        let y = (b % 128) as nat;
        let z = pow128(s.drop_first().len());
        assert(128 * (x + y * z) == 128 * x + y * (128 * z)) by (nonlinear_arith);
        assert(varint_sum(s.push(b)) == (s[0] % 128) as nat + 128 * varint_sum(s.drop_first().push(b)));
        assert(varint_sum(s) == (s[0] % 128) as nat + 128 * x);
    }
}

/// The sum of the groups of an encoding is the encoded value.
pub proof fn lemma_varint_bytes_sum(v: u32)
    ensures
        varint_sum(varint_bytes(v)) == v,
    decreases v,
{
    if v >= 128 {
        lemma_varint_bytes_sum(v / 128);
        assert(varint_bytes(v).drop_first() =~= varint_bytes(v / 128));
        let b = (v % 128 + 128) as u8;
        assert(varint_bytes(v)[0] == b);
        assert(b % 128 == v % 128);
    } else {
        assert(varint_bytes(v).drop_first() =~= Seq::<u8>::empty());
        assert(varint_sum(Seq::<u8>::empty()) == 0);
        assert(varint_bytes(v)[0] == v as u8);
    }
}

/// An encoding placed at index `i` of `s` is scanned to its end.
pub proof fn lemma_varint_bytes_scan(v: u32, s: Seq<u8>, i: int)
    requires
        0 <= i,
        i + varint_bytes(v).len() <= 5,
        i + varint_bytes(v).len() <= s.len(),
        s.subrange(i, i + varint_bytes(v).len()) == varint_bytes(v),
    ensures
        varint_scan(s, i as nat) == VarIntScan::Complete((i + varint_bytes(v).len()) as nat),
    decreases v,
{
    let e = varint_bytes(v);
    assert(s[i] == s.subrange(i, i + e.len())[0]);
    if v >= 128 {
        lemma_varint_bytes_len(v);
        lemma_varint_bytes_len(v / 128);
        let e2 = varint_bytes(v / 128);
        assert(s.subrange(i + 1, i + 1 + e2.len()) =~= s.subrange(i, i + e.len()).drop_first());
        assert(e.drop_first() =~= e2);
        lemma_varint_bytes_scan(v / 128, s, i + 1);
    }
}

/// Decoding the encoding of `x`, whatever follows it, gives back `x` and the
/// encoding's length.
pub proof fn lemma_varint_roundtrip(x: i32, rest: Seq<u8>)
    ensures
        varint_decode(varint_bytes(x as u32) + rest) == Some((x, varint_bytes(x as u32).len())),
{
    let v = x as u32;
    let e = varint_bytes(v);
    let s = e + rest;
    lemma_varint_bytes_len(v);
    assert(s.subrange(0, e.len() as int) =~= e);
    lemma_varint_bytes_scan(v, s, 0);
    assert(s.take(e.len() as int) =~= e);
    lemma_varint_bytes_sum(v);
    assert((x as u32) as i32 == x) by (bit_vector);
}

/// Reading the encoding of `x`, whatever follows it, gives back the integer
/// that `VarInt::new(x)` builds, and takes exactly the encoding's bytes.
pub proof fn law_read_sync_reads_new(x: i32, rest: Seq<u8>)
    ensures
        varint_read(varint_bytes(x as u32) + rest)
            == Ok::<(VarInt, usize), IoError>((VarInt::new_spec(x), varint_bytes(x as u32).len() as usize)),
{
    lemma_varint_roundtrip(x, rest);
    lemma_varint_bytes_len(x as u32);
}

/// The encoding takes one byte per started group of seven bits, and never more than five.
pub proof fn lemma_varint_bytes_len(v: u32)
    ensures
        varint_bytes(v).len() == (if v < 0x80 { 1int } else if v < 0x4000 { 2int } else if v < 0x20_0000 { 3int } else if v < 0x1000_0000 { 4int } else { 5int }),
        v >= 128 ==> varint_bytes(v).len() == 1 + varint_bytes(v / 128).len(),
    decreases v,
{
    if v >= 128 {
        lemma_varint_bytes_len(v / 128);
    }
}

} // verus!
