//! The traits by which values are written to and read from the wire, and
//! their implementations for the protocol's primitive types.
use vstd::prelude::*;
use vstd::utf8::encode_utf8;
use crate::bytes::{be_bytes, be_value, read_be, write_be};
use crate::encoding::{
    append_slice, copy_range, deserialize_string_with_max, serialize_string_with_max,
    string_decode, string_decode_aborts, string_encoding, MAX_STRING_LENGTH,
};
use crate::error::IoError;
use crate::packet::RawPacket;
use crate::varint::{scan_varint, varint_bytes, varint_decode, varint_scan, varint_value, VarInt, VarIntScan};

verus! {

/// A value with a wire encoding.
pub trait Encode {
    /// The bytes that encode the value, or `None` where a part of it breaks a
    /// limit of the protocol.
    spec fn spec_encoding(&self) -> Option<Seq<u8>>;

    /// Appends the encoding to `writer`; a value that breaks a limit is
    /// `InvalidInput`.
    fn encode(&self, writer: &mut Vec<u8>) -> (r: Result<(), IoError>)
        ensures
            match self.spec_encoding() {
                Some(b) => r == Ok::<(), IoError>(()) && final(writer)@ == old(writer)@ + b,
                None => r == Err::<(), IoError>(IoError::InvalidInput),
            },
    ;

    /// The encoding as a raw packet.
    fn instanciate(&self) -> (r: Result<RawPacket, IoError>)
        ensures
            match self.spec_encoding() {
                Some(b) => r matches Ok(p) && p.data@ == b,
                None => r == Err::<RawPacket, IoError>(IoError::InvalidInput),
            },
    {
        let mut buf: Vec<u8> = Vec::new();
        match self.encode(&mut buf) {
            Ok(()) => Ok(RawPacket { data: buf }),
            Err(e) => Err(e),
        }
    }
}

/// A chunk at the protocol level; it carries no data of its own (the world
/// keeps chunks, see `crate::chunk`).
pub struct Chunk {}

/// A value that can be read from the wire.
pub trait Decode: Sized {
    /// Whether reading from `input` asks for an impossible allocation, on which
    /// the read does not return.
    spec fn spec_aborts(input: Seq<u8>) -> bool;

    /// The kind of failure of a read from the start of `input`, or `None` where
    /// the read succeeds.
    spec fn spec_failure(input: Seq<u8>) -> Option<IoError>;

    /// Whether `value` is what a successful read from the start of `input`
    /// gives.
    spec fn spec_decoded(input: Seq<u8>, value: Self) -> bool;

    /// The number of bytes that a successful read from the start of `input`
    /// takes.
    spec fn spec_len(input: Seq<u8>) -> nat;

    /// Reads a value from the start of `input`; gives it and the number of
    /// bytes it took.
    fn decode(input: &[u8]) -> (r: Result<(Self, usize), IoError>)
        requires
            !Self::spec_aborts(input@),
        ensures
            match r {
                Ok((v, n)) => Self::spec_failure(input@) is None && Self::spec_decoded(input@, v)
                    && n == Self::spec_len(input@) && n <= input@.len(),
                Err(e) => Self::spec_failure(input@) == Some(e),
            },
    ;
}

/// A value that is read after its packet id, which tells which kind it is.
pub trait DecodeWithId: Sized {
    /// Whether the read for packet `id` from `input` does not return.
    spec fn spec_aborts_with_id(id: u8, input: Seq<u8>) -> bool;

    /// The kind of failure of the read for packet `id`, or `None`.
    spec fn spec_failure_with_id(id: u8, input: Seq<u8>) -> Option<IoError>;

    /// Whether `value` is what a successful read for packet `id` gives.
    spec fn spec_decoded_with_id(id: u8, input: Seq<u8>, value: Self) -> bool;

    /// Whether the read for packet `id` from `input` would not return.
    fn aborts_with_id(id: u8, input: &[u8]) -> (b: bool)
        ensures
            b == Self::spec_aborts_with_id(id, input@),
    ;

    /// Reads the packet of kind `id` from `input`.
    fn decode_with_id(id: u8, input: &[u8]) -> (r: Result<Self, IoError>)
        requires
            !Self::spec_aborts_with_id(id, input@),
        ensures
            match r {
                Ok(v) => Self::spec_failure_with_id(id, input@) is None && Self::spec_decoded_with_id(id, input@, v),
                Err(e) => Self::spec_failure_with_id(id, input@) == Some(e),
            },
    ;
}

/// Where a fixed-width read of `width` bytes fails.
pub open spec fn fixed_failure(input: Seq<u8>, width: nat) -> Option<IoError> {
    if input.len() < width { Some(IoError::UnexpectedEof) } else { None }
}

// ---------------------------------------------------------------- integers

impl Encode for u8 {
    open spec fn spec_encoding(&self) -> Option<Seq<u8>> {
        Some(seq![*self])
    }

    fn encode(&self, writer: &mut Vec<u8>) -> (r: Result<(), IoError>) {
        writer.push(*self);
        Ok(())
    }
}

impl Decode for u8 {
    open spec fn spec_aborts(input: Seq<u8>) -> bool { false }
    open spec fn spec_failure(input: Seq<u8>) -> Option<IoError> { fixed_failure(input, 1) }
    open spec fn spec_decoded(input: Seq<u8>, value: u8) -> bool {
        value == input[0]
    }
    open spec fn spec_len(input: Seq<u8>) -> nat { 1 }

    fn decode(input: &[u8]) -> (r: Result<(u8, usize), IoError>) {
        if input.len() < 1 {
            return Err(IoError::UnexpectedEof);
        }
        Ok((input[0], 1))
    }
}

impl Encode for i8 {
    open spec fn spec_encoding(&self) -> Option<Seq<u8>> {
        Some(seq![*self as u8])
    }

    fn encode(&self, writer: &mut Vec<u8>) -> (r: Result<(), IoError>) {
        writer.push(*self as u8);
        Ok(())
    }
}

impl Decode for i8 {
    open spec fn spec_aborts(input: Seq<u8>) -> bool { false }
    open spec fn spec_failure(input: Seq<u8>) -> Option<IoError> { fixed_failure(input, 1) }
    open spec fn spec_decoded(input: Seq<u8>, value: i8) -> bool {
        value == input[0] as i8
    }
    open spec fn spec_len(input: Seq<u8>) -> nat { 1 }

    fn decode(input: &[u8]) -> (r: Result<(i8, usize), IoError>) {
        if input.len() < 1 {
            return Err(IoError::UnexpectedEof);
        }
        Ok((input[0] as i8, 1))
    }
}

impl Encode for u16 {
    open spec fn spec_encoding(&self) -> Option<Seq<u8>> {
        Some(be_bytes(*self as nat, 2))
    }

    fn encode(&self, writer: &mut Vec<u8>) -> (r: Result<(), IoError>) {
        write_be(writer, *self as u64, 2);
        Ok(())
    }
}

impl Decode for u16 {
    open spec fn spec_aborts(input: Seq<u8>) -> bool { false }
    open spec fn spec_failure(input: Seq<u8>) -> Option<IoError> { fixed_failure(input, 2) }
    open spec fn spec_decoded(input: Seq<u8>, value: u16) -> bool {
        value == be_value(input.take(2)) as u16
    }
    open spec fn spec_len(input: Seq<u8>) -> nat { 2 }

    fn decode(input: &[u8]) -> (r: Result<(u16, usize), IoError>) {
        if input.len() < 2 {
            return Err(IoError::UnexpectedEof);
        }
        Ok((read_be(input, 2) as u16, 2))
    }
}

impl Encode for i16 {
    open spec fn spec_encoding(&self) -> Option<Seq<u8>> {
        Some(be_bytes((*self as u16) as nat, 2))
    }

    fn encode(&self, writer: &mut Vec<u8>) -> (r: Result<(), IoError>) {
        let v: u16 = *self as u16;
        write_be(writer, v as u64, 2);
        assert(self.spec_encoding() == Some(be_bytes(v as nat, 2)));
        Ok(())
    }
}

impl Decode for i16 {
    open spec fn spec_aborts(input: Seq<u8>) -> bool { false }
    open spec fn spec_failure(input: Seq<u8>) -> Option<IoError> { fixed_failure(input, 2) }
    open spec fn spec_decoded(input: Seq<u8>, value: i16) -> bool {
        value == (be_value(input.take(2)) as u16) as i16
    }
    open spec fn spec_len(input: Seq<u8>) -> nat { 2 }

    fn decode(input: &[u8]) -> (r: Result<(i16, usize), IoError>) {
        if input.len() < 2 {
            return Err(IoError::UnexpectedEof);
        }
        Ok(((read_be(input, 2) as u16) as i16, 2))
    }
}

impl Encode for u32 {
    open spec fn spec_encoding(&self) -> Option<Seq<u8>> {
        Some(be_bytes(*self as nat, 4))
    }

    fn encode(&self, writer: &mut Vec<u8>) -> (r: Result<(), IoError>) {
        write_be(writer, *self as u64, 4);
        Ok(())
    }
}

impl Decode for u32 {
    open spec fn spec_aborts(input: Seq<u8>) -> bool { false }
    open spec fn spec_failure(input: Seq<u8>) -> Option<IoError> { fixed_failure(input, 4) }
    open spec fn spec_decoded(input: Seq<u8>, value: u32) -> bool {
        value == be_value(input.take(4)) as u32
    }
    open spec fn spec_len(input: Seq<u8>) -> nat { 4 }

    fn decode(input: &[u8]) -> (r: Result<(u32, usize), IoError>) {
        if input.len() < 4 {
            return Err(IoError::UnexpectedEof);
        }
        Ok((read_be(input, 4) as u32, 4))
    }
}

impl Encode for i32 {
    open spec fn spec_encoding(&self) -> Option<Seq<u8>> {
        Some(be_bytes((*self as u32) as nat, 4))
    }

    fn encode(&self, writer: &mut Vec<u8>) -> (r: Result<(), IoError>) {
        write_be(writer, (*self as u32) as u64, 4);
        Ok(())
    }
}

impl Decode for i32 {
    open spec fn spec_aborts(input: Seq<u8>) -> bool { false }
    open spec fn spec_failure(input: Seq<u8>) -> Option<IoError> { fixed_failure(input, 4) }
    open spec fn spec_decoded(input: Seq<u8>, value: i32) -> bool {
        value == (be_value(input.take(4)) as u32) as i32
    }
    open spec fn spec_len(input: Seq<u8>) -> nat { 4 }

    fn decode(input: &[u8]) -> (r: Result<(i32, usize), IoError>) {
        if input.len() < 4 {
            return Err(IoError::UnexpectedEof);
        }
        Ok(((read_be(input, 4) as u32) as i32, 4))
    }
}

impl Encode for u64 {
    open spec fn spec_encoding(&self) -> Option<Seq<u8>> {
        Some(be_bytes(*self as nat, 8))
    }

    fn encode(&self, writer: &mut Vec<u8>) -> (r: Result<(), IoError>) {
        write_be(writer, *self, 8);
        Ok(())
    }
}

impl Decode for u64 {
    open spec fn spec_aborts(input: Seq<u8>) -> bool { false }
    open spec fn spec_failure(input: Seq<u8>) -> Option<IoError> { fixed_failure(input, 8) }
    open spec fn spec_decoded(input: Seq<u8>, value: u64) -> bool {
        value == be_value(input.take(8))
    }
    open spec fn spec_len(input: Seq<u8>) -> nat { 8 }

    fn decode(input: &[u8]) -> (r: Result<(u64, usize), IoError>) {
        if input.len() < 8 {
            return Err(IoError::UnexpectedEof);
        }
        Ok((read_be(input, 8), 8))
    }
}

impl Encode for i64 {
    open spec fn spec_encoding(&self) -> Option<Seq<u8>> {
        Some(be_bytes((*self as u64) as nat, 8))
    }

    fn encode(&self, writer: &mut Vec<u8>) -> (r: Result<(), IoError>) {
        write_be(writer, *self as u64, 8);
        Ok(())
    }
}

impl Decode for i64 {
    open spec fn spec_aborts(input: Seq<u8>) -> bool { false }
    open spec fn spec_failure(input: Seq<u8>) -> Option<IoError> { fixed_failure(input, 8) }
    open spec fn spec_decoded(input: Seq<u8>, value: i64) -> bool {
        value == (be_value(input.take(8)) as u64) as i64
    }
    open spec fn spec_len(input: Seq<u8>) -> nat { 8 }

    fn decode(input: &[u8]) -> (r: Result<(i64, usize), IoError>) {
        if input.len() < 8 {
            return Err(IoError::UnexpectedEof);
        }
        Ok((read_be(input, 8) as i64, 8))
    }
}

impl Encode for bool {
    open spec fn spec_encoding(&self) -> Option<Seq<u8>> {
        Some(seq![if *self { 1u8 } else { 0u8 }])
    }

    fn encode(&self, writer: &mut Vec<u8>) -> (r: Result<(), IoError>) {
        writer.push(if *self { 1u8 } else { 0u8 });
        Ok(())
    }
}

impl Decode for bool {
    open spec fn spec_aborts(input: Seq<u8>) -> bool { false }
    open spec fn spec_failure(input: Seq<u8>) -> Option<IoError> { fixed_failure(input, 1) }
    open spec fn spec_decoded(input: Seq<u8>, value: bool) -> bool {
        value == (input[0] != 0)
    }
    open spec fn spec_len(input: Seq<u8>) -> nat { 1 }

    fn decode(input: &[u8]) -> (r: Result<(bool, usize), IoError>) {
        if input.len() < 1 {
            return Err(IoError::UnexpectedEof);
        }
        Ok((input[0] != 0, 1))
    }
}

/// The sixteen bytes of a UUID, most significant first.
pub open spec fn uuid_bytes(id: u128) -> Seq<u8> {
    be_bytes((id / 0x1_0000_0000_0000_0000) as nat, 8) + be_bytes((id % 0x1_0000_0000_0000_0000) as nat, 8)
}

impl Encode for u128 {
    open spec fn spec_encoding(&self) -> Option<Seq<u8>> {
        Some(uuid_bytes(*self))
    }

    fn encode(&self, writer: &mut Vec<u8>) -> (r: Result<(), IoError>) {
        write_be(writer, (*self / 0x1_0000_0000_0000_0000) as u64, 8);
        write_be(writer, (*self % 0x1_0000_0000_0000_0000) as u64, 8);
        assert(final(writer)@ =~= old(writer)@ + uuid_bytes(*self));
        Ok(())
    }
}

impl Decode for u128 {
    open spec fn spec_aborts(input: Seq<u8>) -> bool { false }
    open spec fn spec_failure(input: Seq<u8>) -> Option<IoError> { fixed_failure(input, 16) }
    open spec fn spec_decoded(input: Seq<u8>, value: u128) -> bool {
        value == be_value(input.take(8)) * 0x1_0000_0000_0000_0000 + be_value(input.subrange(8, 16))
    }
    open spec fn spec_len(input: Seq<u8>) -> nat { 16 }

    fn decode(input: &[u8]) -> (r: Result<(u128, usize), IoError>) {
        if input.len() < 16 {
            return Err(IoError::UnexpectedEof);
        }
        let hi = read_be(input, 8);
        let rest = vstd::slice::slice_subrange(input, 8, 16);
        let lo = read_be(rest, 8);
        assert(rest@.take(8) =~= input@.subrange(8, 16));
        Ok(((hi as u128) * 0x1_0000_0000_0000_0000 + lo as u128, 16))
    }
}

// ---------------------------------------------------------------- protocol types

impl Encode for VarInt {
    open spec fn spec_encoding(&self) -> Option<Seq<u8>> {
        Some(varint_bytes(self.0 as u32))
    }

    fn encode(&self, writer: &mut Vec<u8>) -> (r: Result<(), IoError>) {
        self.write_sync(writer);
        Ok(())
    }
}

impl Decode for VarInt {
    open spec fn spec_aborts(input: Seq<u8>) -> bool { false }
    open spec fn spec_failure(input: Seq<u8>) -> Option<IoError> {
        match varint_scan(input, 0) {
            VarIntScan::Complete(_) => None,
            VarIntScan::Truncated => Some(IoError::UnexpectedEof),
            VarIntScan::TooLong => Some(IoError::InvalidData),
        }
    }
    open spec fn spec_decoded(input: Seq<u8>, value: VarInt) -> bool {
        let len = Self::spec_len(input);
        value == VarInt(varint_value(input, len), len as u32)
    }
    open spec fn spec_len(input: Seq<u8>) -> nat {
        match varint_scan(input, 0) {
            VarIntScan::Complete(n) => n,
            _ => 0,
        }
    }

    fn decode(input: &[u8]) -> (r: Result<(VarInt, usize), IoError>) {
        let r = VarInt::read_sync(input);
        proof {
            if let VarIntScan::Complete(n) = varint_scan(input@, 0) {
                crate::varint::lemma_varint_scan_bound(input@, 0);
            }
        }
        r
    }
}

impl Encode for String {
    open spec fn spec_encoding(&self) -> Option<Seq<u8>> {
        string_encoding(self@, MAX_STRING_LENGTH as nat)
    }

    fn encode(&self, writer: &mut Vec<u8>) -> (r: Result<(), IoError>) {
        serialize_string_with_max(self.as_str(), writer, MAX_STRING_LENGTH)
    }
}

impl Decode for String {
    open spec fn spec_aborts(input: Seq<u8>) -> bool { string_decode_aborts(input) }
    open spec fn spec_failure(input: Seq<u8>) -> Option<IoError> {
        match string_decode(input, MAX_STRING_LENGTH as nat) {
            Ok(_) => None,
            Err(e) => Some(e),
        }
    }
    open spec fn spec_decoded(input: Seq<u8>, value: String) -> bool {
        string_decode(input, MAX_STRING_LENGTH as nat) matches Ok((s, _)) && s == value@
    }
    open spec fn spec_len(input: Seq<u8>) -> nat {
        match string_decode(input, MAX_STRING_LENGTH as nat) {
            Ok((_, n)) => n,
            Err(_) => 0,
        }
    }

    fn decode(input: &[u8]) -> (r: Result<(String, usize), IoError>) {
        deserialize_string_with_max(input, MAX_STRING_LENGTH)
    }
}

/// Writes a string slice as `String` does.
pub fn encode_str(s: &str, writer: &mut Vec<u8>) -> (r: Result<(), IoError>)
    ensures
        match string_encoding(s@, MAX_STRING_LENGTH as nat) {
            Some(b) => r == Ok::<(), IoError>(()) && final(writer)@ == old(writer)@ + b,
            None => r == Err::<(), IoError>(IoError::InvalidInput) && final(writer)@ == old(writer)@,
        },
{
    serialize_string_with_max(s, writer, MAX_STRING_LENGTH)
}

/// Bytes carried as they are, to the end of the packet.
#[derive(Debug)]
pub struct RawBytesArray(pub Vec<u8>);

impl Encode for RawBytesArray {
    open spec fn spec_encoding(&self) -> Option<Seq<u8>> {
        Some(self.0@)
    }

    fn encode(&self, writer: &mut Vec<u8>) -> (r: Result<(), IoError>) {
        append_slice(writer, self.0.as_slice());
        Ok(())
    }
}

impl Decode for RawBytesArray {
    open spec fn spec_aborts(input: Seq<u8>) -> bool { false }
    open spec fn spec_failure(input: Seq<u8>) -> Option<IoError> { None }
    open spec fn spec_decoded(input: Seq<u8>, value: RawBytesArray) -> bool {
        value.0@ == input
    }
    open spec fn spec_len(input: Seq<u8>) -> nat { input.len() }

    fn decode(input: &[u8]) -> (r: Result<(RawBytesArray, usize), IoError>) {
        let v = copy_range(input, 0, input.len());
        assert(input@.subrange(0, input@.len() as int) =~= input@);
        Ok((RawBytesArray(v), input.len()))
    }
}

/// Whether reading a byte vector from `input` asks for a negative length.
pub open spec fn byte_vec_aborts(input: Seq<u8>) -> bool {
    varint_decode(input) matches Some((v, _)) && v < 0
}

impl Decode for Vec<u8> {
    open spec fn spec_aborts(input: Seq<u8>) -> bool { byte_vec_aborts(input) }
    open spec fn spec_failure(input: Seq<u8>) -> Option<IoError> {
        match varint_scan(input, 0) {
            VarIntScan::Truncated => Some(IoError::UnexpectedEof),
            VarIntScan::TooLong => Some(IoError::InvalidData),
            VarIntScan::Complete(n) => if n + varint_value(input, n) > input.len() {
                Some(IoError::UnexpectedEof)
            } else {
                None
            },
        }
    }
    open spec fn spec_decoded(input: Seq<u8>, value: Vec<u8>) -> bool {
        varint_scan(input, 0) matches VarIntScan::Complete(n)
            && value@ == input.subrange(n as int, Self::spec_len(input) as int)
    }
    open spec fn spec_len(input: Seq<u8>) -> nat {
        match varint_scan(input, 0) {
            VarIntScan::Complete(n) => (n + varint_value(input, n)) as nat,
            _ => 0,
        }
    }

    fn decode(input: &[u8]) -> (r: Result<(Vec<u8>, usize), IoError>) {
        let (value, n) = match scan_varint(input) {
            Ok(p) => p,
            Err(e) => return Err(e),
        };
        let len = value as usize;
        if len > input.len() - n {
            return Err(IoError::UnexpectedEof);
        }
        let v = copy_range(input, n, n + len);
        Ok((v, n + len))
    }
}

impl<T: Encode> Encode for Option<T> {
    open spec fn spec_encoding(&self) -> Option<Seq<u8>> {
        match self {
            Some(v) => match v.spec_encoding() {
                Some(b) => Some(seq![1u8] + b),
                None => None,
            },
            None => Some(seq![0u8]),
        }
    }

    fn encode(&self, writer: &mut Vec<u8>) -> (r: Result<(), IoError>) {
        match self {
            Some(v) => {
                writer.push(1u8);
                let ghost mid = writer@;
                let r = v.encode(writer);
                assert(r is Ok ==> writer@ =~= old(writer)@ + seq![1u8] + v.spec_encoding().unwrap());
                r
            },
            None => {
                writer.push(0u8);
                assert(writer@ =~= old(writer)@ + seq![0u8]);
                Ok(())
            },
        }
    }
}

/// An optional value: a presence byte, then the value where the byte is not
/// zero.
impl<D: Decode> Decode for Option<D> {
    open spec fn spec_aborts(input: Seq<u8>) -> bool {
        input.len() >= 1 && input[0] != 0 && D::spec_aborts(input.skip(1))
    }
    open spec fn spec_failure(input: Seq<u8>) -> Option<IoError> {
        if input.len() < 1 {
            Some(IoError::UnexpectedEof)
        } else if input[0] != 0 {
            D::spec_failure(input.skip(1))
        } else {
            None
        }
    }
    open spec fn spec_decoded(input: Seq<u8>, value: Option<D>) -> bool {
        if input[0] != 0 {
            value matches Some(v) && D::spec_decoded(input.skip(1), v)
        } else {
            value is None
        }
    }
    open spec fn spec_len(input: Seq<u8>) -> nat {
        if input[0] != 0 {
            1 + D::spec_len(input.skip(1))
        } else {
            1
        }
    }

    fn decode(input: &[u8]) -> (r: Result<(Option<D>, usize), IoError>) {
        if input.len() < 1 {
            return Err(IoError::UnexpectedEof);
        }
        if input[0] != 0 {
            let rest = vstd::slice::slice_subrange(input, 1, input.len());
            assert(rest@ =~= input@.skip(1));
            match D::decode(rest) {
                Ok((v, n)) => Ok((Some(v), n + 1)),
                Err(e) => Err(e),
            }
        } else {
            Ok((None, 1))
        }
    }
}

/// The encodings of `items` one after another, or `None` where one of them
/// breaks a limit.
pub open spec fn encode_items<T: Encode>(items: Seq<T>) -> Option<Seq<u8>>
    decreases items.len(),
{
    if items.len() == 0 {
        Some(Seq::empty())
    } else {
        match (encode_items(items.drop_last()), items.last().spec_encoding()) {
            (Some(a), Some(b)) => Some(a + b),
            _ => None,
        }
    }
}

impl<T: Encode> Encode for Vec<T> {
    open spec fn spec_encoding(&self) -> Option<Seq<u8>> {
        match encode_items(self@) {
            Some(b) => Some(varint_bytes(((self@.len() as usize) as i32) as u32) + b),
            None => None,
        }
    }

    fn encode(&self, writer: &mut Vec<u8>) -> (r: Result<(), IoError>) {
        let len = VarInt::new(self.len() as i32);
        len.write_sync(writer);
        let ghost start = writer@;
        let mut i: usize = 0;
        while i < self.len()
            invariant
                i <= self@.len(),
                encode_items(self@.take(i as int)) matches Some(b) && writer@ == start + b,
            decreases self@.len() - i,
        {
            assert(self@.take(i as int + 1).drop_last() =~= self@.take(i as int));
            let r = self[i].encode(writer);
            if r.is_err() {
                proof { lemma_encode_items_fails(self@, i as int + 1); }
                return r;
            }
            i = i + 1;
        }
        assert(self@.take(self@.len() as int) =~= self@);
        Ok(())
    }
}

/// Where a prefix of the items fails to encode, so do the items.
pub proof fn lemma_encode_items_fails<T: Encode>(items: Seq<T>, k: int)
    requires
        0 <= k <= items.len(),
        encode_items(items.take(k)) is None,
    ensures
        encode_items(items) is None,
    decreases items.len() - k,
{
    if k < items.len() {
        assert(items.take(k + 1).drop_last() =~= items.take(k));
        lemma_encode_items_fails(items, k + 1);
    } else {
        assert(items.take(k) =~= items);
    }
}

/// Whether the length that starts `input` is negative: a string or byte
/// vector read from there would not return.
pub fn negative_length(input: &[u8]) -> (b: bool)
    ensures
        b == (varint_decode(input@) matches Some((v, _)) && v < 0),
{
    match crate::serialize::read_varint(input) {
        Some((v, _)) => v < 0,
        None => false,
    }
}

/// Two byte vectors read one after the other each hold at most `i32::MAX`
/// bytes: their lengths came from signed 32-bit fields.
pub proof fn lemma_byte_vecs_fit(input: Seq<u8>, a: Vec<u8>, b: Vec<u8>)
    requires
        !<(Vec<u8>, Vec<u8>)>::spec_aborts(input),
        <(Vec<u8>, Vec<u8>)>::spec_failure(input) is None,
        <(Vec<u8>, Vec<u8>)>::spec_decoded(input, (a, b)),
    ensures
        a@.len() <= i32::MAX,
        b@.len() <= i32::MAX,
{
}

/// Two values read one after the other.
impl<A: Decode, B: Decode> Decode for (A, B) {
    open spec fn spec_aborts(input: Seq<u8>) -> bool {
        A::spec_aborts(input) || (A::spec_failure(input) is None
            && B::spec_aborts(input.skip(A::spec_len(input) as int)))
    }
    open spec fn spec_failure(input: Seq<u8>) -> Option<IoError> {
        match A::spec_failure(input) {
            Some(e) => Some(e),
            None => B::spec_failure(input.skip(A::spec_len(input) as int)),
        }
    }
    open spec fn spec_decoded(input: Seq<u8>, value: (A, B)) -> bool {
        A::spec_decoded(input, value.0) && B::spec_decoded(input.skip(A::spec_len(input) as int), value.1)
    }
    open spec fn spec_len(input: Seq<u8>) -> nat {
        A::spec_len(input) + B::spec_len(input.skip(A::spec_len(input) as int))
    }

    fn decode(input: &[u8]) -> (r: Result<((A, B), usize), IoError>) {
        let (a, n) = match A::decode(input) {
            Ok(p) => p,
            Err(e) => return Err(e),
        };
        let rest = vstd::slice::slice_subrange(input, n, input.len());
        assert(rest@ =~= input@.skip(n as int));
        let (b, m) = match B::decode(rest) {
            Ok(p) => p,
            Err(e) => return Err(e),
        };
        Ok(((a, b), n + m))
    }
}

} // verus!
verus! {

/// A packet type with its id.
pub trait PacketId: Encode {
    /// The packet id.
    spec fn spec_id() -> u8;

    /// The packet id.
    fn id() -> (i: u8)
        ensures
            i == Self::spec_id(),
    ;

    /// The packet's id as a variable-length integer, then its fields.
    fn to_bytes(&self) -> (r: Result<Vec<u8>, IoError>)
        ensures
            match self.spec_encoding() {
                Some(b) => r matches Ok(v) && v@ == varint_bytes(Self::spec_id() as u32) + b,
                None => r == Err::<Vec<u8>, IoError>(IoError::InvalidInput),
            },
    {
        let mut buf: Vec<u8> = Vec::new();
        crate::serialize::write_varint(&mut buf, Self::id() as i32);
        match self.encode(&mut buf) {
            Ok(()) => Ok(buf),
            Err(e) => Err(e),
        }
    }
}

} // verus!
