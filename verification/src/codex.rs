//! The frame decoder of a connection: it decrypts what arrives, cuts it into
//! frames, decompresses their payloads and splits off the packet ids.
use vstd::prelude::*;
use crate::crypto::{cfb8_output, Cfb8Decryptor};
use crate::encoding::copy_range;
use crate::error::IoError;
use crate::packet::{
    compressed_payload, frame, length_prefix, packet_body, payload_written, zlib_compressed, zlib_decompress,
    zlib_decompressed,
};
use crate::serialize::read_varint;
use crate::varint::{lemma_varint_roundtrip, varint_bytes, varint_decode, VarInt};

verus! {

/// A packet as the decoder hands it on: its id and its fields.
#[derive(Debug)]
pub struct RawPacket {
    /// The packet id.
    pub id: u8,
    /// The encoded fields.
    pub data: Vec<u8>,
}

/// The decoder's state: the session's decryptor once encryption is on, the
/// compression threshold once compression is on, and how much of the buffer
/// has already been decrypted.
pub struct MinecraftCodex {
    /// Decrypts what arrives, once the session is encrypted.
    pub decryptor: Option<Cfb8Decryptor>,
    /// Set once the session compresses payloads.
    pub threshold: Option<u32>,
    /// The number of bytes at the start of the buffer already decrypted.
    pub decrypted_offset: usize,
}

impl MinecraftCodex {
    /// A decoder for a new connection: no encryption, no compression.
    pub fn new() -> (c: Self)
        ensures
            c.decryptor is None,
            c.threshold is None,
            c.decrypted_offset == 0,
    {
        MinecraftCodex { decryptor: None, threshold: None, decrypted_offset: 0 }
    }
}

impl Default for MinecraftCodex {
    fn default() -> (c: Self)
        ensures
            c.decryptor is None,
            c.threshold is None,
            c.decrypted_offset == 0,
    {
        MinecraftCodex::new()
    }
}

/// What the decoder makes of a decrypted buffer.
pub enum FrameOutcome {
    /// The buffer does not yet hold a whole frame; nothing is taken.
    Incomplete,
    /// A packet with the given id and fields; the frame took `consumed` bytes.
    Packet { id: u8, data: Seq<u8>, consumed: nat },
    /// The frame of `consumed` bytes is taken, but its payload is not valid.
    Failed { error: IoError, consumed: nat },
}

/// The payload of a frame body: as it is without compression; with
/// compression, after its data length, decompressed where that length is
/// positive and must then match it.
pub open spec fn frame_payload(body: Seq<u8>, compressed: bool) -> Result<Seq<u8>, IoError> {
    if !compressed {
        Ok(body)
    } else {
        match varint_decode(body) {
            None => Err(IoError::InvalidData),
            Some((data_len, k)) => if data_len > 0 {
                match zlib_decompressed(body.skip(k as int)) {
                    Err(_) => Err(IoError::InvalidData),
                    Ok(x) => if x.len() != data_len { Err(IoError::InvalidData) } else { Ok(x) },
                }
            } else {
                Ok(body.skip(k as int))
            },
        }
    }
}

/// What the decoder makes of the decrypted buffer `d`: a frame is its length,
/// then that many bytes; the packet is the payload's id, then its fields. A
/// negative length is `InvalidData` and takes nothing.
pub open spec fn decode_frame(d: Seq<u8>, compressed: bool) -> FrameOutcome {
    match varint_decode(d) {
        None => FrameOutcome::Incomplete,
        Some((len, n)) => if len < 0 {
            FrameOutcome::Failed { error: IoError::InvalidData, consumed: 0 }
        } else if d.len() < n + len {
            FrameOutcome::Incomplete
        } else {
            let end = (n + len) as nat;
            match frame_payload(d.subrange(n as int, end as int), compressed) {
                Err(e) => FrameOutcome::Failed { error: e, consumed: end },
                Ok(p) => match varint_decode(p) {
                    None => FrameOutcome::Failed { error: IoError::InvalidData, consumed: end },
                    Some((id, m)) => FrameOutcome::Packet { id: id as u8, data: p.skip(m as int), consumed: end },
                },
            }
        }
    }
}

/// The buffer after decryption: the first `offset` bytes, already
/// decrypted, are kept; the rest is what a decryptor with `key`, having
/// decrypted `fed` before, makes of it.
pub open spec fn decrypted_buffer(key: Seq<u8>, fed: Seq<u8>, offset: nat, old_src: Seq<u8>) -> Seq<u8> {
    old_src.take(offset as int) + cfb8_output(key, false, fed, old_src.skip(offset as int))
}

/// Whether the result `r` and the remaining buffer `rest` are what the
/// decoder makes of the decrypted buffer `d`.
pub open spec fn outcome_matches(
    r: Result<Option<RawPacket>, IoError>,
    rest: Seq<u8>,
    d: Seq<u8>,
    compressed: bool,
) -> bool {
    match decode_frame(d, compressed) {
        FrameOutcome::Incomplete => r matches Ok(None) && rest == d,
        FrameOutcome::Packet { id, data, consumed } => r matches Ok(Some(p)) && p.id == id && p.data@ == data
            && rest == d.skip(consumed as int),
        FrameOutcome::Failed { error, consumed } => r == Err::<Option<RawPacket>, IoError>(error)
            && rest == d.skip(consumed as int),
    }
}

impl MinecraftCodex {
    /// Decodes the next packet from the buffer `src`, which holds what has
    /// arrived and not yet been taken. Decrypts the bytes not yet decrypted;
    /// then, where a whole frame is there, takes it off the buffer and gives
    /// its packet. An empty buffer gives nothing.
    #[verifier::rlimit(40)]
    pub fn decode(&mut self, src: &mut Vec<u8>) -> (r: Result<Option<RawPacket>, IoError>)
        requires
            old(self).decryptor is Some ==> old(self).decrypted_offset <= old(src)@.len()
                && old(src)@.len() - old(self).decrypted_offset <= i32::MAX,
        ensures
            final(self).threshold == old(self).threshold,
            final(self).decryptor is Some == old(self).decryptor is Some,
            final(self).decryptor is Some ==> final(self).decrypted_offset <= final(src)@.len(),
            final(self).decryptor is None ==> final(self).decrypted_offset == old(self).decrypted_offset,
            old(self).decryptor matches Some(dec) ==> (final(self).decryptor matches Some(d2) && d2.spec_key()
                == dec.spec_key()),
            old(src)@.len() == 0 ==> (r matches Ok(None) && final(src)@ == old(src)@),
            old(src)@.len() > 0 ==> match old(self).decryptor {
                None => outcome_matches(r, final(src)@, old(src)@, old(self).threshold is Some),
                Some(dec) => (r == Err::<Option<RawPacket>, IoError>(IoError::Other) && final(src)@ == old(src)@) || (
                final(self).decryptor matches Some(d2) && d2.spec_fed() == dec.spec_fed() + old(src)@.skip(
                    old(self).decrypted_offset as int,
                ) && final(self).decrypted_offset == final(src)@.len() && outcome_matches(
                    r,
                    final(src)@,
                    decrypted_buffer(dec.spec_key(), dec.spec_fed(), old(self).decrypted_offset as nat, old(src)@),
                    old(self).threshold is Some,
                )),
            },
    {
        if src.len() == 0 {
            return Ok(None);
        }
        let ghost old_src = src@;
        if let Some(decryptor) = &mut self.decryptor {
            let offset = self.decrypted_offset;
            assert(old_src.len() == src.len());
            let new_bytes = copy_range(src.as_slice(), offset, src.len());
            let decrypted = match decryptor.decrypt(new_bytes.as_slice()) {
                Ok(d) => d,
                Err(e) => return Err(e),
            };
            let mut i: usize = 0;
            while i < decrypted.len()
                invariant
                    offset <= old_src.len(),
                    old_src.len() <= usize::MAX,
                    offset + decrypted@.len() == old_src.len(),
                    src@.len() == old_src.len(),
                    i <= decrypted@.len(),
                    src@.take(offset as int) == old_src.take(offset as int),
                    forall|k: int| 0 <= k < i ==> src@[offset + k] == decrypted@[k],
                decreases decrypted@.len() - i,
            {
                src.set(offset + i, decrypted[i]);
                i = i + 1;
            }
            assert(src@ =~= old_src.take(offset as int) + decrypted@);
            self.decrypted_offset = src.len();
        }
        let ghost d = src@;
        let (packet_len, len_bytes) = match read_varint(src.as_slice()) {
            Some(v) => v,
            None => return Ok(None),
        };
        if packet_len < 0 {
            assert(d.skip(0) =~= d);
            return Err(IoError::InvalidData);
        }
        if src.len() - len_bytes < packet_len as usize {
            return Ok(None);
        }
        let end = len_bytes + packet_len as usize;
        let mut packet_data = copy_range(src.as_slice(), len_bytes, end);
        let rest = copy_range(src.as_slice(), end, src.len());
        assert(rest@ =~= d.skip(end as int));
        *src = rest;
        if self.decryptor.is_some() {
            self.decrypted_offset = self.decrypted_offset - end;
        }
        if self.threshold.is_some() {
            let (data_len, dl_bytes) = match read_varint(packet_data.as_slice()) {
                Some(v) => v,
                None => return Err(IoError::InvalidData),
            };
            let tail = copy_range(packet_data.as_slice(), dl_bytes, packet_data.len());
            assert(tail@ =~= packet_data@.skip(dl_bytes as int));
            if data_len > 0 {
                let decompressed = match zlib_decompress(tail.as_slice()) {
                    Ok(x) => x,
                    Err(_) => return Err(IoError::InvalidData),
                };
                if decompressed.len() != data_len as usize {
                    return Err(IoError::InvalidData);
                }
                packet_data = decompressed;
            } else {
                packet_data = tail;
            }
        }
        let (packet_id, id_bytes) = match read_varint(packet_data.as_slice()) {
            Some(v) => v,
            None => return Err(IoError::InvalidData),
        };
        let data = copy_range(packet_data.as_slice(), id_bytes, packet_data.len());
        assert(data@ =~= packet_data@.skip(id_bytes as int));
        Ok(Some(RawPacket { id: packet_id as u8, data }))
    }
}

/// The decoder reads back a packet body from the frame that `Packet` and
/// `RawPacket` write for it, leaving what follows the frame: the id and the
/// fields, in a session without compression.
pub proof fn law_frame_roundtrip(id: u8, data: Seq<u8>, rest: Seq<u8>)
    requires
        packet_body(id, data).len() < 0x8000_0000,
    ensures
        decode_frame(frame(packet_body(id, data)) + rest, false) == (FrameOutcome::Packet {
            id,
            data,
            consumed: frame(packet_body(id, data)).len(),
        }),
{
    let body = packet_body(id, data);
    let len = body.len() as i32;
    assert(len as u32 == ((body.len() as usize) as i32) as u32);
    let d = frame(body) + rest;
    lemma_varint_roundtrip(len, body + rest);
    assert(d =~= varint_bytes(len as u32) + (body + rest));
    let n = varint_bytes(len as u32).len();
    assert(d.subrange(n as int, n + len) =~= body);
    lemma_varint_roundtrip(id as i32, data);
    assert(varint_bytes((id as i32) as u32) == varint_bytes(id as u32));
    assert(body.skip(varint_bytes(id as u32).len() as int) =~= data);
}

/// In a session with compression, a payload below the threshold is framed
/// with a zero data length and the decoder reads the packet back from it.
pub proof fn law_small_compressed_frame_roundtrip(id: u8, data: Seq<u8>, threshold: u32, rest: Seq<u8>)
    requires
        packet_body(id, data).len() < threshold,
        compressed_payload(packet_body(id, data), threshold).len() < 0x8000_0000,
    ensures
        decode_frame(frame(compressed_payload(packet_body(id, data), threshold)) + rest, true) == (FrameOutcome::Packet {
            id,
            data,
            consumed: frame(compressed_payload(packet_body(id, data), threshold)).len(),
        }),
{
    let body = packet_body(id, data);
    let payload = compressed_payload(body, threshold);
    let len = payload.len() as i32;
    assert(len as u32 == ((payload.len() as usize) as i32) as u32);
    let d = frame(payload) + rest;
    lemma_varint_roundtrip(len, payload + rest);
    assert(d =~= varint_bytes(len as u32) + (payload + rest));
    let n = varint_bytes(len as u32).len();
    assert(d.subrange(n as int, n + len) =~= payload);
    lemma_varint_roundtrip(0, body);
    assert(varint_bytes(0i32 as u32) == varint_bytes(0));
    assert(payload.skip(varint_bytes(0).len() as int) =~= body);
    lemma_varint_roundtrip(id as i32, data);
    assert(varint_bytes((id as i32) as u32) == varint_bytes(id as u32));
    assert(body.skip(varint_bytes(id as u32).len() as int) =~= data);
}

/// In a session with compression, the decoder reads a packet back from the
/// frame of what `compress_payload` wrote for its id and fields, below the
/// threshold or above it, leaving what follows the frame.
pub proof fn law_compressed_frame_roundtrip(id: u8, data: Seq<u8>, threshold: u32, out: Seq<u8>, rest: Seq<u8>)
    requires
        payload_written(packet_body(id, data), threshold, out),
        packet_body(id, data).len() < 0x8000_0000,
        out.len() < 0x8000_0000,
    ensures
        decode_frame(frame(out) + rest, true) == (FrameOutcome::Packet { id, data, consumed: frame(out).len() }),
{
    let body = packet_body(id, data);
    if body.len() < threshold {
        law_small_compressed_frame_roundtrip(id, data, threshold, rest);
    } else {
        let len = out.len() as i32;
        assert(len as u32 == ((out.len() as usize) as i32) as u32);
        let d = frame(out) + rest;
        lemma_varint_roundtrip(len, out + rest);
        assert(d =~= varint_bytes(len as u32) + (out + rest));
        let n = varint_bytes(len as u32).len();
        assert(d.subrange(n as int, n + len) =~= out);
        let blen = body.len() as i32;
        assert(blen as u32 == ((body.len() as usize) as i32) as u32);
        lemma_varint_roundtrip(blen, zlib_compressed(body));
        assert(out =~= varint_bytes(blen as u32) + zlib_compressed(body));
        assert(out.skip(varint_bytes(blen as u32).len() as int) =~= zlib_compressed(body));
        crate::varint::lemma_varint_bytes_len(id as u32);
        assert(blen > 0);
        lemma_varint_roundtrip(id as i32, data);
        assert(varint_bytes((id as i32) as u32) == varint_bytes(id as u32));
        assert(body.skip(varint_bytes(id as u32).len() as int) =~= data);
    }
}

} // verus!
