//! Packets: their frames, the compression of their payloads, and the raw
//! bytes that carry them.
use vstd::prelude::*;
use crate::encoding::{append_slice, copy_range};
use crate::error::IoError;
use crate::serialize::{read_varint, write_varint};
use crate::varint::{
    append_varint, lemma_varint_roundtrip, scan_varint, varint_bytes, varint_decode, varint_scan,
    varint_value, VarInt, VarIntScan,
};

verus! {

/// Why a packet could not be read or handled.
#[derive(Debug)]
pub enum PacketError {
    /// A read or write failed.
    Io(IoError),
    /// A frame announced a negative length.
    NegativeLength(i64),
    /// A packet id that the current state does not know.
    InvalidPacketId(u8),
    /// A packet held bytes that make no valid value.
    InvalidData(String),
}

/// A packet type that reads itself from the bytes of one frame. Implemented
/// by users of the library.
pub trait ReadPacket: Sized {
    /// Reads the packet from the frame's bytes.
    fn from_reader(input: &[u8]) -> Result<Self, PacketError>;

    /// Reads the packet from bytes that are not framed.
    fn from_raw(input: &[u8]) -> Result<Self, PacketError>;
}

/// The zlib stream that flate2's `ZlibEncoder`, at the default compression
/// level, writes for `data`.
pub uninterp spec fn zlib_compressed(data: Seq<u8>) -> Seq<u8>;

/// What flate2's `ZlibDecoder` reads to the end of `data`: the decompressed
/// bytes, or the kind of its failure.
pub uninterp spec fn zlib_decompressed(data: Seq<u8>) -> Result<Seq<u8>, IoError>;

/// flate2's `ZlibEncoder` at `Compression::default()`, writing into a vector:
/// the result is the stream that the name `zlib_compressed` gives for
/// `data`. The call succeeds: writing into a `Vec` cannot fail, and the
/// pure-Rust deflate backend reports an error only for a stream used after
/// it was finished or for a preset dictionary, neither of which happens
/// here. The error arm maps to `Other` and is never taken. zlib is
/// lossless: flate2's `ZlibDecoder` reads the stream back to `data`.
#[verifier::external_body]
fn zlib_compress(data: &[u8]) -> (r: Result<Vec<u8>, IoError>)
    ensures
        r is Ok,
        r matches Ok(v) ==> v@ == zlib_compressed(data@),
        r matches Ok(v) ==> (zlib_decompressed(v@) matches Ok(x) && x == data@),
{
    let mut encoder = flate2::write::ZlibEncoder::new(Vec::new(), flate2::Compression::default());
    std::io::Write::write_all(&mut encoder, data).map_err(|_| IoError::Other)?;
    encoder.finish().map_err(|_| IoError::Other)
}

/// flate2's `ZlibDecoder` over `data`, read to the end: the result is what
/// the name `zlib_decompressed` gives, its error kinds mapped one for one
/// (flate2 reports a truncated stream as `UnexpectedEof` and a corrupt one as
/// `InvalidInput`). A stream that the encoder wrote for some bytes decodes
/// back to them: zlib is lossless.
#[verifier::external_body]
pub(crate) fn zlib_decompress(data: &[u8]) -> (r: Result<Vec<u8>, IoError>)
    ensures
        r matches Ok(v) ==> (zlib_decompressed(data@) matches Ok(d) && d == v@),
        r matches Err(e) ==> (zlib_decompressed(data@) matches Err(k) && k == e),
        forall|x: Seq<u8>| #[trigger] zlib_compressed(x) == data@ ==> r is Ok && r->Ok_0@ == x,
{
    let mut decoder = flate2::read::ZlibDecoder::new(data);
    let mut out = Vec::new();
    match std::io::Read::read_to_end(&mut decoder, &mut out) {
        Ok(_) => Ok(out),
        Err(e) => Err(match e.kind() {
            std::io::ErrorKind::UnexpectedEof => IoError::UnexpectedEof,
            std::io::ErrorKind::InvalidInput => IoError::InvalidInput,
            std::io::ErrorKind::InvalidData => IoError::InvalidData,
            _ => IoError::Other,
        }),
    }
}

/// Compresses `data` into a zlib stream at the default level.
pub fn compress_zlib(data: &[u8]) -> (r: Result<Vec<u8>, IoError>)
    ensures
        r matches Ok(v) && v@ == zlib_compressed(data@),
        r matches Ok(v) ==> zlib_decompressed(v@) == Ok::<Seq<u8>, IoError>(data@),
{
    zlib_compress(data)
}

/// Compresses `data` into a zlib stream at the default level, as a buffer.
pub fn compress_zlib_bytes(data: &[u8]) -> (r: Result<Vec<u8>, IoError>)
    ensures
        r matches Ok(v) && v@ == zlib_compressed(data@),
        r matches Ok(v) ==> zlib_decompressed(v@) == Ok::<Seq<u8>, IoError>(data@),
{
    zlib_compress(data)
}

/// The variable-length integer that carries a length: the length's low 32
/// bits, read as a signed integer.
pub open spec fn length_prefix(n: nat) -> Seq<u8> {
    varint_bytes(((n as usize) as i32) as u32)
}

/// The payload of a packet in a compressed session: below the threshold a
/// zero data length and the payload; else the payload's length and its zlib
/// stream.
pub open spec fn compressed_payload(payload: Seq<u8>, threshold: u32) -> Seq<u8> {
    if payload.len() < threshold {
        varint_bytes(0) + payload
    } else {
        length_prefix(payload.len()) + zlib_compressed(payload)
    }
}

/// `out` is what `compress_payload` writes for `payload` at `threshold`:
/// `compressed_payload`, whose zlib stream, where there is one, decompresses
/// back to the payload.
pub open spec fn payload_written(payload: Seq<u8>, threshold: u32, out: Seq<u8>) -> bool {
    &&& out == compressed_payload(payload, threshold)
    &&& payload.len() >= threshold ==> zlib_decompressed(zlib_compressed(payload)) == Ok::<Seq<u8>, IoError>(payload)
}

/// Frames the payload of a packet for a session with compression at
/// `threshold`.
pub fn compress_payload(payload: Vec<u8>, threshold: u32) -> (r: Result<Vec<u8>, IoError>)
    ensures
        r matches Ok(v) && payload_written(payload@, threshold, v@),
{
    if payload.len() < threshold as usize {
        let mut inner: Vec<u8> = Vec::new();
        write_varint(&mut inner, 0);
        append_slice(&mut inner, payload.as_slice());
        Ok(inner)
    } else {
        let data_length = payload.len() as i32;
        let compressed = match compress_zlib_bytes(payload.as_slice()) {
            Ok(c) => c,
            Err(e) => return Err(e),
        };
        let mut inner: Vec<u8> = Vec::new();
        append_varint(&mut inner, data_length as u32);
        append_slice(&mut inner, compressed.as_slice());
        Ok(inner)
    }
}

/// What reading a compressed-session payload gives: a failure of its data
/// length is `InvalidData`; a data length of zero leaves the rest as it is;
/// any other decompresses the rest.
pub open spec fn decompressed_payload(src: Seq<u8>) -> Result<Seq<u8>, IoError> {
    match varint_decode(src) {
        None => Err(IoError::InvalidData),
        Some((len, n)) => if len == 0 {
            Ok(src.skip(n as int))
        } else {
            zlib_decompressed(src.skip(n as int))
        },
    }
}

/// Whether a compressed-session payload of `p` framed at `threshold` reads
/// back: below the threshold always; else where its length is positive and
/// fits the signed 32-bit length field.
pub open spec fn payload_reads_back(p: Seq<u8>, threshold: u32) -> bool {
    p.len() < threshold || (0 < p.len() && p.len() < 0x8000_0000)
}

/// Reads the payload of a packet of a session with compression. What
/// `compress_payload` writes reads back to the payload it was given.
pub fn decompress_packet(src: Vec<u8>) -> (r: Result<Vec<u8>, IoError>)
    ensures
        match decompressed_payload(src@) {
            Ok(d) => r matches Ok(v) && v@ == d,
            Err(e) => r == Err::<Vec<u8>, IoError>(e),
        },
        forall|p: Seq<u8>, t: u32|
            src@ == #[trigger] compressed_payload(p, t) && payload_reads_back(p, t) ==> (r matches Ok(v) && v@ == p),
{
    let (data_length, varint_len) = match read_varint(src.as_slice()) {
        Some(p) => p,
        None => {
            proof { lemma_compressed_payload_decodes(src@); }
            return Err(IoError::InvalidData);
        },
    };
    let rest = copy_range(src.as_slice(), varint_len, src.len());
    assert(rest@ =~= src@.skip(varint_len as int));
    if data_length == 0 {
        proof { lemma_compressed_payload_decodes(src@); }
        return Ok(rest);
    }
    let r = zlib_decompress(rest.as_slice());
    proof { lemma_compressed_payload_decodes(src@); }
    r
}

/// A framed compressed-session payload starts with its data length: zero
/// below the threshold, the payload's length above it.
pub proof fn lemma_compressed_payload_decodes(src: Seq<u8>)
    ensures
        forall|p: Seq<u8>, t: u32| src == #[trigger] compressed_payload(p, t) && payload_reads_back(p, t) ==> {
            if p.len() < t {
                varint_decode(src) == Some((0i32, 1nat)) && src.skip(1) == p
            } else {
                varint_decode(src) matches Some((len, k)) && len == p.len() && len != 0
                    && src.skip(k as int) == zlib_compressed(p)
            }
        },
{
    assert forall|p: Seq<u8>, t: u32| src == #[trigger] compressed_payload(p, t) && payload_reads_back(p, t) implies {
        if p.len() < t {
            varint_decode(src) == Some((0i32, 1nat)) && src.skip(1) == p
        } else {
            varint_decode(src) matches Some((len, k)) && len == p.len() && len != 0
                && src.skip(k as int) == zlib_compressed(p)
        }
    } by {
        if p.len() < t {
            lemma_varint_roundtrip(0, p);
            assert(varint_bytes(0i32 as u32) =~= seq![0u8]);
            assert(src.skip(1) =~= p);
        } else {
            let len = p.len() as i32;
            assert(len as u32 == ((p.len() as usize) as i32) as u32);
            lemma_varint_roundtrip(len, zlib_compressed(p));
            let k = varint_bytes(len as u32).len();
            assert(src.skip(k as int) =~= zlib_compressed(p));
        }
    }
}

/// Bytes ready to be framed and sent.
#[derive(Debug)]
pub struct RawPacket {
    /// The bytes of the packet: its id and its fields.
    pub data: Vec<u8>,
}

/// The frame of `data`: its length as a variable-length integer, then the data.
pub open spec fn frame(data: Seq<u8>) -> Seq<u8> {
    length_prefix(data.len()) + data
}

/// The bytes that a frame announces and the bytes that the announcement
/// took; or the failure of its length.
pub open spec fn frame_split(input: Seq<u8>) -> Result<(Seq<u8>, nat), PacketError> {
    match varint_scan(input, 0) {
        VarIntScan::Truncated => Err(PacketError::Io(IoError::UnexpectedEof)),
        VarIntScan::TooLong => Err(PacketError::Io(IoError::InvalidData)),
        VarIntScan::Complete(n) => {
            let len = varint_value(input, n);
            if len < 0 {
                Err(PacketError::NegativeLength(len as i64))
            } else {
                let end = if n + len > input.len() { input.len() as int } else { n + len };
                Ok((input.subrange(n as int, end), end as nat))
            }
        },
    }
}

impl RawPacket {
    /// The number of bytes.
    pub fn len(&self) -> (n: usize)
        ensures
            n == self.data@.len(),
    {
        self.data.len()
    }

    /// Reads one frame from the start of `input` and hands its bytes (up to
    /// the announced length, or to the end of the input if it is shorter) to
    /// the packet type's reader.
    pub fn read_sync<P: ReadPacket>(input: &[u8]) -> (r: Result<P, PacketError>)
        ensures
            match frame_split(input@) {
                Err(PacketError::Io(k)) => r matches Err(PacketError::Io(j)) && j == k,
                Err(PacketError::NegativeLength(l)) => r matches Err(PacketError::NegativeLength(m)) && m == l,
                _ => true,
            },
    {
        let (body, _) = match Self::read_frame(input) {
            Ok(p) => p,
            Err(e) => return Err(e),
        };
        P::from_reader(body.data.as_slice())
    }

    /// Reads one frame from the start of `input`: the announced bytes, or as
    /// many as the input holds, and the number of bytes taken.
    pub fn read_frame(input: &[u8]) -> (r: Result<(RawPacket, usize), PacketError>)
        ensures
            match frame_split(input@) {
                Ok((d, n)) => r matches Ok((p, m)) && p.data@ == d && m == n,
                Err(PacketError::Io(k)) => r matches Err(PacketError::Io(j)) && j == k,
                Err(PacketError::NegativeLength(l)) => r matches Err(PacketError::NegativeLength(m)) && m == l,
                _ => false,
            },
    {
        let (len, n) = match scan_varint(input) {
            Ok(p) => p,
            Err(e) => return Err(PacketError::Io(e)),
        };
        if len < 0 {
            return Err(PacketError::NegativeLength(len as i64));
        }
        let end = if len as usize > input.len() - n { input.len() } else { n + len as usize };
        let data = copy_range(input, n, end);
        Ok((RawPacket { data }, end))
    }

    /// Appends the frame of the bytes to `writer`.
    pub fn write_sync(&self, writer: &mut Vec<u8>)
        ensures
            final(writer)@ == old(writer)@ + frame(self.data@),
    {
        VarInt::from(self.data.len() as i32).write_sync(writer);
        append_slice(writer, self.data.as_slice());
        assert(final(writer)@ =~= old(writer)@ + frame(self.data@));
    }
}

/// A packet: its id and the encoded fields.
#[derive(Debug)]
pub struct Packet {
    /// The packet id.
    pub id: u8,
    /// The encoded fields.
    pub data: Vec<u8>,
}

/// The bytes of a packet before framing: its id as a variable-length integer,
/// then its fields.
pub open spec fn packet_body(id: u8, data: Seq<u8>) -> Seq<u8> {
    varint_bytes(id as u32) + data
}

impl Packet {
    /// A packet with the given id and fields.
    pub fn new(id: u8, data: Vec<u8>) -> (p: Self)
        ensures
            p.id == id,
            p.data@ == data@,
    {
        Packet { id, data }
    }

    /// A packet with the given id and field buffer.
    pub fn new_with_bytes(id: u8, data: Vec<u8>) -> (p: Self)
        ensures
            p.id == id,
            p.data@ == data@,
    {
        Packet { id, data }
    }

    /// The number of bytes of the id and the fields.
    pub fn len(&self) -> (n: usize)
        requires
            self.data@.len() + 5 <= usize::MAX,
        ensures
            n == packet_body(self.id, self.data@).len(),
    {
        proof { crate::varint::lemma_varint_bytes_len(self.id as u32); }
        (VarInt::new(self.id as i32).len() as usize) + self.data.len()
    }

    /// The raw packet: id and fields.
    pub fn to_raw(self) -> (r: RawPacket)
        ensures
            r.data@ == packet_body(self.id, self.data@),
    {
        let packet_id_varint = VarInt::new(self.id as i32);
        let mut buf: Vec<u8> = Vec::new();
        packet_id_varint.write_sync(&mut buf);
        append_slice(&mut buf, self.data.as_slice());
        assert(buf@ =~= packet_body(self.id, self.data@));
        RawPacket { data: buf }
    }

    /// The raw packet of a compressed session, the payload always compressed:
    /// the length of id and fields, then their zlib stream.
    pub fn compress(self, _threshold: u32) -> (r: Result<RawPacket, IoError>)
        ensures
            r matches Ok(p) && p.data@ == length_prefix(packet_body(self.id, self.data@).len())
                + zlib_compressed(packet_body(self.id, self.data@)),
    {
        let packet_id_varint = VarInt::new(self.id as i32);
        let mut uncompressed: Vec<u8> = Vec::new();
        packet_id_varint.write_sync(&mut uncompressed);
        append_slice(&mut uncompressed, self.data.as_slice());
        assert(uncompressed@ =~= packet_body(self.id, self.data@));
        let compressed = match compress_zlib(uncompressed.as_slice()) {
            Ok(c) => c,
            Err(e) => return Err(e),
        };
        let data_length = VarInt::new(uncompressed.len() as i32);
        let mut buf: Vec<u8> = Vec::new();
        data_length.write_sync(&mut buf);
        append_slice(&mut buf, compressed.as_slice());
        Ok(RawPacket { data: buf })
    }

    /// The raw packet: id and fields.
    pub fn into_raw(self) -> (r: Result<RawPacket, PacketError>)
        ensures
            r matches Ok(p) && p.data@ == packet_body(self.id, self.data@),
    {
        let mut buf: Vec<u8> = Vec::new();
        VarInt::new(self.id as i32).write_sync(&mut buf);
        append_slice(&mut buf, self.data.as_slice());
        assert(buf@ =~= packet_body(self.id, self.data@));
        Ok(RawPacket { data: buf })
    }

    /// The frame of the packet: the length of id and fields, the id, the fields.
    pub fn to_bytes(&self) -> (r: Vec<u8>)
        requires
            self.data@.len() + 5 <= usize::MAX,
        ensures
            r@ == frame(packet_body(self.id, self.data@)),
    {
        let packet_id_bytes = VarInt::from(self.id as i32).to_bytes();
        proof { crate::varint::lemma_varint_bytes_len(self.id as u32); }
        let length = VarInt::from((packet_id_bytes.len() + self.data.len()) as i32);
        let mut bytes: Vec<u8> = Vec::new();
        append_slice(&mut bytes, length.to_bytes().as_slice());
        append_slice(&mut bytes, packet_id_bytes.as_slice());
        append_slice(&mut bytes, self.data.as_slice());
        assert(bytes@ =~= frame(packet_body(self.id, self.data@)));
        bytes
    }
}

} // verus!
