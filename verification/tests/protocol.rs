use cobalt::codex::MinecraftCodex;
use cobalt::crypto::{minecraft_hash, Cfb8Decryptor, Cfb8Encryptor};
use cobalt::encoding::{deserialize_string_with_max, serialize_string_with_max};
use cobalt::error::IoError;
use cobalt::packet::{compress_payload, compress_zlib, decompress_packet, Packet, PacketError, RawPacket};
use cobalt::sdk::{Gamemode, GamemodeState, ItemId, ItemStack, PluginChannel};
use cobalt::serialize::{
    read_boolean, read_byte, read_bytes, read_int, read_long, read_short, read_string, read_varint, write_varint,
};
use cobalt::varint::{VarInt, VarLong};
use cobalt::net_server::{MetadataEntries, MetadataEntry};
use cobalt::wire::{Decode, Encode};

#[test]
fn varint_encodes_known_values() {
    let cases: Vec<(i32, Vec<u8>)> = vec![
        (0, vec![0x00]),
        (1, vec![0x01]),
        (127, vec![0x7f]),
        (128, vec![0x80, 0x01]),
        (255, vec![0xff, 0x01]),
        (25565, vec![0xdd, 0xc7, 0x01]),
        (2097151, vec![0xff, 0xff, 0x7f]),
        (i32::MAX, vec![0xff, 0xff, 0xff, 0xff, 0x07]),
        (-1, vec![0xff, 0xff, 0xff, 0xff, 0x0f]),
        (i32::MIN, vec![0x80, 0x80, 0x80, 0x80, 0x08]),
    ];
    for (value, bytes) in cases {
        assert_eq!(VarInt::new(value).to_bytes(), bytes, "encoding of {}", value);
        assert_eq!(VarInt::encoded_len(value) as usize, bytes.len());
        assert_eq!(VarInt::new(value).len() as usize, bytes.len());
        let mut out = vec![9u8];
        VarInt::new(value).write_sync(&mut out);
        assert_eq!(&out[1..], &bytes[..]);
    }
}

#[test]
fn varint_reads_back_what_was_written() {
    for value in [0, 1, 127, 128, 300, 25565, i32::MAX, -1, i32::MIN, -300] {
        let mut bytes = VarInt::new(value).to_bytes();
        let n = bytes.len();
        bytes.extend_from_slice(&[7, 7, 7]);
        let (read, taken) = VarInt::read_sync(&bytes).unwrap();
        assert_eq!(read.val(), value);
        assert_eq!(read, VarInt::new(value));
        assert_eq!(taken, n);
        assert_eq!(read_varint(&bytes), Some((value, n)));
    }
}

#[test]
fn varint_read_records_the_bytes_taken() {
    let (v, n) = VarInt::read_sync(&[0xac, 0x02]).unwrap();
    assert_eq!(v, VarInt(300, 2));
    assert_eq!(v, VarInt::new(300));
    assert_eq!(n, 2);
    let (v, n) = VarInt::read_sync(&[0x00]).unwrap();
    assert_eq!(v, VarInt(0, 1));
    assert_eq!(n, 1);
}

#[test]
fn varint_rejects_truncated_and_overlong_input() {
    assert_eq!(VarInt::read_sync(&[]), Err(IoError::UnexpectedEof));
    assert_eq!(VarInt::read_sync(&[0x80, 0x80]), Err(IoError::UnexpectedEof));
    assert_eq!(VarInt::read_sync(&[0xff, 0xff, 0xff, 0xff, 0xff, 0x01]), Err(IoError::InvalidData));
    assert_eq!(read_varint(&[0x80]), None);
    assert_eq!(read_varint(&[0xff, 0xff, 0xff, 0xff, 0xff]), None);
}

#[test]
fn varint_from_matches_new() {
    assert_eq!(VarInt::from(25565), VarInt::new(25565));
    assert_eq!(VarInt::new(25565), VarInt(25565, 3));
}

#[test]
fn write_varint_appends_the_encoding() {
    let mut out = Vec::new();
    write_varint(&mut out, 300);
    assert_eq!(out, vec![0xac, 0x02]);
}

#[test]
fn strings_are_length_prefixed_utf8() {
    let mut out = Vec::new();
    serialize_string_with_max("hello", &mut out, 32767).unwrap();
    assert_eq!(out, vec![5, b'h', b'e', b'l', b'l', b'o']);
    let mut out = Vec::new();
    serialize_string_with_max("é", &mut out, 32767).unwrap();
    assert_eq!(out, vec![2, 0xc3, 0xa9]);
}

#[test]
fn strings_read_back_with_what_follows() {
    let mut out = Vec::new();
    serialize_string_with_max("Cobalt ⛏", &mut out, 100).unwrap();
    let n = out.len();
    out.extend_from_slice(&[1, 2, 3]);
    let (s, taken) = deserialize_string_with_max(&out, 100).unwrap();
    assert_eq!(s, "Cobalt ⛏");
    assert_eq!(taken, n);
}

#[test]
fn strings_over_the_limit_are_refused() {
    let mut out = Vec::new();
    assert_eq!(serialize_string_with_max("abc", &mut out, 2), Err(IoError::InvalidInput));
    assert!(out.is_empty());
    assert_eq!(deserialize_string_with_max(&[3, b'a', b'b', b'c'], 2), Err(IoError::InvalidInput));
    // a character outside the basic plane counts as two UTF-16 units
    let mut out = Vec::new();
    assert_eq!(serialize_string_with_max("😀", &mut out, 1), Err(IoError::InvalidInput));
}

#[test]
fn strings_with_bad_bytes_fail() {
    assert_eq!(deserialize_string_with_max(&[2, 0xff, 0xfe], 100), Err(IoError::InvalidData));
    assert_eq!(deserialize_string_with_max(&[5, b'a'], 100), Err(IoError::UnexpectedEof));
    assert_eq!(deserialize_string_with_max(&[], 100), Err(IoError::UnexpectedEof));
}

#[test]
fn fixed_width_reads() {
    assert_eq!(read_byte(&[0xfe, 1]), Ok((0xfe, 1)));
    assert_eq!(read_byte(&[]), Err(IoError::UnexpectedEof));
    assert_eq!(read_short(&[0xff, 0xfe]), Ok((-2, 2)));
    assert_eq!(read_short(&[0x01]), Err(IoError::UnexpectedEof));
    assert_eq!(read_int(&[0x00, 0x00, 0x01, 0x00]), Ok((256, 4)));
    assert_eq!(read_int(&[0x80, 0, 0, 0]), Ok((i32::MIN, 4)));
    assert_eq!(read_long(&[0, 0, 0, 0, 0, 0, 0x12, 0x34]), Ok((0x1234, 8)));
    assert_eq!(read_long(&[0xff; 8]), Ok((-1, 8)));
    assert_eq!(read_long(&[0; 7]), Err(IoError::UnexpectedEof));
    assert_eq!(read_boolean(&[0]), Ok((false, 1)));
    assert_eq!(read_boolean(&[7]), Ok((true, 1)));
    assert_eq!(read_bytes(&[1, 2, 3], 2), Ok((vec![1, 2], 2)));
    assert_eq!(read_bytes(&[1], 2), Err(IoError::UnexpectedEof));
}

#[test]
fn read_string_reads_a_protocol_string() {
    let (s, n) = read_string(&[3, b'a', b'b', b'c', 9]).unwrap();
    assert_eq!(s, "abc");
    assert_eq!(n, 4);
    assert_eq!(read_string(&[0xff, 0xff, 0xff, 0xff, 0xff]).unwrap_err(), IoError::InvalidData);
}

#[test]
fn small_payloads_are_sent_uncompressed() {
    let out = compress_payload(vec![1, 2, 3], 256).unwrap();
    assert_eq!(out, vec![0, 1, 2, 3]);
    assert_eq!(decompress_packet(out).unwrap(), vec![1, 2, 3]);
}

#[test]
fn large_payloads_round_trip_through_zlib() {
    let payload: Vec<u8> = (0..1000u32).map(|i| (i % 7) as u8).collect();
    let out = compress_payload(payload.clone(), 256).unwrap();
    assert_eq!(&out[..2], &VarInt::new(1000).to_bytes()[..]);
    assert_eq!(&out[2..], &compress_zlib(&payload).unwrap()[..]);
    assert!(out.len() < payload.len());
    assert_eq!(decompress_packet(out).unwrap(), payload);
}

#[test]
fn decompress_rejects_a_bad_length_and_a_bad_stream() {
    assert_eq!(decompress_packet(vec![]), Err(IoError::InvalidData));
    assert!(decompress_packet(vec![5, 1, 2, 3]).is_err());
}

#[test]
fn packets_frame_their_id_and_fields() {
    let p = Packet::new(0x00, vec![0xaa, 0xbb]);
    assert_eq!(p.len(), 3);
    assert_eq!(p.to_bytes(), vec![3, 0x00, 0xaa, 0xbb]);
    let raw = Packet::new(0x21, vec![1]).to_raw();
    assert_eq!(raw.data, vec![0x21, 1]);
    assert_eq!(raw.len(), 2);
    let raw = Packet::new_with_bytes(0x05, vec![]).into_raw().unwrap();
    assert_eq!(raw.data, vec![0x05]);
}

#[test]
fn packet_compress_always_compresses() {
    let raw = Packet::new(0x01, vec![1, 2, 3]).compress(256).unwrap();
    assert_eq!(raw.data[0], 4);
    assert_eq!(decompress_packet(raw.data).unwrap(), vec![0x01, 1, 2, 3]);
}

#[test]
fn raw_packets_frame_and_read_back() {
    let raw = RawPacket { data: vec![1, 2, 3] };
    let mut out = vec![];
    raw.write_sync(&mut out);
    assert_eq!(out, vec![3, 1, 2, 3]);
    out.push(0xee);
    let (back, n) = RawPacket::read_frame(&out).unwrap();
    assert_eq!(back.data, vec![1, 2, 3]);
    assert_eq!(n, 4);
    match RawPacket::read_frame(&[0xff, 0xff, 0xff, 0xff, 0x0f]) {
        Err(PacketError::NegativeLength(-1)) => {}
        other => panic!("unexpected {:?}", other),
    }
}

#[test]
fn minecraft_hash_matches_known_server_ids() {
    assert_eq!(minecraft_hash(b"Notch", b""), "4ed1f46bbe04bc756bcb17c0c7ce3e4632f06a48");
    assert_eq!(minecraft_hash(b"jeb_", b""), "-7c9d5b0044c130109a5d7b5fb5c317c02b4e28c1");
    assert_eq!(minecraft_hash(b"simon", b""), "88e16a1019277b15d58faf0541e11910eb756f6");
    assert_eq!(minecraft_hash(b"No", b"tch"), "4ed1f46bbe04bc756bcb17c0c7ce3e4632f06a48");
}

#[test]
fn cfb8_decrypts_what_it_encrypted() {
    let key = [7u8; 16];
    let mut enc = Cfb8Encryptor::new(&key).unwrap();
    let mut dec = Cfb8Decryptor::new(&key).unwrap();
    let plain = b"hello, cobalt".to_vec();
    let c1 = enc.encrypt(&plain[..5]).unwrap();
    let c2 = enc.encrypt(&plain[5..]).unwrap();
    assert_eq!(c1.len() + c2.len(), plain.len());
    assert_ne!([c1.clone(), c2.clone()].concat(), plain);
    let mut back = dec.decrypt(&c1).unwrap();
    back.extend(dec.decrypt(&c2).unwrap());
    assert_eq!(back, plain);
}

#[test]
fn codec_cuts_frames_and_keeps_the_rest() {
    let mut codec = MinecraftCodex::default();
    let mut buf = vec![3, 0x00, 0xaa, 0xbb, 0x02];
    let p = codec.decode(&mut buf).unwrap().unwrap();
    assert_eq!(p.id, 0x00);
    assert_eq!(p.data, vec![0xaa, 0xbb]);
    assert_eq!(buf, vec![0x02]);
    assert!(codec.decode(&mut buf).unwrap().is_none());
    assert_eq!(buf, vec![0x02]);
    let mut empty = vec![];
    assert!(codec.decode(&mut empty).unwrap().is_none());
}

#[test]
fn codec_decompresses_in_a_compressed_session() {
    let mut codec = MinecraftCodex::new();
    codec.threshold = Some(4);
    let payload: Vec<u8> = vec![0x01, 9, 9, 9, 9, 9, 9, 9, 9];
    let inner = compress_payload(payload, 4).unwrap();
    let mut buf = VarInt::new(inner.len() as i32).to_bytes();
    buf.extend_from_slice(&inner);
    let p = codec.decode(&mut buf).unwrap().unwrap();
    assert_eq!(p.id, 0x01);
    assert_eq!(p.data, vec![9; 8]);
    assert!(buf.is_empty());
}

#[test]
fn codec_reads_an_encrypted_session() {
    let key = [3u8; 16];
    let mut enc = Cfb8Encryptor::new(&key).unwrap();
    let mut codec = MinecraftCodex::new();
    codec.decryptor = Some(Cfb8Decryptor::new(&key).unwrap());
    let mut buf = enc.encrypt(&[2, 0x07, 0x2a]).unwrap();
    let p = codec.decode(&mut buf).unwrap().unwrap();
    assert_eq!(p.id, 0x07);
    assert_eq!(p.data, vec![0x2a]);
}

#[test]
fn gamemode_and_items() {
    let g = GamemodeState::new(Gamemode::Creative);
    assert_eq!(g.gamemode, Gamemode::Creative);
    assert!(!g.hardcore);
    // the empty stack holds air; only the `Empty` id counts as empty
    assert!(!ItemStack::empty().is_empty());
    assert!(ItemStack::new(ItemId::Empty, 0, 0).is_empty());
    assert_eq!(ItemId::default(), ItemId::Air);
    assert_eq!(ItemId::Empty.value(), -1);
}

#[test]
fn plugin_channel_names() {
    assert_eq!(PluginChannel::McBrand.to_string(), "MC|Brand");
    assert_eq!(PluginChannel::try_from("MC|Brand"), Ok(PluginChannel::McBrand));
    assert!(PluginChannel::try_from("MC|Other").is_err());
}

#[test]
fn metadata_reads_back_as_written() {
    let entries = MetadataEntries(vec![
        MetadataEntry::Byte(0, 0x20),
        MetadataEntry::Short(1, -300),
        MetadataEntry::Int(2, 123456),
        MetadataEntry::Float(3, 0x3f80_0000),
        MetadataEntry::Text(4, "name".to_string()),
        MetadataEntry::Byte(10, 127),
    ]);
    let mut out = Vec::new();
    entries.encode(&mut out).unwrap();
    assert_eq!(&out[..2], &[0x00, 0x20]);
    assert_eq!(&out[2..5], &[0x21, 0xfe, 0xd4]);
    assert_eq!(*out.last().unwrap(), 0x7f);
    let n = out.len();
    out.extend_from_slice(&[1, 2]);
    let (back, taken) = MetadataEntries::decode(&out).unwrap();
    assert_eq!(taken, n);
    assert_eq!(back.0.len(), 6);
    assert!(matches!(back.0[1], MetadataEntry::Short(1, -300)));
    assert!(matches!(back.0[2], MetadataEntry::Int(2, 123456)));
    assert!(matches!(back.0[3], MetadataEntry::Float(3, 0x3f80_0000)));
    assert!(matches!(&back.0[4], MetadataEntry::Text(4, s) if s == "name"));
    // a float at index 31 writes the end marker as its header
    let mut out = Vec::new();
    MetadataEntries(vec![MetadataEntry::Float(31, 0)]).encode(&mut out).unwrap();
    assert_eq!(out[0], 0x7f);
    let (back, taken) = MetadataEntries::decode(&out).unwrap();
    assert!(back.0.is_empty());
    assert_eq!(taken, 1);
}

#[test]
fn optional_values_read_their_presence_byte() {
    assert_eq!(<Option<u8> as Decode>::decode(&[1, 7, 9]), Ok((Some(7), 2)));
    assert_eq!(<Option<u8> as Decode>::decode(&[0, 7]), Ok((None, 1)));
    assert_eq!(<Option<u8> as Decode>::decode(&[]), Err(IoError::UnexpectedEof));
    assert_eq!(<Option<u8> as Decode>::decode(&[2]), Err(IoError::UnexpectedEof));
    let mut out = Vec::new();
    Some(5u8).encode(&mut out).unwrap();
    None::<u8>.encode(&mut out).unwrap();
    assert_eq!(out, vec![1, 5, 0]);
}

#[test]
fn varlong_holds_its_value() {
    assert_eq!(VarLong(-5), VarLong(-5));
    assert_ne!(VarLong(1), VarLong(2));
}

#[test]
fn read_string_reads_back_encode_string() {
    for s in ["", "a", "héllo wörld", "日本語", "𝄞 clef"] {
        let mut bytes = cobalt::states::encode_string(s);
        let n = bytes.len();
        bytes.extend_from_slice(&[0xff, 0x00]);
        let (back, taken) = read_string(&bytes).unwrap();
        assert_eq!(back, s);
        assert_eq!(taken, n);
    }
    assert_eq!(read_string(&[0x01, 0xff]).unwrap_err(), IoError::InvalidData);
    assert_eq!(read_string(&[]).unwrap_err(), IoError::InvalidData);
    assert_eq!(read_string(&[0x03, 0x61]).unwrap_err(), IoError::UnexpectedEof);
}

#[test]
fn cfb8_output_has_the_input_length() {
    let key = [3u8; 16];
    let mut enc = Cfb8Encryptor::new(&key).unwrap();
    for len in [0usize, 1, 15, 16, 17, 100] {
        let plain = vec![0x5au8; len];
        let c = enc.encrypt(&plain).unwrap();
        assert_eq!(c.len(), len);
    }
    let mut a = Cfb8Encryptor::new(&key).unwrap();
    let mut b = Cfb8Encryptor::new(&key).unwrap();
    let whole = a.encrypt(b"abcdefghij").unwrap();
    let mut parts = b.encrypt(b"abc").unwrap();
    parts.extend(b.encrypt(b"defghij").unwrap());
    assert_eq!(whole, parts);
    assert_ne!(&whole[..], b"abcdefghij");
}

#[test]
fn compression_always_succeeds() {
    for len in [0usize, 1, 255, 256, 5000] {
        let payload: Vec<u8> = (0..len).map(|i| (i % 7) as u8).collect();
        assert!(compress_zlib(&payload).is_ok());
        let out = compress_payload(payload.clone(), 1).unwrap();
        if len >= 1 {
            assert_eq!(decompress_packet(out).unwrap(), payload);
        }
    }
    assert!(Packet::new(0x02, vec![]).compress(0).is_ok());
}

#[test]
fn codec_decrypts_frames_that_arrive_in_pieces() {
    let key = [9u8; 16];
    let mut enc = Cfb8Encryptor::new(&key).unwrap();
    let mut codec = MinecraftCodex::new();
    codec.decryptor = Some(Cfb8Decryptor::new(&key).unwrap());
    let wire = enc.encrypt(&[3, 0x05, 0x01, 0x02, 2, 0x06, 0x09]).unwrap();
    let mut buf = wire[..2].to_vec();
    assert!(codec.decode(&mut buf).unwrap().is_none());
    assert_eq!(codec.decrypted_offset, 2);
    assert_eq!(buf, vec![3, 0x05]);
    buf.extend_from_slice(&wire[2..]);
    let p = codec.decode(&mut buf).unwrap().unwrap();
    assert_eq!((p.id, p.data), (0x05, vec![0x01, 0x02]));
    assert_eq!(codec.decrypted_offset, buf.len());
    let q = codec.decode(&mut buf).unwrap().unwrap();
    assert_eq!((q.id, q.data), (0x06, vec![0x09]));
    assert!(buf.is_empty());
    assert_eq!(codec.decrypted_offset, 0);
}
