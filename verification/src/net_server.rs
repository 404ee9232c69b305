//! The packets that the server sends, and how they are written.
use vstd::prelude::*;
use vstd::utf8::encode_utf8;
use crate::bytes::{be_bytes, be_value, lemma_be_roundtrip, pow256, read_be};
use crate::encoding::{
    deserialize_string_with_max, lemma_string_roundtrip, string_decode, string_decode_aborts, string_encoding,
    MAX_STRING_LENGTH,
};
use crate::text::utf16_units;
use crate::error::IoError;
use crate::sdk::{Difficulty, Dimension, Gamemode, GamemodeState, WorldType};
use crate::types::{Byte, Double, Float, Integer, UShort};
use crate::varint::{lemma_varint_roundtrip, varint_bytes, varint_decode, VarInt};
use crate::wire::{Encode, PacketId, RawBytesArray};

verus! {

/// Two encodings one after the other; `None` where either is.
pub open spec fn cat(a: Option<Seq<u8>>, b: Option<Seq<u8>>) -> Option<Seq<u8>> {
    match (a, b) {
        (Some(x), Some(y)) => Some(x + y),
        _ => None,
    }
}

/// Joins the game: the player's entity, mode, dimension, difficulty, the
/// player limit, the world type and whether debug information is reduced.
#[derive(Debug)]
pub struct JoinGame {
    pub entity_id: Integer,
    pub gamemode: GamemodeState,
    pub dimension: Dimension,
    pub difficulty: Difficulty,
    pub max_players: Byte,
    pub level_type: WorldType,
    pub reduced_debug_info: bool,
}

impl JoinGame {
    /// The packet with the given fields.
    pub fn new(
        entity_id: Integer,
        gamemode: GamemodeState,
        dimension: Dimension,
        difficulty: Difficulty,
        max_players: Byte,
        level_type: WorldType,
        reduced_debug_info: bool,
    ) -> (p: Self)
        ensures
            p == (JoinGame { entity_id, gamemode, dimension, difficulty, max_players, level_type, reduced_debug_info }),
    {
        JoinGame { entity_id, gamemode, dimension, difficulty, max_players, level_type, reduced_debug_info }
    }
}

impl Encode for JoinGame {
    open spec fn spec_encoding(&self) -> Option<Seq<u8>> {
        cat(cat(cat(cat(cat(cat(
            self.entity_id.spec_encoding(),
            self.gamemode.spec_encoding()),
            self.dimension.spec_encoding()),
            self.difficulty.spec_encoding()),
            self.max_players.spec_encoding()),
            self.level_type.spec_encoding()),
            self.reduced_debug_info.spec_encoding())
    }

    fn encode(&self, writer: &mut Vec<u8>) -> (r: Result<(), IoError>) {
        let ghost w0 = writer@;
        let _ = self.entity_id.encode(writer);
        let _ = self.gamemode.encode(writer);
        let _ = self.dimension.encode(writer);
        let _ = self.difficulty.encode(writer);
        let _ = self.max_players.encode(writer);
        let ghost w5 = writer@;
        match self.level_type.encode(writer) {
            Ok(()) => {},
            Err(e) => return Err(e),
        }
        let _ = self.reduced_debug_info.encode(writer);
        assert(writer@ =~= w0 + self.spec_encoding().unwrap());
        Ok(())
    }
}

impl PacketId for JoinGame {
    open spec fn spec_id() -> u8 { 0x01 }
    fn id() -> (i: u8) { 0x01 }
}

/// Tells the client that login succeeded, with its UUID and name.
#[derive(Debug)]
pub struct LoginSuccess {
    pub uuid: String,
    pub username: String,
}

impl LoginSuccess {
    /// The packet with the given fields.
    pub fn new(uuid: String, username: String) -> (p: Self)
        ensures
            p.uuid@ == uuid@,
            p.username@ == username@,
    {
        LoginSuccess { uuid, username }
    }
}

impl Encode for LoginSuccess {
    open spec fn spec_encoding(&self) -> Option<Seq<u8>> {
        cat(self.uuid.spec_encoding(), self.username.spec_encoding())
    }

    fn encode(&self, writer: &mut Vec<u8>) -> (r: Result<(), IoError>) {
        let ghost w0 = writer@;
        match self.uuid.encode(writer) {
            Ok(()) => {},
            Err(e) => return Err(e),
        }
        match self.username.encode(writer) {
            Ok(()) => {},
            Err(e) => return Err(e),
        }
        assert(writer@ =~= w0 + self.spec_encoding().unwrap());
        Ok(())
    }
}

impl PacketId for LoginSuccess {
    open spec fn spec_id() -> u8 { 0x02 }
    fn id() -> (i: u8) { 0x02 }
}

/// Turns compression on, from the given payload size.
#[derive(Debug)]
pub struct SetCompression {
    pub threshold: VarInt,
}

impl SetCompression {
    /// The packet with the given threshold.
    pub fn new(threshold: VarInt) -> (p: Self)
        ensures
            p.threshold == threshold,
    {
        SetCompression { threshold }
    }
}

impl Encode for SetCompression {
    open spec fn spec_encoding(&self) -> Option<Seq<u8>> {
        self.threshold.spec_encoding()
    }

    fn encode(&self, writer: &mut Vec<u8>) -> (r: Result<(), IoError>) {
        self.threshold.encode(writer)
    }
}

impl PacketId for SetCompression {
    open spec fn spec_id() -> u8 { 0x03 }
    fn id() -> (i: u8) { 0x03 }
}

/// Asks the client to encrypt: the server id, the public key and a token.
#[derive(Debug)]
pub struct EncryptionRequest {
    pub server_id: String,
    pub public_key: Vec<u8>,
    pub verify_token: Vec<u8>,
}

impl EncryptionRequest {
    /// The packet with the given fields.
    pub fn new(server_id: String, public_key: Vec<u8>, verify_token: Vec<u8>) -> (p: Self)
        ensures
            p.server_id@ == server_id@,
            p.public_key@ == public_key@,
            p.verify_token@ == verify_token@,
    {
        EncryptionRequest { server_id, public_key, verify_token }
    }
}

impl Encode for EncryptionRequest {
    open spec fn spec_encoding(&self) -> Option<Seq<u8>> {
        cat(cat(self.server_id.spec_encoding(), self.public_key.spec_encoding()), self.verify_token.spec_encoding())
    }

    fn encode(&self, writer: &mut Vec<u8>) -> (r: Result<(), IoError>) {
        let ghost w0 = writer@;
        match self.server_id.encode(writer) {
            Ok(()) => {},
            Err(e) => return Err(e),
        }
        match self.public_key.encode(writer) {
            Ok(()) => {},
            Err(e) => return Err(e),
        }
        match self.verify_token.encode(writer) {
            Ok(()) => {},
            Err(e) => return Err(e),
        }
        assert(writer@ =~= w0 + self.spec_encoding().unwrap());
        Ok(())
    }
}

impl PacketId for EncryptionRequest {
    open spec fn spec_id() -> u8 { 0x01 }
    fn id() -> (i: u8) { 0x01 }
}

/// Places the player: position, look and the flags of relative fields.
#[derive(Debug)]
pub struct PlayerPositionAndLook {
    pub x: Double,
    pub y: Double,
    pub z: Double,
    pub yaw: Float,
    pub pitch: Float,
    pub flags: Byte,
}

impl PlayerPositionAndLook {
    /// The packet with the given fields.
    pub fn new(x: Double, y: Double, z: Double, yaw: Float, pitch: Float, flags: Byte) -> (p: Self)
        ensures
            p == (PlayerPositionAndLook { x, y, z, yaw, pitch, flags }),
    {
        PlayerPositionAndLook { x, y, z, yaw, pitch, flags }
    }
}

impl Encode for PlayerPositionAndLook {
    open spec fn spec_encoding(&self) -> Option<Seq<u8>> {
        cat(cat(cat(cat(cat(
            self.x.spec_encoding(),
            self.y.spec_encoding()),
            self.z.spec_encoding()),
            self.yaw.spec_encoding()),
            self.pitch.spec_encoding()),
            self.flags.spec_encoding())
    }

    fn encode(&self, writer: &mut Vec<u8>) -> (r: Result<(), IoError>) {
        let ghost w0 = writer@;
        let _ = self.x.encode(writer);
        let _ = self.y.encode(writer);
        let _ = self.z.encode(writer);
        let _ = self.yaw.encode(writer);
        let _ = self.pitch.encode(writer);
        let _ = self.flags.encode(writer);
        assert(writer@ =~= w0 + self.spec_encoding().unwrap());
        Ok(())
    }
}

impl PacketId for PlayerPositionAndLook {
    open spec fn spec_id() -> u8 { 0x08 }
    fn id() -> (i: u8) { 0x08 }
}

/// Checks that the client is alive.
#[derive(Debug)]
pub struct KeepAlive {
    pub keep_alive_id: VarInt,
}

impl KeepAlive {
    /// The packet with the given id.
    pub fn new(keep_alive_id: VarInt) -> (p: Self)
        ensures
            p.keep_alive_id == keep_alive_id,
    {
        KeepAlive { keep_alive_id }
    }
}

impl Encode for KeepAlive {
    open spec fn spec_encoding(&self) -> Option<Seq<u8>> {
        self.keep_alive_id.spec_encoding()
    }

    fn encode(&self, writer: &mut Vec<u8>) -> (r: Result<(), IoError>) {
        self.keep_alive_id.encode(writer)
    }
}

impl PacketId for KeepAlive {
    open spec fn spec_id() -> u8 { 0x00 }
    fn id() -> (i: u8) { 0x00 }
}

/// A chat message: its JSON text and where it shows.
#[derive(Debug)]
pub struct ChatMessage {
    pub json_data: String,
    pub position: Byte,
}

impl ChatMessage {
    /// The packet with the given fields.
    pub fn new(json_data: String, position: Byte) -> (p: Self)
        ensures
            p.json_data@ == json_data@,
            p.position == position,
    {
        ChatMessage { json_data, position }
    }
}

impl Encode for ChatMessage {
    open spec fn spec_encoding(&self) -> Option<Seq<u8>> {
        cat(self.json_data.spec_encoding(), self.position.spec_encoding())
    }

    fn encode(&self, writer: &mut Vec<u8>) -> (r: Result<(), IoError>) {
        let ghost w0 = writer@;
        match self.json_data.encode(writer) {
            Ok(()) => {},
            Err(e) => return Err(e),
        }
        let _ = self.position.encode(writer);
        assert(writer@ =~= w0 + self.spec_encoding().unwrap());
        Ok(())
    }
}

impl PacketId for ChatMessage {
    open spec fn spec_id() -> u8 { 0x02 }
    fn id() -> (i: u8) { 0x02 }
}

/// The blocks of one chunk column.
#[derive(Debug)]
pub struct ChunkData {
    pub chunk_x: Integer,
    pub chunk_z: Integer,
    pub ground_up_continuous: bool,
    pub primary_bitmask: UShort,
    pub size: VarInt,
    pub data: RawBytesArray,
}

impl ChunkData {
    /// The packet with the given fields.
    pub fn new(
        chunk_x: Integer,
        chunk_z: Integer,
        ground_up_continuous: bool,
        primary_bitmask: UShort,
        size: VarInt,
        data: RawBytesArray,
    ) -> (p: Self)
        ensures
            p.chunk_x == chunk_x,
            p.chunk_z == chunk_z,
            p.ground_up_continuous == ground_up_continuous,
            p.primary_bitmask == primary_bitmask,
            p.size == size,
            p.data.0@ == data.0@,
    {
        ChunkData { chunk_x, chunk_z, ground_up_continuous, primary_bitmask, size, data }
    }
}

impl Encode for ChunkData {
    open spec fn spec_encoding(&self) -> Option<Seq<u8>> {
        cat(cat(cat(cat(cat(
            self.chunk_x.spec_encoding(),
            self.chunk_z.spec_encoding()),
            self.ground_up_continuous.spec_encoding()),
            self.primary_bitmask.spec_encoding()),
            self.size.spec_encoding()),
            self.data.spec_encoding())
    }

    fn encode(&self, writer: &mut Vec<u8>) -> (r: Result<(), IoError>) {
        let ghost w0 = writer@;
        let _ = self.chunk_x.encode(writer);
        let _ = self.chunk_z.encode(writer);
        let _ = self.ground_up_continuous.encode(writer);
        let _ = self.primary_bitmask.encode(writer);
        let _ = self.size.encode(writer);
        let _ = self.data.encode(writer);
        assert(writer@ =~= w0 + self.spec_encoding().unwrap());
        Ok(())
    }
}

impl PacketId for ChunkData {
    open spec fn spec_id() -> u8 { 0x21 }
    fn id() -> (i: u8) { 0x21 }
}

/// A property of a player's profile, such as its skin.
#[derive(Debug)]
pub struct Property {
    pub name: String,
    pub value: String,
    pub signature: Option<String>,
}

impl Property {
    /// The property with the given fields.
    pub fn new(name: String, value: String, signature: Option<String>) -> (p: Self)
        ensures
            p.name@ == name@,
            p.value@ == value@,
            p.signature == signature,
    {
        Property { name, value, signature }
    }
}

impl Encode for Property {
    open spec fn spec_encoding(&self) -> Option<Seq<u8>> {
        cat(cat(self.name.spec_encoding(), self.value.spec_encoding()), self.signature.spec_encoding())
    }

    fn encode(&self, writer: &mut Vec<u8>) -> (r: Result<(), IoError>) {
        let ghost w0 = writer@;
        match self.name.encode(writer) {
            Ok(()) => {},
            Err(e) => return Err(e),
        }
        match self.value.encode(writer) {
            Ok(()) => {},
            Err(e) => return Err(e),
        }
        match self.signature.encode(writer) {
            Ok(()) => {},
            Err(e) => return Err(e),
        }
        assert(writer@ =~= w0 + self.spec_encoding().unwrap());
        Ok(())
    }
}

/// One player of a player list update.
#[derive(Debug)]
pub struct PlayerListItemData {
    pub uuid: u128,
    pub name: String,
    pub properties: Vec<Property>,
    pub gamemode: GamemodeState,
    pub ping: VarInt,
    pub display_name: Option<String>,
}

impl PlayerListItemData {
    /// The entry with the given fields.
    pub fn new(
        uuid: u128,
        name: String,
        properties: Vec<Property>,
        gamemode: GamemodeState,
        ping: VarInt,
        display_name: Option<String>,
    ) -> (p: Self)
        ensures
            p.uuid == uuid,
            p.name@ == name@,
            p.properties@ == properties@,
            p.gamemode == gamemode,
            p.ping == ping,
            p.display_name == display_name,
    {
        PlayerListItemData { uuid, name, properties, gamemode, ping, display_name }
    }
}

impl Encode for PlayerListItemData {
    open spec fn spec_encoding(&self) -> Option<Seq<u8>> {
        cat(cat(cat(cat(cat(
            self.uuid.spec_encoding(),
            self.name.spec_encoding()),
            self.properties.spec_encoding()),
            self.gamemode.spec_encoding()),
            self.ping.spec_encoding()),
            self.display_name.spec_encoding())
    }

    fn encode(&self, writer: &mut Vec<u8>) -> (r: Result<(), IoError>) {
        let ghost w0 = writer@;
        let _ = self.uuid.encode(writer);
        match self.name.encode(writer) {
            Ok(()) => {},
            Err(e) => return Err(e),
        }
        match self.properties.encode(writer) {
            Ok(()) => {},
            Err(e) => return Err(e),
        }
        let _ = self.gamemode.encode(writer);
        let _ = self.ping.encode(writer);
        match self.display_name.encode(writer) {
            Ok(()) => {},
            Err(e) => return Err(e),
        }
        assert(writer@ =~= w0 + self.spec_encoding().unwrap());
        Ok(())
    }
}

/// Updates the player list.
#[derive(Debug)]
pub struct PlayerListItem {
    pub action: VarInt,
    pub players: Vec<PlayerListItemData>,
}

impl PlayerListItem {
    /// The packet with the given fields.
    pub fn new(action: VarInt, players: Vec<PlayerListItemData>) -> (p: Self)
        ensures
            p.action == action,
            p.players@ == players@,
    {
        PlayerListItem { action, players }
    }
}

impl Encode for PlayerListItem {
    open spec fn spec_encoding(&self) -> Option<Seq<u8>> {
        cat(self.action.spec_encoding(), self.players.spec_encoding())
    }

    fn encode(&self, writer: &mut Vec<u8>) -> (r: Result<(), IoError>) {
        let ghost w0 = writer@;
        let _ = self.action.encode(writer);
        match self.players.encode(writer) {
            Ok(()) => {},
            Err(e) => return Err(e),
        }
        assert(writer@ =~= w0 + self.spec_encoding().unwrap());
        Ok(())
    }
}

impl PacketId for PlayerListItem {
    open spec fn spec_id() -> u8 { 0x38 }
    fn id() -> (i: u8) { 0x38 }
}

/// One entry of an entity's metadata: its index and a typed value. A float
/// is carried as its bit pattern.
#[derive(Debug)]
pub enum MetadataEntry {
    Byte(u8, u8),
    Short(u8, i16),
    Int(u8, i32),
    Float(u8, u32),
    Text(u8, String),
}

/// The value of a metadata entry, its text as characters.
pub enum MetadataView {
    Byte(u8, u8),
    Short(u8, i16),
    Int(u8, i32),
    Float(u8, u32),
    Text(u8, Seq<char>),
}

impl View for MetadataEntry {
    type V = MetadataView;

    open spec fn view(&self) -> MetadataView {
        match self {
            MetadataEntry::Byte(i, v) => MetadataView::Byte(*i, *v),
            MetadataEntry::Short(i, v) => MetadataView::Short(*i, *v),
            MetadataEntry::Int(i, v) => MetadataView::Int(*i, *v),
            MetadataEntry::Float(i, v) => MetadataView::Float(*i, *v),
            MetadataEntry::Text(i, v) => MetadataView::Text(*i, v@),
        }
    }
}

/// The header byte of an entry: its type in the top three bits, or-ed with
/// its index.
pub open spec fn metadata_header(t: u8, index: u8) -> u8 {
    ((t << 5u8) | index) as u8
}

impl Encode for MetadataEntry {
    open spec fn spec_encoding(&self) -> Option<Seq<u8>> {
        match self {
            MetadataEntry::Byte(i, v) => Some(seq![metadata_header(0, *i), *v]),
            MetadataEntry::Short(i, v) => Some(seq![metadata_header(1, *i)] + be_bytes((*v as u16) as nat, 2)),
            MetadataEntry::Int(i, v) => Some(seq![metadata_header(2, *i)] + be_bytes((*v as u32) as nat, 4)),
            MetadataEntry::Float(i, v) => Some(seq![metadata_header(3, *i)] + be_bytes(*v as nat, 4)),
            MetadataEntry::Text(i, v) => cat(Some(seq![metadata_header(4, *i)]), v.spec_encoding()),
        }
    }

    fn encode(&self, writer: &mut Vec<u8>) -> (r: Result<(), IoError>) {
        let ghost w0 = writer@;
        match self {
            MetadataEntry::Byte(idx, val) => {
                writer.push((0u8 << 5u8) | *idx);
                writer.push(*val);
            },
            MetadataEntry::Short(idx, val) => {
                writer.push((1u8 << 5u8) | *idx);
                let _ = val.encode(writer);
            },
            MetadataEntry::Int(idx, val) => {
                writer.push((2u8 << 5u8) | *idx);
                let _ = val.encode(writer);
            },
            MetadataEntry::Float(idx, val) => {
                writer.push((3u8 << 5u8) | *idx);
                let _ = val.encode(writer);
            },
            MetadataEntry::Text(idx, val) => {
                writer.push((4u8 << 5u8) | *idx);
                match val.encode(writer) {
                    Ok(()) => {},
                    Err(e) => return Err(e),
                }
            },
        }
        assert(writer@ =~= w0 + self.spec_encoding().unwrap());
        Ok(())
    }
}

/// What reading one metadata entry from the start of `input` gives: the
/// entry, or `None` at the end marker `0x7F`, and the bytes taken; an unknown
/// type is `InvalidData`.
pub open spec fn metadata_entry_decode(input: Seq<u8>) -> Result<(Option<MetadataView>, nat), IoError> {
    if input.len() < 1 {
        Err(IoError::UnexpectedEof)
    } else {
        let h = input[0];
        let t = h >> 5u8;
        let index = h & 0x1Fu8;
        let rest = input.skip(1);
        if h == 0x7F {
            Ok((None, 1))
        } else if t == 0 {
            if rest.len() < 1 { Err(IoError::UnexpectedEof) } else { Ok((Some(MetadataView::Byte(index, rest[0])), 2)) }
        } else if t == 1 {
            if rest.len() < 2 { Err(IoError::UnexpectedEof) } else {
                Ok((Some(MetadataView::Short(index, (be_value(rest.take(2)) as u16) as i16)), 3))
            }
        } else if t == 2 {
            if rest.len() < 4 { Err(IoError::UnexpectedEof) } else {
                Ok((Some(MetadataView::Int(index, (be_value(rest.take(4)) as u32) as i32)), 5))
            }
        } else if t == 3 {
            if rest.len() < 4 { Err(IoError::UnexpectedEof) } else {
                Ok((Some(MetadataView::Float(index, be_value(rest.take(4)) as u32)), 5))
            }
        } else if t == 4 {
            match string_decode(rest, MAX_STRING_LENGTH as nat) {
                Err(e) => Err(e),
                Ok((s, n)) => Ok((Some(MetadataView::Text(index, s)), n + 1)),
            }
        } else {
            Err(IoError::InvalidData)
        }
    }
}

/// Whether reading one metadata entry asks for a text of negative length.
pub open spec fn metadata_entry_aborts(input: Seq<u8>) -> bool {
    input.len() >= 1 && input[0] != 0x7F && input[0] >> 5u8 == 4 && string_decode_aborts(input.skip(1))
}

impl MetadataEntry {
    /// Reads one entry from the start of `input`: the entry, or `None` at
    /// the end marker, and the number of bytes taken.
    pub fn decode(input: &[u8]) -> (r: Result<(Option<MetadataEntry>, usize), IoError>)
        requires
            !metadata_entry_aborts(input@),
        ensures
            match metadata_entry_decode(input@) {
                Ok((e, n)) => r matches Ok((v, m)) && m == n && match (v, e) {
                    (None, None) => true,
                    (Some(x), Some(y)) => x@ == y,
                    _ => false,
                },
                Err(k) => r matches Err(j) && j == k,
            },
            r matches Ok((_, m)) ==> 1 <= m <= input@.len(),
    {
        if input.len() < 1 {
            return Err(IoError::UnexpectedEof);
        }
        let header = input[0];
        if header == 0x7F {
            return Ok((None, 1));
        }
        let entry_type = header >> 5u8;
        let index = header & 0x1Fu8;
        let rest = vstd::slice::slice_subrange(input, 1, input.len());
        assert(rest@ =~= input@.skip(1));
        if entry_type == 0 {
            if rest.len() < 1 {
                return Err(IoError::UnexpectedEof);
            }
            Ok((Some(MetadataEntry::Byte(index, rest[0])), 2))
        } else if entry_type == 1 {
            if rest.len() < 2 {
                return Err(IoError::UnexpectedEof);
            }
            Ok((Some(MetadataEntry::Short(index, (read_be(rest, 2) as u16) as i16)), 3))
        } else if entry_type == 2 {
            if rest.len() < 4 {
                return Err(IoError::UnexpectedEof);
            }
            Ok((Some(MetadataEntry::Int(index, (read_be(rest, 4) as u32) as i32)), 5))
        } else if entry_type == 3 {
            if rest.len() < 4 {
                return Err(IoError::UnexpectedEof);
            }
            Ok((Some(MetadataEntry::Float(index, read_be(rest, 4) as u32)), 5))
        } else if entry_type == 4 {
            match deserialize_string_with_max(rest, MAX_STRING_LENGTH) {
                Ok((s, n)) => Ok((Some(MetadataEntry::Text(index, s)), n + 1)),
                Err(e) => Err(e),
            }
        } else {
            Err(IoError::InvalidData)
        }
    }
}

/// An entity's metadata: its entries, then the end marker `0x7F`.
#[derive(Debug)]
pub struct MetadataEntries(pub Vec<MetadataEntry>);

impl View for MetadataEntries {
    type V = Seq<MetadataView>;

    open spec fn view(&self) -> Seq<MetadataView> {
        self.0@.map_values(|e: MetadataEntry| e@)
    }
}

impl Encode for MetadataEntries {
    open spec fn spec_encoding(&self) -> Option<Seq<u8>> {
        cat(crate::wire::encode_items(self.0@), Some(seq![0x7Fu8]))
    }

    fn encode(&self, writer: &mut Vec<u8>) -> (r: Result<(), IoError>) {
        let ghost start = writer@;
        let mut i: usize = 0;
        while i < self.0.len()
            invariant
                i <= self.0@.len(),
                crate::wire::encode_items(self.0@.take(i as int)) matches Some(b) && writer@ == start + b,
            decreases self.0@.len() - i,
        {
            assert(self.0@.take(i as int + 1).drop_last() =~= self.0@.take(i as int));
            let r = self.0[i].encode(writer);
            if r.is_err() {
                proof { crate::wire::lemma_encode_items_fails(self.0@, i as int + 1); }
                return r;
            }
            i = i + 1;
        }
        assert(self.0@.take(self.0@.len() as int) =~= self.0@);
        writer.push(0x7Fu8);
        assert(writer@ =~= start + self.spec_encoding().unwrap());
        Ok(())
    }
}

/// What reading metadata entries up to the end marker gives: the entries
/// and the bytes taken, the marker included.
pub open spec fn metadata_list_decode(input: Seq<u8>) -> Result<(Seq<MetadataView>, nat), IoError>
    decreases input.len(),
{
    match metadata_entry_decode(input) {
        Err(e) => Err(e),
        Ok((None, n)) => Ok((Seq::empty(), n)),
        Ok((Some(e), n)) => if 1 <= n <= input.len() {
            match metadata_list_decode(input.skip(n as int)) {
                Err(k) => Err(k),
                Ok((es, m)) => Ok((seq![e] + es, n + m)),
            }
        } else {
            Err(IoError::InvalidData)
        },
    }
}

/// Whether reading metadata entries reaches a text of negative length.
pub open spec fn metadata_list_aborts(input: Seq<u8>) -> bool
    decreases input.len(),
{
    metadata_entry_aborts(input) || match metadata_entry_decode(input) {
        Ok((Some(_), n)) => 1 <= n <= input.len() && metadata_list_aborts(input.skip(n as int)),
        _ => false,
    }
}

/// The bounds of what one entry takes.
pub proof fn lemma_metadata_entry_len(input: Seq<u8>)
    ensures
        metadata_entry_decode(input) matches Ok((_, n)) ==> 1 <= n <= input.len(),
{
    let rest = input.skip(1);
    if input.len() >= 1 && input[0] != 0x7F && input[0] >> 5u8 == 4 {
        crate::varint::lemma_varint_scan_bound(rest, 0);
    }
}

/// An entry that reads back as itself: its index fits the header's five
/// bits, its header is not the end marker (a float at index 31 would be),
/// and a text is within the protocol's limit and its UTF-8 length fits the
/// signed 32-bit length field.
pub open spec fn entry_reads_back(e: MetadataEntry) -> bool {
    match e {
        MetadataEntry::Byte(i, _) => i < 32,
        MetadataEntry::Short(i, _) => i < 32,
        MetadataEntry::Int(i, _) => i < 32,
        MetadataEntry::Float(i, _) => i < 31,
        MetadataEntry::Text(i, s) => i < 32 && s.spec_encoding() is Some && encode_utf8(s@).len() < 0x8000_0000,
    }
}

proof fn lemma_header(t: u8, i: u8)
    requires
        t < 8,
        i < 32,
    ensures
        metadata_header(t, i) >> 5u8 == t,
        metadata_header(t, i) & 0x1Fu8 == i,
        (metadata_header(t, i) == 0x7F) == (t == 3 && i == 31),
{
    assert(((t << 5u8) | i) as u8 >> 5u8 == t) by (bit_vector)
        requires
            t < 8,
            i < 32,
    ;
    assert(((t << 5u8) | i) as u8 & 0x1Fu8 == i) by (bit_vector)
        requires
            t < 8,
            i < 32,
    ;
    assert((((t << 5u8) | i) as u8 == 0x7F) == (t == 3 && i == 31)) by (bit_vector)
        requires
            t < 8,
            i < 32,
    ;
}

proof fn lemma_entry_reads_back(e: MetadataEntry, rest: Seq<u8>)
    requires
        entry_reads_back(e),
    ensures
        e.spec_encoding() matches Some(b) && metadata_entry_decode(b + rest)
            == Ok::<(Option<MetadataView>, nat), IoError>((Some(e@), b.len())),
{
    match e {
        MetadataEntry::Byte(i, v) => {
            lemma_byte_entry(i, v, rest);
            assert(e.spec_encoding() == Some(seq![metadata_header(0, i), v]));
            assert(e@ == MetadataView::Byte(i, v));
        },
        MetadataEntry::Short(i, v) => {
            lemma_short_entry(i, v, rest);
            crate::bytes::lemma_be_roundtrip((v as u16) as nat, 2);
            assert(e.spec_encoding() == Some(seq![metadata_header(1, i)] + be_bytes((v as u16) as nat, 2)));
            assert(e@ == MetadataView::Short(i, v));
        },
        MetadataEntry::Int(i, v) => {
            lemma_int_entry(i, v, rest);
            crate::bytes::lemma_be_roundtrip((v as u32) as nat, 4);
            assert(e.spec_encoding() == Some(seq![metadata_header(2, i)] + be_bytes((v as u32) as nat, 4)));
            assert(e@ == MetadataView::Int(i, v));
        },
        MetadataEntry::Float(i, v) => {
            lemma_float_entry(i, v, rest);
            crate::bytes::lemma_be_roundtrip(v as nat, 4);
            assert(e.spec_encoding() == Some(seq![metadata_header(3, i)] + be_bytes(v as nat, 4)));
            assert(e@ == MetadataView::Float(i, v));
        },
        MetadataEntry::Text(i, s) => {
            lemma_text_entry(i, s, rest);
            let sb = string_encoding(s@, MAX_STRING_LENGTH as nat).unwrap();
            assert(e.spec_encoding() == Some(seq![metadata_header(4, i)] + sb));
            assert(e@ == MetadataView::Text(i, s@));
        },
    }
}

proof fn lemma_byte_entry(i: u8, v: u8, rest: Seq<u8>)
    requires
        i < 32,
    ensures
        metadata_entry_decode(seq![metadata_header(0, i), v] + rest)
            == Ok::<(Option<MetadataView>, nat), IoError>((Some(MetadataView::Byte(i, v)), 2)),
{
    lemma_header(0, i);
    let input = seq![metadata_header(0, i), v] + rest;
    assert(input.len() >= 2);
    assert(input[0] == metadata_header(0, i));
    assert(input.skip(1)[0] == v);
}

proof fn lemma_short_entry(i: u8, v: i16, rest: Seq<u8>)
    requires
        i < 32,
    ensures
        metadata_entry_decode(seq![metadata_header(1, i)] + be_bytes((v as u16) as nat, 2) + rest)
            == Ok::<(Option<MetadataView>, nat), IoError>((Some(MetadataView::Short(i, v)), 3)),
{
    lemma_header(1, i);
    let x = (v as u16) as nat;
    crate::bytes::lemma_be_roundtrip(x, 2);
    reveal_with_fuel(crate::bytes::pow256, 3);
    let input = seq![metadata_header(1, i)] + be_bytes(x, 2) + rest;
    assert(input.len() >= 3);
    assert(input[0] == metadata_header(1, i));
    assert(input.skip(1).take(2) =~= be_bytes(x, 2));
    assert(pow256(2) == 65536);
    assert(x < 65536);
    vstd::arithmetic::div_mod::lemma_small_mod(x, 65536);
    assert(be_value(input.skip(1).take(2)) == x);
    assert(((v as u16) as i16) == v) by (bit_vector);
    assert(((be_value(input.skip(1).take(2)) as u16) as i16) == v);
}

proof fn lemma_int_entry(i: u8, v: i32, rest: Seq<u8>)
    requires
        i < 32,
    ensures
        metadata_entry_decode(seq![metadata_header(2, i)] + be_bytes((v as u32) as nat, 4) + rest)
            == Ok::<(Option<MetadataView>, nat), IoError>((Some(MetadataView::Int(i, v)), 5)),
{
    lemma_header(2, i);
    let x = (v as u32) as nat;
    crate::bytes::lemma_be_roundtrip(x, 4);
    reveal_with_fuel(crate::bytes::pow256, 5);
    let input = seq![metadata_header(2, i)] + be_bytes(x, 4) + rest;
    assert(input.len() >= 5);
    assert(input[0] == metadata_header(2, i));
    assert(input.skip(1).take(4) =~= be_bytes(x, 4));
    assert(pow256(4) == 0x1_0000_0000);
    assert(x < 0x1_0000_0000);
    vstd::arithmetic::div_mod::lemma_small_mod(x, 0x1_0000_0000);
    assert(be_value(input.skip(1).take(4)) == x);
    assert(((v as u32) as i32) == v) by (bit_vector);
    assert(((be_value(input.skip(1).take(4)) as u32) as i32) == v);
}

proof fn lemma_float_entry(i: u8, v: u32, rest: Seq<u8>)
    requires
        i < 31,
    ensures
        metadata_entry_decode(seq![metadata_header(3, i)] + be_bytes(v as nat, 4) + rest)
            == Ok::<(Option<MetadataView>, nat), IoError>((Some(MetadataView::Float(i, v)), 5)),
{
    lemma_header(3, i);
    crate::bytes::lemma_be_roundtrip(v as nat, 4);
    reveal_with_fuel(crate::bytes::pow256, 5);
    let input = seq![metadata_header(3, i)] + be_bytes(v as nat, 4) + rest;
    assert(input.len() >= 5);
    assert(input[0] == metadata_header(3, i));
    assert(input.skip(1).take(4) =~= be_bytes(v as nat, 4));
    assert(pow256(4) == 0x1_0000_0000);
    assert(be_value(input.skip(1).take(4)) == v);
}

proof fn lemma_text_entry(i: u8, s: String, rest: Seq<u8>)
    requires
        i < 32,
        s.spec_encoding() is Some,
        encode_utf8(s@).len() < 0x8000_0000,
    ensures
        ({
            let sb = string_encoding(s@, MAX_STRING_LENGTH as nat).unwrap();
            metadata_entry_decode(seq![metadata_header(4, i)] + sb + rest)
                == Ok::<(Option<MetadataView>, nat), IoError>((Some(MetadataView::Text(i, s@)), sb.len() + 1))
        }),
{
    lemma_header(4, i);
    crate::encoding::lemma_string_roundtrip(s@, MAX_STRING_LENGTH as nat, rest);
    let sb = string_encoding(s@, MAX_STRING_LENGTH as nat).unwrap();
    let input = seq![metadata_header(4, i)] + sb + rest;
    assert(input[0] == metadata_header(4, i));
    assert(input.skip(1) =~= sb + rest);
}

proof fn lemma_encode_items_front(items: Seq<MetadataEntry>)
    requires
        items.len() > 0,
    ensures
        crate::wire::encode_items(items) == cat(items[0].spec_encoding(), crate::wire::encode_items(items.drop_first())),
    decreases items.len(),
{
    if items.len() > 1 {
        lemma_encode_items_front(items.drop_last());
        assert(items.drop_last().drop_first() =~= items.drop_first().drop_last());
        assert(items.drop_last()[0] == items[0]);
        assert(items.drop_first().last() == items.last());
        let a = items[0].spec_encoding();
        let m = crate::wire::encode_items(items.drop_first().drop_last());
        let l = items.last().spec_encoding();
        if a is Some && m is Some && l is Some {
            assert(a.unwrap() + m.unwrap() + l.unwrap() =~= a.unwrap() + (m.unwrap() + l.unwrap()));
        }
    } else {
        assert(items.drop_last() =~= Seq::<MetadataEntry>::empty());
        assert(items.drop_first() =~= Seq::<MetadataEntry>::empty());
        if let Some(a) = items[0].spec_encoding() {
            assert(Seq::<u8>::empty() + a =~= a + Seq::<u8>::empty());
        }
    }
}

#[verifier::rlimit(40)]
proof fn lemma_entries_read_back(items: Seq<MetadataEntry>, rest: Seq<u8>)
    requires
        forall|i: int| 0 <= i < items.len() ==> entry_reads_back(#[trigger] items[i]),
    ensures
        crate::wire::encode_items(items) matches Some(b) && metadata_list_decode(b + seq![0x7Fu8] + rest)
            == Ok::<(Seq<MetadataView>, nat), IoError>((items.map_values(|e: MetadataEntry| e@), b.len() + 1)),
    decreases items.len(),
{
    if items.len() == 0 {
        let input = seq![0x7Fu8] + rest;
        assert(Seq::<u8>::empty() + seq![0x7Fu8] + rest =~= input);
        assert(input[0] == 0x7Fu8);
        assert(metadata_entry_decode(input) == Ok::<(Option<MetadataView>, nat), IoError>((None, 1)));
        assert(items.map_values(|e: MetadataEntry| e@) =~= Seq::<MetadataView>::empty());
    } else {
        let tail = items.drop_first();
        assert forall|i: int| 0 <= i < tail.len() implies entry_reads_back(#[trigger] tail[i]) by {
            assert(tail[i] == items[i + 1]);
        }
        lemma_encode_items_front(items);
        lemma_entries_read_back(tail, rest);
        let bt = crate::wire::encode_items(tail).unwrap();
        let after = bt + seq![0x7Fu8] + rest;
        let tail_views = tail.map_values(|e: MetadataEntry| e@);
        assert(metadata_list_decode(after) == Ok::<(Seq<MetadataView>, nat), IoError>((tail_views, bt.len() + 1)));
        lemma_entry_reads_back(items[0], after);
        let b0 = items[0].spec_encoding().unwrap();
        let input = b0 + bt + seq![0x7Fu8] + rest;
        assert(input =~= b0 + after);
        assert(metadata_entry_decode(input) == Ok::<(Option<MetadataView>, nat), IoError>((Some(items[0]@), b0.len())));
        assert(input.skip(b0.len() as int) =~= after);
        assert(metadata_list_decode(input) == Ok::<(Seq<MetadataView>, nat), IoError>((
            seq![items[0]@] + tail_views,
            b0.len() + bt.len() + 1,
        )));
        assert(items.map_values(|e: MetadataEntry| e@) =~= seq![items[0]@] + tail_views);
    }
}

/// Metadata whose entries each read back (see `entry_reads_back`) is read
/// back as written, whatever follows it, taking the bytes it was written in.
pub proof fn law_metadata_roundtrip(m: MetadataEntries, rest: Seq<u8>)
    requires
        forall|i: int| 0 <= i < m.0@.len() ==> entry_reads_back(#[trigger] m.0@[i]),
    ensures
        m.spec_encoding() matches Some(b) && metadata_list_decode(b + rest)
            == Ok::<(Seq<MetadataView>, nat), IoError>((m@, b.len())),
{
    lemma_entries_read_back(m.0@, rest);
    let b = crate::wire::encode_items(m.0@).unwrap();
    assert(b + seq![0x7Fu8] + rest =~= (b + seq![0x7Fu8]) + rest);
}

impl MetadataEntries {
    /// Reads entries up to and including the end marker.
    pub fn decode(input: &[u8]) -> (r: Result<(MetadataEntries, usize), IoError>)
        requires
            !metadata_list_aborts(input@),
        ensures
            match metadata_list_decode(input@) {
                Ok((es, n)) => r matches Ok((v, m)) && v@ == es && m == n,
                Err(k) => r matches Err(j) && j == k,
            },
    {
        let mut entries: Vec<MetadataEntry> = Vec::new();
        let mut pos: usize = 0;
        assert(input@.skip(0) =~= input@);
        proof {
            if let Ok((es, m)) = metadata_list_decode(input@) {
                assert(entries@.map_values(|e: MetadataEntry| e@) + es =~= es);
            }
        }
        loop
            invariant
                pos <= input@.len(),
                !metadata_list_aborts(input@.skip(pos as int)),
                metadata_list_decode(input@) == match metadata_list_decode(input@.skip(pos as int)) {
                    Err(k) => Err(k),
                    Ok((es, m)) => Ok::<(Seq<MetadataView>, nat), IoError>((entries@.map_values(|e: MetadataEntry| e@) + es, (pos + m) as nat)),
                },
            decreases input@.len() - pos,
        {
            let rest = vstd::slice::slice_subrange(input, pos, input.len());
            assert(rest@ =~= input@.skip(pos as int));
            proof { lemma_metadata_entry_len(rest@); }
            match MetadataEntry::decode(rest) {
                Err(e) => return Err(e),
                Ok((None, n)) => {
                    let r = MetadataEntries(entries);
                    assert(r@ =~= r@ + Seq::<MetadataView>::empty());
                    return Ok((r, pos + n));
                },
                Ok((Some(e), n)) => {
                    let ghost before = entries@;
                    entries.push(e);
                    assert(input@.skip(pos as int).skip(n as int) =~= input@.skip(pos + n));
                    assert(entries@.map_values(|x: MetadataEntry| x@) =~= before.map_values(|x: MetadataEntry| x@).push(e@));
                    proof {
                        let ghost tail = metadata_list_decode(input@.skip(pos + n));
                        if let Ok((es, m)) = tail {
                            assert(before.map_values(|x: MetadataEntry| x@) + (seq![e@] + es) =~= entries@.map_values(|x: MetadataEntry| x@) + es);
                        }
                    }
                    pos = pos + n;
                },
            }
        }
    }
}

/// Updates an entity's metadata.
#[derive(Debug)]
pub struct EntityMetadata {
    pub entity_id: VarInt,
    pub metadata: MetadataEntries,
}

impl EntityMetadata {
    /// The packet with the given fields.
    pub fn new(entity_id: VarInt, metadata: MetadataEntries) -> (p: Self)
        ensures
            p.entity_id == entity_id,
            p.metadata.0@ == metadata.0@,
    {
        EntityMetadata { entity_id, metadata }
    }
}

impl Encode for EntityMetadata {
    open spec fn spec_encoding(&self) -> Option<Seq<u8>> {
        cat(self.entity_id.spec_encoding(), self.metadata.spec_encoding())
    }

    fn encode(&self, writer: &mut Vec<u8>) -> (r: Result<(), IoError>) {
        let ghost w0 = writer@;
        let _ = self.entity_id.encode(writer);
        match self.metadata.encode(writer) {
            Ok(()) => {},
            Err(e) => return Err(e),
        }
        assert(writer@ =~= w0 + self.spec_encoding().unwrap());
        Ok(())
    }
}

impl PacketId for EntityMetadata {
    open spec fn spec_id() -> u8 { 0x1C }
    fn id() -> (i: u8) { 0x1C }
}

/// A chunk column is written as its x, then its z (each a big-endian 32-bit
/// integer), the ground-up flag as one byte (1 or 0), the primary bitmask as
/// a big-endian 16-bit integer, the size as a variable-length integer, and
/// then the data: reading those fields back from the encoding, in that
/// order, gives the packet's fields.
pub proof fn law_chunk_data_fields(c: ChunkData)
    ensures
        c.spec_encoding() is Some,
        c.spec_encoding() matches Some(b) ==> (b.len() >= 11 && be_value(b.subrange(0, 4)) == c.chunk_x as u32
            && be_value(b.subrange(4, 8)) == c.chunk_z as u32 && b[8] == (if c.ground_up_continuous {
            1u8
        } else {
            0u8
        }) && be_value(b.subrange(9, 11)) == c.primary_bitmask && (varint_decode(b.skip(11)) matches Some((v, k))
            && v == c.size.0 && b.skip(11 + k as int) == c.data.0@)),
{
    let x = (c.chunk_x as u32) as nat;
    let z = (c.chunk_z as u32) as nat;
    let g: u8 = if c.ground_up_continuous { 1u8 } else { 0u8 };
    let m = c.primary_bitmask as nat;
    let sz = varint_bytes(c.size.0 as u32);
    let b = be_bytes(x, 4) + be_bytes(z, 4) + seq![g] + be_bytes(m, 2) + sz + c.data.0@;
    assert(c.spec_encoding() == Some(b)) by {
        assert(be_bytes(x, 4) + be_bytes(z, 4) + seq![g] + be_bytes(m, 2) + sz + c.data.0@ =~= b);
    }
    lemma_be_roundtrip(x, 4);
    lemma_be_roundtrip(z, 4);
    lemma_be_roundtrip(m, 2);
    reveal_with_fuel(pow256, 5);
    assert(pow256(4) == 0x1_0000_0000);
    assert(pow256(2) == 0x1_0000);
    vstd::arithmetic::div_mod::lemma_small_mod(x, 0x1_0000_0000);
    vstd::arithmetic::div_mod::lemma_small_mod(z, 0x1_0000_0000);
    vstd::arithmetic::div_mod::lemma_small_mod(m, 0x1_0000);
    assert(be_value(be_bytes(x, 4)) == x);
    assert(be_value(be_bytes(z, 4)) == z);
    assert(be_value(be_bytes(m, 2)) == m);
    assert(b.subrange(0, 4) =~= be_bytes(x, 4));
    assert(b.subrange(4, 8) =~= be_bytes(z, 4));
    assert(b[8] == g);
    assert(b.subrange(9, 11) =~= be_bytes(m, 2));
    assert(b.skip(11) =~= sz + c.data.0@);
    lemma_varint_roundtrip(c.size.0, c.data.0@);
    assert(b.skip(11 + sz.len() as int) =~= c.data.0@);
}

/// A login success is written as the UUID text, then the name, each a
/// length-prefixed string: reading a string from the start of the encoding
/// gives back the UUID, and reading the next one gives back the name and
/// ends the encoding. The encoding exists exactly when both texts are
/// within the protocol's string limit. (Texts of `2^31` UTF-8 bytes or more,
/// far beyond that limit, are left out: their length prefix is negative.)
pub proof fn law_login_success_fields(p: LoginSuccess)
    requires
        encode_utf8(p.uuid@).len() < 0x8000_0000,
        encode_utf8(p.username@).len() < 0x8000_0000,
    ensures
        p.spec_encoding() is Some <==> (utf16_units(p.uuid@) <= MAX_STRING_LENGTH && utf16_units(p.username@)
            <= MAX_STRING_LENGTH),
        p.spec_encoding() matches Some(b) ==> (string_decode(b, MAX_STRING_LENGTH as nat) matches Ok((u, k)) && u
            == p.uuid@ && k <= b.len() && string_decode(b.skip(k as int), MAX_STRING_LENGTH as nat) == Ok::<
            (Seq<char>, nat),
            IoError,
        >((p.username@, (b.len() - k) as nat))),
{
    if let Some(b) = p.spec_encoding() {
        let max = MAX_STRING_LENGTH as nat;
        let eu = string_encoding(p.uuid@, max).unwrap();
        let en = string_encoding(p.username@, max).unwrap();
        assert(b == eu + en);
        lemma_string_roundtrip(p.uuid@, max, en);
        lemma_string_roundtrip(p.username@, max, Seq::<u8>::empty());
        assert(en + Seq::<u8>::empty() =~= en);
        assert(b.skip(eu.len() as int) =~= en);
    }
}

/// A keep-alive is written as its id, a variable-length integer, and
/// nothing else: reading a variable-length integer from the encoding gives
/// back the id and takes the whole encoding.
pub proof fn law_keepalive_is_its_varint(k: KeepAlive)
    ensures
        k.spec_encoding() is Some,
        k.spec_encoding() matches Some(b) ==> varint_decode(b) == Some((k.keep_alive_id.0, b.len())),
{
    let b = varint_bytes(k.keep_alive_id.0 as u32);
    lemma_varint_roundtrip(k.keep_alive_id.0, Seq::<u8>::empty());
    assert(b + Seq::<u8>::empty() =~= b);
}

/// A join-game packet is written as the entity id (a big-endian 32-bit
/// integer), the game-mode byte (survival 0, creative 1, adventure 2,
/// spectator 3, plus 8 where hardcore), the dimension byte (overworld 0,
/// nether `0xFF`, end 1), the difficulty byte (peaceful 0 to hard 3), the
/// player limit, the world type's string and, last, the reduced-debug flag
/// (1 or 0).
pub proof fn law_join_game_fields(p: JoinGame)
    ensures
        p.spec_encoding() is Some <==> p.level_type.spec_encoding() is Some,
        p.spec_encoding() matches Some(b) ==> (b.len() >= 9 && be_value(b.subrange(0, 4)) == p.entity_id as u32
            && b[4] == (match p.gamemode.gamemode {
            Gamemode::Survival => 0u8,
            Gamemode::Creative => 1u8,
            Gamemode::Adventure => 2u8,
            Gamemode::Spectator => 3u8,
        } + if p.gamemode.hardcore {
            8u8
        } else {
            0u8
        }) && b[5] == (match p.dimension {
            Dimension::Overworld => 0x00u8,
            Dimension::Nether => 0xFFu8,
            Dimension::End => 0x01u8,
        }) && b[6] == (match p.difficulty {
            Difficulty::Peaceful => 0u8,
            Difficulty::Easy => 1u8,
            Difficulty::Normal => 2u8,
            Difficulty::Hard => 3u8,
        }) && b[7] == p.max_players && Some(b.subrange(8, b.len() - 1)) == p.level_type.spec_encoding()
            && b[b.len() - 1] == (if p.reduced_debug_info {
            1u8
        } else {
            0u8
        })),
{
    crate::sdk::law_gamemode_numbers(p.gamemode);
    crate::sdk::law_dimension_numbers(p.dimension);
    crate::sdk::law_difficulty_numbers(p.difficulty);
    if let Some(lt) = p.level_type.spec_encoding() {
        let x = (p.entity_id as u32) as nat;
        let head = be_bytes(x, 4);
        let g = p.gamemode.spec_encoding().unwrap();
        let d = p.dimension.spec_encoding().unwrap();
        let f = p.difficulty.spec_encoding().unwrap();
        let r: u8 = if p.reduced_debug_info { 1u8 } else { 0u8 };
        let b = head + g + d + f + seq![p.max_players] + lt + seq![r];
        assert(p.spec_encoding() == Some(b));
        lemma_be_roundtrip(x, 4);
        reveal_with_fuel(pow256, 5);
        vstd::arithmetic::div_mod::lemma_small_mod(x, 0x1_0000_0000);
        assert(b.subrange(0, 4) =~= head);
        assert(b[4] == g[0]);
        assert(b[5] == d[0]);
        assert(b[6] == f[0]);
        assert(b[7] == p.max_players);
        assert(b.subrange(8, b.len() - 1) =~= lt);
    }
}

/// A set-compression packet is written as the threshold, a variable-length
/// integer, and nothing else.
pub proof fn law_set_compression_is_its_varint(p: SetCompression)
    ensures
        p.spec_encoding() is Some,
        p.spec_encoding() matches Some(b) ==> varint_decode(b) == Some((p.threshold.0, b.len())),
{
    let b = varint_bytes(p.threshold.0 as u32);
    lemma_varint_roundtrip(p.threshold.0, Seq::<u8>::empty());
    assert(b + Seq::<u8>::empty() =~= b);
}

/// A chat message is written as its JSON text, a length-prefixed string,
/// then its position byte: reading a string from the encoding gives back the
/// text, and the byte after it, the last, is the position. (Texts of `2^31`
/// UTF-8 bytes or more are left out: their length prefix is negative.)
pub proof fn law_chat_message_fields(p: ChatMessage)
    requires
        encode_utf8(p.json_data@).len() < 0x8000_0000,
    ensures
        p.spec_encoding() is Some <==> utf16_units(p.json_data@) <= MAX_STRING_LENGTH,
        p.spec_encoding() matches Some(b) ==> (b.len() >= 1 && string_decode(b, MAX_STRING_LENGTH as nat) == Ok::<
            (Seq<char>, nat),
            IoError,
        >((p.json_data@, (b.len() - 1) as nat)) && b[b.len() - 1] == p.position),
{
    if let Some(b) = p.spec_encoding() {
        let max = MAX_STRING_LENGTH as nat;
        let e = string_encoding(p.json_data@, max).unwrap();
        assert(b == e + seq![p.position]);
        lemma_string_roundtrip(p.json_data@, max, seq![p.position]);
    }
}

/// The bytes of a byte sequence, each encoded, are the sequence itself.
proof fn lemma_encode_bytes(s: Seq<u8>)
    ensures
        crate::wire::encode_items(s) == Some(s),
    decreases s.len(),
{
    if s.len() > 0 {
        lemma_encode_bytes(s.drop_last());
        assert(s.drop_last() + seq![s.last()] =~= s);
    }
}

/// A player's position and look are written as x, y and z (each the eight
/// big-endian bytes of a double), yaw and pitch (each the four big-endian
/// bytes of a float), then the flags byte.
pub proof fn law_position_and_look_fields(p: PlayerPositionAndLook)
    ensures
        p.spec_encoding() matches Some(b) && b.len() == 33 && be_value(b.subrange(0, 8)) == p.x && be_value(
            b.subrange(8, 16),
        ) == p.y && be_value(b.subrange(16, 24)) == p.z && be_value(b.subrange(24, 28)) == p.yaw && be_value(
            b.subrange(28, 32),
        ) == p.pitch && b[32] == p.flags,
{
    lemma_be_roundtrip(p.x as nat, 8);
    lemma_be_roundtrip(p.y as nat, 8);
    lemma_be_roundtrip(p.z as nat, 8);
    lemma_be_roundtrip(p.yaw as nat, 4);
    lemma_be_roundtrip(p.pitch as nat, 4);
    crate::bytes::lemma_pow256_8();
    reveal_with_fuel(pow256, 5);
    vstd::arithmetic::div_mod::lemma_small_mod(p.x as nat, 0x1_0000_0000_0000_0000);
    vstd::arithmetic::div_mod::lemma_small_mod(p.y as nat, 0x1_0000_0000_0000_0000);
    vstd::arithmetic::div_mod::lemma_small_mod(p.z as nat, 0x1_0000_0000_0000_0000);
    vstd::arithmetic::div_mod::lemma_small_mod(p.yaw as nat, 0x1_0000_0000);
    vstd::arithmetic::div_mod::lemma_small_mod(p.pitch as nat, 0x1_0000_0000);
    let b = be_bytes(p.x as nat, 8) + be_bytes(p.y as nat, 8) + be_bytes(p.z as nat, 8) + be_bytes(p.yaw as nat, 4)
        + be_bytes(p.pitch as nat, 4) + seq![p.flags];
    assert(p.spec_encoding() == Some(b));
    assert(b.subrange(0, 8) =~= be_bytes(p.x as nat, 8));
    assert(b.subrange(8, 16) =~= be_bytes(p.y as nat, 8));
    assert(b.subrange(16, 24) =~= be_bytes(p.z as nat, 8));
    assert(b.subrange(24, 28) =~= be_bytes(p.yaw as nat, 4));
    assert(b.subrange(28, 32) =~= be_bytes(p.pitch as nat, 4));
}

/// An encryption request is written as the server id (a length-prefixed
/// string), then the public key and the verify token, each as its length (a
/// variable-length integer) and its bytes. (Fields of `2^31` bytes or more
/// are left out: their length prefix is negative.)
pub proof fn law_encryption_request_fields(p: EncryptionRequest)
    requires
        encode_utf8(p.server_id@).len() < 0x8000_0000,
        p.public_key@.len() < 0x8000_0000,
        p.verify_token@.len() < 0x8000_0000,
    ensures
        p.spec_encoding() is Some <==> utf16_units(p.server_id@) <= MAX_STRING_LENGTH,
        p.spec_encoding() matches Some(b) ==> (string_decode(b, MAX_STRING_LENGTH as nat) matches Ok((sid, k)) && sid
            == p.server_id@ && (varint_decode(b.skip(k as int)) matches Some((n1, k1)) && n1 == p.public_key@.len()
            && b.subrange((k + k1) as int, k + k1 + n1 as int) == p.public_key@ && (varint_decode(b.skip(k + k1 + n1 as int))
            matches Some((n2, k2)) && n2 == p.verify_token@.len() && b.skip(k + k1 + n1 as int + k2)
            == p.verify_token@))),
{
    lemma_encode_bytes(p.public_key@);
    lemma_encode_bytes(p.verify_token@);
    if let Some(b) = p.spec_encoding() {
        let max = MAX_STRING_LENGTH as nat;
        let es = string_encoding(p.server_id@, max).unwrap();
        let l1 = p.public_key@.len() as i32;
        let l2 = p.verify_token@.len() as i32;
        assert(l1 as u32 == ((p.public_key@.len() as usize) as i32) as u32);
        assert(l2 as u32 == ((p.verify_token@.len() as usize) as i32) as u32);
        let e1 = varint_bytes(l1 as u32) + p.public_key@;
        let e2 = varint_bytes(l2 as u32) + p.verify_token@;
        assert(b == es + e1 + e2);
        lemma_string_roundtrip(p.server_id@, max, e1 + e2);
        assert(b =~= es + (e1 + e2));
        let k = es.len() as int;
        assert(b.skip(k) =~= varint_bytes(l1 as u32) + (p.public_key@ + e2));
        lemma_varint_roundtrip(l1, p.public_key@ + e2);
        let k1 = varint_bytes(l1 as u32).len() as int;
        let n1 = p.public_key@.len() as int;
        assert(b.subrange(k + k1, k + k1 + n1) =~= p.public_key@);
        assert(b.skip(k + k1 + n1) =~= varint_bytes(l2 as u32) + p.verify_token@);
        lemma_varint_roundtrip(l2, p.verify_token@);
        let k2 = varint_bytes(l2 as u32).len() as int;
        assert(b.skip(k + k1 + n1 + k2) =~= p.verify_token@);
    }
}

} // verus!
