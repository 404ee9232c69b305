//! The game's shared vocabulary: difficulty, game mode, dimension, world
//! type, plugin channels and item stacks, with their wire encodings.
use vstd::prelude::*;
use crate::bytes::be_bytes;
use crate::encoding::{deserialize_string_with_max, string_decode, string_encoding, MAX_STRING_LENGTH};
use crate::error::IoError;
use crate::wire::{encode_str, Encode};

verus! {

/// The difficulty of a world.
#[derive(Debug, Clone, Copy, PartialEq, Eq, Structural)]
pub enum Difficulty {
    Peaceful,
    Easy,
    Normal,
    Hard,
}

impl Difficulty {
    /// The protocol number of the difficulty.
    pub open spec fn spec_value(self) -> u8 {
        match self {
            Difficulty::Peaceful => 0,
            Difficulty::Easy => 1,
            Difficulty::Normal => 2,
            Difficulty::Hard => 3,
        }
    }

    /// The protocol number of the difficulty.
    pub fn value(self) -> (v: u8)
        ensures
            v == self.spec_value(),
    {
        match self {
            Difficulty::Peaceful => 0,
            Difficulty::Easy => 1,
            Difficulty::Normal => 2,
            Difficulty::Hard => 3,
        }
    }
}

impl Encode for Difficulty {
    open spec fn spec_encoding(&self) -> Option<Seq<u8>> {
        Some(seq![self.spec_value()])
    }

    fn encode(&self, writer: &mut Vec<u8>) -> (r: Result<(), IoError>) {
        writer.push(self.value());
        Ok(())
    }
}

/// The game mode of a player.
#[derive(Debug, Clone, Copy, PartialEq, Eq, Structural)]
pub enum Gamemode {
    Survival,
    Creative,
    Adventure,
    Spectator,
}

impl Gamemode {
    /// The protocol number of the game mode.
    pub open spec fn spec_value(self) -> u8 {
        match self {
            Gamemode::Survival => 0,
            Gamemode::Creative => 1,
            Gamemode::Adventure => 2,
            Gamemode::Spectator => 3,
        }
    }

    /// The protocol number of the game mode.
    pub fn value(self) -> (v: u8)
        ensures
            v == self.spec_value(),
    {
        match self {
            Gamemode::Survival => 0,
            Gamemode::Creative => 1,
            Gamemode::Adventure => 2,
            Gamemode::Spectator => 3,
        }
    }
}

/// A game mode, and whether the world is hardcore.
#[derive(Debug, Clone, Copy, PartialEq, Eq, Structural)]
pub struct GamemodeState {
    pub gamemode: Gamemode,
    pub hardcore: bool,
}

impl GamemodeState {
    /// The given game mode, not hardcore.
    pub fn new(gamemode: Gamemode) -> (s: Self)
        ensures
            s.gamemode == gamemode,
            !s.hardcore,
    {
        GamemodeState { gamemode, hardcore: false }
    }

    /// The byte that carries the state: the game mode's number, with bit 3
    /// set for hardcore.
    pub open spec fn spec_byte(self) -> u8 {
        (self.gamemode.spec_value() + if self.hardcore { 8u8 } else { 0u8 }) as u8
    }
}

impl Encode for GamemodeState {
    open spec fn spec_encoding(&self) -> Option<Seq<u8>> {
        Some(seq![self.spec_byte()])
    }

    fn encode(&self, writer: &mut Vec<u8>) -> (r: Result<(), IoError>) {
        let g = self.gamemode.value();
        let value: u8 = g | if self.hardcore { 0x8u8 } else { 0u8 };
        assert(g < 4 ==> (g | 0x8u8) == g + 8 && (g | 0u8) == g) by (bit_vector);
        writer.push(value);
        Ok(())
    }
}

/// The protocol numbers of the game modes are survival 0, creative 1,
/// adventure 2 and spectator 3, and a game-mode state is written as the one
/// byte of its mode's number, with 8 added where the world is hardcore.
pub proof fn law_gamemode_numbers(s: GamemodeState)
    ensures
        s.gamemode.spec_value() == (match s.gamemode {
            Gamemode::Survival => 0u8,
            Gamemode::Creative => 1u8,
            Gamemode::Adventure => 2u8,
            Gamemode::Spectator => 3u8,
        }),
        s.spec_encoding() == Some(
            seq![
                (match s.gamemode {
                    Gamemode::Survival => 0u8,
                    Gamemode::Creative => 1u8,
                    Gamemode::Adventure => 2u8,
                    Gamemode::Spectator => 3u8,
                } + if s.hardcore {
                    8u8
                } else {
                    0u8
                }) as u8,
            ],
        ),
{
}

/// The protocol numbers of the difficulties: peaceful 0, easy 1, normal 2,
/// hard 3, each written as one byte.
pub proof fn law_difficulty_numbers(d: Difficulty)
    ensures
        d.spec_encoding() == Some(
            seq![
                match d {
                    Difficulty::Peaceful => 0u8,
                    Difficulty::Easy => 1u8,
                    Difficulty::Normal => 2u8,
                    Difficulty::Hard => 3u8,
                },
            ],
        ),
{
}

/// A dimension of the world.
#[derive(Debug, Clone, Copy, PartialEq, Eq, Structural)]
pub enum Dimension {
    Overworld,
    Nether,
    End,
}

impl Dimension {
    /// The protocol number of the dimension.
    pub open spec fn spec_value(self) -> i8 {
        match self {
            Dimension::Overworld => 0,
            Dimension::Nether => -1i8,
            Dimension::End => 1,
        }
    }

    /// The protocol number of the dimension.
    pub fn value(self) -> (v: i8)
        ensures
            v == self.spec_value(),
    {
        match self {
            Dimension::Overworld => 0,
            Dimension::Nether => -1,
            Dimension::End => 1,
        }
    }
}

impl Encode for Dimension {
    open spec fn spec_encoding(&self) -> Option<Seq<u8>> {
        Some(seq![self.spec_value() as u8])
    }

    fn encode(&self, writer: &mut Vec<u8>) -> (r: Result<(), IoError>) {
        writer.push(self.value() as u8);
        Ok(())
    }
}

/// The protocol numbers of the dimensions: the overworld 0, the nether -1
/// (the byte `0xFF`), the end 1, each written as one byte.
pub proof fn law_dimension_numbers(d: Dimension)
    ensures
        d.spec_encoding() == Some(
            seq![
                match d {
                    Dimension::Overworld => 0x00u8,
                    Dimension::Nether => 0xFFu8,
                    Dimension::End => 0x01u8,
                },
            ],
        ),
{
    assert((-1i8) as u8 == 0xFFu8) by (bit_vector);
}

/// The world generator type the client is told.
#[derive(Debug, Clone, Copy, PartialEq, Eq, Structural)]
pub enum WorldType {
    Default,
    Flat,
    LargeBiomes,
    Amplified,
}

impl WorldType {
    /// The name of the world type on the wire.
    pub open spec fn spec_name(self) -> Seq<char> {
        match self {
            WorldType::Default => "default"@,
            WorldType::Flat => "flat"@,
            WorldType::LargeBiomes => "largeBiomes"@,
            WorldType::Amplified => "amplified"@,
        }
    }
}

impl Encode for WorldType {
    open spec fn spec_encoding(&self) -> Option<Seq<u8>> {
        string_encoding(self.spec_name(), MAX_STRING_LENGTH as nat)
    }

    fn encode(&self, writer: &mut Vec<u8>) -> (r: Result<(), IoError>) {
        let value = match self {
            WorldType::Default => "default",
            WorldType::Flat => "flat",
            WorldType::LargeBiomes => "largeBiomes",
            WorldType::Amplified => "amplified",
        };
        encode_str(value, writer)
    }
}

/// The world types are written as the strings `default`, `flat`,
/// `largeBiomes` and `amplified`.
pub proof fn law_world_type_names(w: WorldType)
    ensures
        w.spec_encoding() == string_encoding(
            match w {
                WorldType::Default => "default"@,
                WorldType::Flat => "flat"@,
                WorldType::LargeBiomes => "largeBiomes"@,
                WorldType::Amplified => "amplified"@,
            },
            MAX_STRING_LENGTH as nat,
        ),
{
}

/// A plugin channel that the server knows.
#[derive(Debug, Clone, Copy, PartialEq, Eq, Structural)]
pub enum PluginChannel {
    McBrand,
}

/// Why a value could not be read.
#[derive(Debug, Clone, Copy, PartialEq, Eq, Structural)]
pub enum DecodeError {
    /// The value is not one of the known ones.
    InvalidValue,
}

impl PluginChannel {
    /// The channel's name.
    pub open spec fn spec_name(self) -> Seq<char> {
        match self {
            PluginChannel::McBrand => "MC|Brand"@,
        }
    }

    /// The channel's name, as it is displayed and sent.
    pub fn to_string(&self) -> (s: String)
        ensures
            s@ == self.spec_name(),
    {
        match self {
            PluginChannel::McBrand => String::from_str("MC|Brand"),
        }
    }

    /// The channel of the given name.
    pub fn try_from(value: &str) -> (r: Result<Self, DecodeError>)
        ensures
            value@ == "MC|Brand"@ ==> r == Ok::<PluginChannel, DecodeError>(PluginChannel::McBrand),
            value@ != "MC|Brand"@ ==> r == Err::<PluginChannel, DecodeError>(DecodeError::InvalidValue),
    {
        let owned = value.to_owned();
        let brand = String::from_str("MC|Brand");
        if owned == brand {
            Ok(PluginChannel::McBrand)
        } else {
            Err(DecodeError::InvalidValue)
        }
    }
}

impl Encode for PluginChannel {
    open spec fn spec_encoding(&self) -> Option<Seq<u8>> {
        string_encoding(self.spec_name(), MAX_STRING_LENGTH as nat)
    }

    fn encode(&self, writer: &mut Vec<u8>) -> (r: Result<(), IoError>) {
        encode_str(self.to_string().as_str(), writer)
    }
}

impl crate::wire::Decode for PluginChannel {
    open spec fn spec_aborts(input: Seq<u8>) -> bool {
        crate::encoding::string_decode_aborts(input)
    }
    open spec fn spec_failure(input: Seq<u8>) -> Option<IoError> {
        match string_decode(input, MAX_STRING_LENGTH as nat) {
            Err(e) => Some(e),
            Ok((s, _)) => if s == "MC|Brand"@ { None } else { Some(IoError::InvalidData) },
        }
    }
    open spec fn spec_decoded(input: Seq<u8>, value: PluginChannel) -> bool {
        value == PluginChannel::McBrand
    }
    open spec fn spec_len(input: Seq<u8>) -> nat {
        match string_decode(input, MAX_STRING_LENGTH as nat) {
            Ok((_, n)) => n,
            Err(_) => 0,
        }
    }

    fn decode(input: &[u8]) -> (r: Result<(PluginChannel, usize), IoError>) {
        let (value, n) = match deserialize_string_with_max(input, MAX_STRING_LENGTH) {
            Ok(p) => p,
            Err(e) => return Err(e),
        };
        match Self::try_from(value.as_str()) {
            Ok(c) => Ok((c, n)),
            Err(_) => Err(IoError::InvalidData),
        }
    }
}

/// The id of an item.
#[derive(Debug, Clone, Copy, PartialEq, Eq, Structural)]
pub enum ItemId {
    Empty,
    Air,
    Stone,
    Grass,
    Dirt,
    Cobblestone,
    Planks,
    Sapling,
    Bedrock,
    Water,
    StationaryWater,
    Lava,
    StationaryLava,
    Sand,
    Gravel,
}

impl ItemId {
    /// The protocol number of the item: `-1` for no item, then the block ids.
    pub open spec fn spec_value(self) -> i16 {
        match self {
            ItemId::Empty => -1i16,
            ItemId::Air => 0,
            ItemId::Stone => 1,
            ItemId::Grass => 2,
            ItemId::Dirt => 3,
            ItemId::Cobblestone => 4,
            ItemId::Planks => 5,
            ItemId::Sapling => 6,
            ItemId::Bedrock => 7,
            ItemId::Water => 8,
            ItemId::StationaryWater => 9,
            ItemId::Lava => 10,
            ItemId::StationaryLava => 11,
            ItemId::Sand => 12,
            ItemId::Gravel => 13,
        }
    }

    /// The protocol number of the item.
    pub fn value(self) -> (v: i16)
        ensures
            v == self.spec_value(),
    {
        match self {
            ItemId::Empty => -1,
            ItemId::Air => 0,
            ItemId::Stone => 1,
            ItemId::Grass => 2,
            ItemId::Dirt => 3,
            ItemId::Cobblestone => 4,
            ItemId::Planks => 5,
            ItemId::Sapling => 6,
            ItemId::Bedrock => 7,
            ItemId::Water => 8,
            ItemId::StationaryWater => 9,
            ItemId::Lava => 10,
            ItemId::StationaryLava => 11,
            ItemId::Sand => 12,
            ItemId::Gravel => 13,
        }
    }
}

impl Default for ItemId {
    fn default() -> (r: Self)
        ensures
            r == ItemId::Air,
    {
        ItemId::Air
    }
}

/// A stack of items: what, how many, and its damage.
#[derive(Debug, Clone, Copy, PartialEq, Eq, Structural)]
pub struct ItemStack {
    pub item_id: ItemId,
    pub count: u8,
    pub damage: i16,
}

/// The contents of an inventory slot.
pub type Slot = ItemStack;

impl ItemStack {
    /// A stack of nothing: air, none of it, no damage.
    pub fn empty() -> (s: Self)
        ensures
            s == (ItemStack { item_id: ItemId::Air, count: 0, damage: 0 }),
    {
        ItemStack { item_id: ItemId::Air, count: 0, damage: 0 }
    }

    /// A stack of the given item, count and damage.
    pub fn new(item_id: ItemId, count: u8, damage: i16) -> (s: Self)
        ensures
            s == (ItemStack { item_id, count, damage }),
    {
        ItemStack { item_id, count, damage }
    }

    /// Whether the slot holds no item at all.
    pub fn is_empty(&self) -> (b: bool)
        ensures
            b == (self.item_id == ItemId::Empty),
    {
        match self.item_id {
            ItemId::Empty => true,
            _ => false,
        }
    }
}

impl Default for ItemStack {
    fn default() -> (r: Self)
        ensures
            r == (ItemStack { item_id: ItemId::Air, count: 0, damage: 0 }),
    {
        ItemStack::empty()
    }
}

impl Encode for ItemStack {
    open spec fn spec_encoding(&self) -> Option<Seq<u8>> {
        let id = be_bytes((self.item_id.spec_value() as u16) as nat, 2);
        if self.item_id == ItemId::Empty {
            Some(id)
        } else {
            Some(id + seq![self.count] + be_bytes((self.damage as u16) as nat, 2))
        }
    }

    fn encode(&self, writer: &mut Vec<u8>) -> (r: Result<(), IoError>) {
        let item_id: i16 = self.item_id.value();
        crate::bytes::write_be(writer, (item_id as u16) as u64, 2);
        if self.is_empty() {
            return Ok(());
        }
        let ghost mid = writer@;
        writer.push(self.count);
        crate::bytes::write_be(writer, (self.damage as u16) as u64, 2);
        assert(writer@ =~= old(writer)@ + self.spec_encoding().unwrap());
        Ok(())
    }
}

} // verus!
