//! The packets that clients send, and how they are read after their id.
use vstd::prelude::*;
use crate::error::IoError;
use crate::packet::{Packet, PacketError};
use crate::sdk::{PluginChannel, Slot};
use crate::types::{Byte, Double, Float, Long, Short};
use crate::varint::VarInt;
use crate::wire::{negative_length, Decode, DecodeWithId, RawBytesArray};

verus! {

/// Reads a value of type `T` that is the whole of a packet's fields: the
/// read's failure, or the value.
pub fn decode_fields<T: Decode>(input: &[u8]) -> (r: Result<T, IoError>)
    requires
        !T::spec_aborts(input@),
    ensures
        match r {
            Ok(v) => T::spec_failure(input@) is None && T::spec_decoded(input@, v),
            Err(e) => T::spec_failure(input@) == Some(e),
        },
{
    match T::decode(input) {
        Ok((v, _)) => Ok(v),
        Err(e) => Err(e),
    }
}

/// The first packet of a connection: who connects, and to which state.
#[derive(Debug)]
pub enum ServerHandshakeClient {
    /// Packet `0x00`: the protocol version, the address and port the client
    /// used, and the state it asks for next.
    PlayerIdentification {
        protocol_version: Byte,
        server_address: String,
        server_port: Short,
        next_state: VarInt,
    },
}

/// The fields of a handshake, read in order.
pub type HandshakeFields = (Byte, (String, (Short, VarInt)));

impl DecodeWithId for ServerHandshakeClient {
    open spec fn spec_aborts_with_id(id: u8, input: Seq<u8>) -> bool {
        id == 0x00 && HandshakeFields::spec_aborts(input)
    }
    open spec fn spec_failure_with_id(id: u8, input: Seq<u8>) -> Option<IoError> {
        if id == 0x00 { HandshakeFields::spec_failure(input) } else { Some(IoError::InvalidData) }
    }
    open spec fn spec_decoded_with_id(id: u8, input: Seq<u8>, value: Self) -> bool {
        match value {
            ServerHandshakeClient::PlayerIdentification { protocol_version, server_address, server_port, next_state } =>
                id == 0x00 && HandshakeFields::spec_decoded(input, (protocol_version, (server_address, (server_port, next_state)))),
        }
    }

    fn aborts_with_id(id: u8, input: &[u8]) -> (b: bool) {
        if id != 0x00 || input.len() < 1 {
            return false;
        }
        let rest = vstd::slice::slice_subrange(input, 1, input.len());
        assert(rest@ =~= input@.skip(1));
        negative_length(rest)
    }

    fn decode_with_id(id: u8, input: &[u8]) -> (r: Result<Self, IoError>) {
        if id == 0x00 {
            match decode_fields::<HandshakeFields>(input) {
                Ok((protocol_version, (server_address, (server_port, next_state)))) =>
                    Ok(ServerHandshakeClient::PlayerIdentification { protocol_version, server_address, server_port, next_state }),
                Err(e) => Err(e),
            }
        } else {
            Err(IoError::InvalidData)
        }
    }
}

/// The packets of the status state.
#[derive(Debug)]
pub enum ServerStatusClient {
    /// Packet `0x00`: asks for the server's status.
    Empty {},
    /// Packet `0x01`: a ping with a payload to echo.
    Ping { payload: Long },
}

impl DecodeWithId for ServerStatusClient {
    open spec fn spec_aborts_with_id(id: u8, input: Seq<u8>) -> bool { false }
    open spec fn spec_failure_with_id(id: u8, input: Seq<u8>) -> Option<IoError> {
        if id == 0x00 { None } else if id == 0x01 { i64::spec_failure(input) } else { Some(IoError::InvalidData) }
    }
    open spec fn spec_decoded_with_id(id: u8, input: Seq<u8>, value: Self) -> bool {
        match value {
            ServerStatusClient::Empty {} => id == 0x00,
            ServerStatusClient::Ping { payload } => id == 0x01 && i64::spec_decoded(input, payload),
        }
    }

    fn aborts_with_id(id: u8, input: &[u8]) -> (b: bool) {
        false
    }

    fn decode_with_id(id: u8, input: &[u8]) -> (r: Result<Self, IoError>) {
        if id == 0x00 {
            Ok(ServerStatusClient::Empty {})
        } else if id == 0x01 {
            match decode_fields::<Long>(input) {
                Ok(payload) => Ok(ServerStatusClient::Ping { payload }),
                Err(e) => Err(e),
            }
        } else {
            Err(IoError::InvalidData)
        }
    }
}

/// The packets of the login state.
#[derive(Debug)]
pub enum ClientLoginPacket {
    /// Packet `0x00`: the player's name.
    LoginStart { username: String },
    /// Packet `0x01`: the shared secret and the verify token, each encrypted
    /// with the server's public key.
    EncryptionResponse { shared_secret: Vec<u8>, verify_token: Vec<u8> },
}

impl DecodeWithId for ClientLoginPacket {
    open spec fn spec_aborts_with_id(id: u8, input: Seq<u8>) -> bool {
        (id == 0x00 && String::spec_aborts(input)) || (id == 0x01 && <(Vec<u8>, Vec<u8>)>::spec_aborts(input))
    }
    open spec fn spec_failure_with_id(id: u8, input: Seq<u8>) -> Option<IoError> {
        if id == 0x00 {
            String::spec_failure(input)
        } else if id == 0x01 {
            <(Vec<u8>, Vec<u8>)>::spec_failure(input)
        } else {
            Some(IoError::InvalidData)
        }
    }
    open spec fn spec_decoded_with_id(id: u8, input: Seq<u8>, value: Self) -> bool {
        match value {
            ClientLoginPacket::LoginStart { username } => id == 0x00 && String::spec_decoded(input, username),
            ClientLoginPacket::EncryptionResponse { shared_secret, verify_token } =>
                id == 0x01 && <(Vec<u8>, Vec<u8>)>::spec_decoded(input, (shared_secret, verify_token)),
        }
    }

    fn aborts_with_id(id: u8, input: &[u8]) -> (b: bool) {
        if id == 0x00 {
            return negative_length(input);
        }
        if id != 0x01 || negative_length(input) {
            return id == 0x01;
        }
        match <Vec<u8> as Decode>::decode(input) {
            Ok((_, n)) => {
                let rest = vstd::slice::slice_subrange(input, n, input.len());
                assert(rest@ =~= input@.skip(n as int));
                negative_length(rest)
            },
            Err(_) => false,
        }
    }

    fn decode_with_id(id: u8, input: &[u8]) -> (r: Result<Self, IoError>) {
        if id == 0x00 {
            match decode_fields::<String>(input) {
                Ok(username) => Ok(ClientLoginPacket::LoginStart { username }),
                Err(e) => Err(e),
            }
        } else if id == 0x01 {
            match decode_fields::<(Vec<u8>, Vec<u8>)>(input) {
                Ok((shared_secret, verify_token)) => Ok(ClientLoginPacket::EncryptionResponse { shared_secret, verify_token }),
                Err(e) => Err(e),
            }
        } else {
            Err(IoError::InvalidData)
        }
    }
}

/// The packets of the play state. Floating-point fields are their bit
/// patterns.
#[derive(Debug)]
pub enum ClientPlayPacket {
    /// `0x00`
    KeepAlive { keep_alive_id: VarInt },
    /// `0x01`
    ChatMessage { message: String },
    /// `0x03`
    PlayerGround { on_ground: bool },
    /// `0x04`
    PlayerPosition { x: Double, y: Double, z: Double, on_ground: bool },
    /// `0x05`
    PlayerLook { yaw: Float, pitch: Float, on_ground: bool },
    /// `0x06`
    PlayerPositionAndLook { x: Double, y: Double, z: Double, yaw: Float, pitch: Float, on_ground: bool },
    /// `0x07`
    PlayerDigging { status: Byte, location: Double, face: Byte },
    /// `0x09`
    HeldItemChange { slot: Byte },
    /// `0x0b`
    PlayerAnimation { entity_id: VarInt, animation: Byte },
    /// `0x0d`
    CloseWindow { window_id: Byte },
    /// `0x10`
    CreativeInventoryAction { slot: Short, clicked_item: Slot },
    /// `0x13`
    PlayerAbility { flags: Byte, flying_speed: Float, walking_speed: Float },
    /// `0x15`
    ClientSettings { locale: String, view_distance: Byte, chat_mode: Byte, chat_colors: bool, displayed_skin_parts: u8 },
    /// `0x16`
    ClientStatus { action_id: VarInt },
    /// `0x17`
    PluginMessage { channel: PluginChannel, data: RawBytesArray },
}

/// The fields of `PlayerPosition`.
pub type PositionFields = (Double, (Double, (Double, bool)));
/// The fields of `PlayerLook`.
pub type LookFields = (Float, (Float, bool));
/// The fields of `PlayerPositionAndLook`.
pub type PositionLookFields = (Double, (Double, (Double, (Float, (Float, bool)))));
/// The fields of `PlayerDigging`.
pub type DiggingFields = (Byte, (Double, Byte));
/// The fields of `PlayerAnimation`.
pub type AnimationFields = (VarInt, Byte);
/// The fields of `PlayerAbility`.
pub type AbilityFields = (Byte, (Float, Float));
/// The fields of `ClientSettings`.
pub type SettingsFields = (String, (Byte, (Byte, (bool, u8))));
/// The fields of `PluginMessage`.
pub type PluginMessageFields = (PluginChannel, RawBytesArray);

impl DecodeWithId for ClientPlayPacket {
    /// Reading a creative inventory action reads its slot, which the server
    /// does not implement: once the slot number is read, the read does not
    /// return.
    open spec fn spec_aborts_with_id(id: u8, input: Seq<u8>) -> bool {
        ||| id == 0x01 && String::spec_aborts(input)
        ||| id == 0x10 && input.len() >= 2
        ||| id == 0x15 && SettingsFields::spec_aborts(input)
        ||| id == 0x17 && PluginMessageFields::spec_aborts(input)
    }
    open spec fn spec_failure_with_id(id: u8, input: Seq<u8>) -> Option<IoError> {
        if id == 0x00 { VarInt::spec_failure(input) }
        else if id == 0x01 { String::spec_failure(input) }
        else if id == 0x03 { bool::spec_failure(input) }
        else if id == 0x04 { PositionFields::spec_failure(input) }
        else if id == 0x05 { LookFields::spec_failure(input) }
        else if id == 0x06 { PositionLookFields::spec_failure(input) }
        else if id == 0x07 { DiggingFields::spec_failure(input) }
        else if id == 0x09 { u8::spec_failure(input) }
        else if id == 0x0b { AnimationFields::spec_failure(input) }
        else if id == 0x0d { u8::spec_failure(input) }
        else if id == 0x10 { i16::spec_failure(input) }
        else if id == 0x13 { AbilityFields::spec_failure(input) }
        else if id == 0x15 { SettingsFields::spec_failure(input) }
        else if id == 0x16 { VarInt::spec_failure(input) }
        else if id == 0x17 { PluginMessageFields::spec_failure(input) }
        else { Some(IoError::InvalidData) }
    }
    open spec fn spec_decoded_with_id(id: u8, input: Seq<u8>, value: Self) -> bool {
        match value {
            ClientPlayPacket::KeepAlive { keep_alive_id } => id == 0x00 && VarInt::spec_decoded(input, keep_alive_id),
            ClientPlayPacket::ChatMessage { message } => id == 0x01 && String::spec_decoded(input, message),
            ClientPlayPacket::PlayerGround { on_ground } => id == 0x03 && bool::spec_decoded(input, on_ground),
            ClientPlayPacket::PlayerPosition { x, y, z, on_ground } =>
                id == 0x04 && PositionFields::spec_decoded(input, (x, (y, (z, on_ground)))),
            ClientPlayPacket::PlayerLook { yaw, pitch, on_ground } =>
                id == 0x05 && LookFields::spec_decoded(input, (yaw, (pitch, on_ground))),
            ClientPlayPacket::PlayerPositionAndLook { x, y, z, yaw, pitch, on_ground } =>
                id == 0x06 && PositionLookFields::spec_decoded(input, (x, (y, (z, (yaw, (pitch, on_ground)))))),
            ClientPlayPacket::PlayerDigging { status, location, face } =>
                id == 0x07 && DiggingFields::spec_decoded(input, (status, (location, face))),
            ClientPlayPacket::HeldItemChange { slot } => id == 0x09 && u8::spec_decoded(input, slot),
            ClientPlayPacket::PlayerAnimation { entity_id, animation } =>
                id == 0x0b && AnimationFields::spec_decoded(input, (entity_id, animation)),
            ClientPlayPacket::CloseWindow { window_id } => id == 0x0d && u8::spec_decoded(input, window_id),
            ClientPlayPacket::CreativeInventoryAction { .. } => false,
            ClientPlayPacket::PlayerAbility { flags, flying_speed, walking_speed } =>
                id == 0x13 && AbilityFields::spec_decoded(input, (flags, (flying_speed, walking_speed))),
            ClientPlayPacket::ClientSettings { locale, view_distance, chat_mode, chat_colors, displayed_skin_parts } =>
                id == 0x15 && SettingsFields::spec_decoded(input, (locale, (view_distance, (chat_mode, (chat_colors, displayed_skin_parts))))),
            ClientPlayPacket::ClientStatus { action_id } => id == 0x16 && VarInt::spec_decoded(input, action_id),
            ClientPlayPacket::PluginMessage { channel, data } =>
                id == 0x17 && PluginMessageFields::spec_decoded(input, (channel, data)),
        }
    }

    fn aborts_with_id(id: u8, input: &[u8]) -> (b: bool) {
        if id == 0x10 {
            input.len() >= 2
        } else if id == 0x01 || id == 0x15 || id == 0x17 {
            negative_length(input)
        } else {
            false
        }
    }

    fn decode_with_id(id: u8, input: &[u8]) -> (r: Result<Self, IoError>) {
        if id == 0x00 {
            match decode_fields::<VarInt>(input) {
                Ok(keep_alive_id) => Ok(ClientPlayPacket::KeepAlive { keep_alive_id }),
                Err(e) => Err(e),
            }
        } else if id == 0x01 {
            match decode_fields::<String>(input) {
                Ok(message) => Ok(ClientPlayPacket::ChatMessage { message }),
                Err(e) => Err(e),
            }
        } else if id == 0x03 {
            match decode_fields::<bool>(input) {
                Ok(on_ground) => Ok(ClientPlayPacket::PlayerGround { on_ground }),
                Err(e) => Err(e),
            }
        } else if id == 0x04 {
            match decode_fields::<PositionFields>(input) {
                Ok((x, (y, (z, on_ground)))) => Ok(ClientPlayPacket::PlayerPosition { x, y, z, on_ground }),
                Err(e) => Err(e),
            }
        } else if id == 0x05 {
            match decode_fields::<LookFields>(input) {
                Ok((yaw, (pitch, on_ground))) => Ok(ClientPlayPacket::PlayerLook { yaw, pitch, on_ground }),
                Err(e) => Err(e),
            }
        } else if id == 0x06 {
            match decode_fields::<PositionLookFields>(input) {
                Ok((x, (y, (z, (yaw, (pitch, on_ground)))))) =>
                    Ok(ClientPlayPacket::PlayerPositionAndLook { x, y, z, yaw, pitch, on_ground }),
                Err(e) => Err(e),
            }
        } else if id == 0x07 {
            match decode_fields::<DiggingFields>(input) {
                Ok((status, (location, face))) => Ok(ClientPlayPacket::PlayerDigging { status, location, face }),
                Err(e) => Err(e),
            }
        } else if id == 0x09 {
            match decode_fields::<u8>(input) {
                Ok(slot) => Ok(ClientPlayPacket::HeldItemChange { slot }),
                Err(e) => Err(e),
            }
        } else if id == 0x0b {
            match decode_fields::<AnimationFields>(input) {
                Ok((entity_id, animation)) => Ok(ClientPlayPacket::PlayerAnimation { entity_id, animation }),
                Err(e) => Err(e),
            }
        } else if id == 0x0d {
            match decode_fields::<u8>(input) {
                Ok(window_id) => Ok(ClientPlayPacket::CloseWindow { window_id }),
                Err(e) => Err(e),
            }
        } else if id == 0x10 {
            Err(IoError::UnexpectedEof)
        } else if id == 0x13 {
            match decode_fields::<AbilityFields>(input) {
                Ok((flags, (flying_speed, walking_speed))) =>
                    Ok(ClientPlayPacket::PlayerAbility { flags, flying_speed, walking_speed }),
                Err(e) => Err(e),
            }
        } else if id == 0x15 {
            match decode_fields::<SettingsFields>(input) {
                Ok((locale, (view_distance, (chat_mode, (chat_colors, displayed_skin_parts))))) =>
                    Ok(ClientPlayPacket::ClientSettings { locale, view_distance, chat_mode, chat_colors, displayed_skin_parts }),
                Err(e) => Err(e),
            }
        } else if id == 0x16 {
            match decode_fields::<VarInt>(input) {
                Ok(action_id) => Ok(ClientPlayPacket::ClientStatus { action_id }),
                Err(e) => Err(e),
            }
        } else if id == 0x17 {
            match decode_fields::<PluginMessageFields>(input) {
                Ok((channel, data)) => Ok(ClientPlayPacket::PluginMessage { channel, data }),
                Err(e) => Err(e),
            }
        } else {
            Err(IoError::InvalidData)
        }
    }
}

/// Reads the packet `P` from a packet's id and fields; a failure is an I/O
/// error.
pub fn parse_packet<P: DecodeWithId>(packet: &Packet) -> (r: Result<P, PacketError>)
    requires
        !P::spec_aborts_with_id(packet.id, packet.data@),
    ensures
        match r {
            Ok(v) => P::spec_failure_with_id(packet.id, packet.data@) is None
                && P::spec_decoded_with_id(packet.id, packet.data@, v),
            Err(PacketError::Io(e)) => P::spec_failure_with_id(packet.id, packet.data@) == Some(e),
            Err(_) => false,
        },
{
    match P::decode_with_id(packet.id, packet.data.as_slice()) {
        Ok(v) => Ok(v),
        Err(e) => Err(PacketError::Io(e)),
    }
}

} // verus!
