//! The states of a connection (handshake, status, login, play) and what
//! each does with the packets it receives: the reply to send and the state
//! to go to. Sending is left to the connection.
use vstd::prelude::*;
use vstd::utf8::encode_utf8;
use crate::bytes::{be_bytes, write_be};
use crate::chunk::Chunk;
use crate::world::{append_decimal_digits, chunk_key_value, decimal, ChunkKey};
use crate::config::ProfileConfig;
use crate::crypto::{
    hex_digit,
    generate_verify_token, minecraft_hash, rsa_decrypt, rsa_pkcs1_message, sha1_digest,
    signed_lower_hex, CryptoConfig,
};
use crate::encoding::append_slice;
use crate::error::IoError;
use crate::mojang::{hyphenated, offline_uuid, uuid_string, uuid_v3_oid, MojangProfile};
use crate::net_client::{parse_packet, ClientLoginPacket, ClientPlayPacket, ServerHandshakeClient, ServerStatusClient};
use crate::net_server::{
    ChatMessage, ChunkData, EncryptionRequest, EntityMetadata, JoinGame, LoginSuccess, MetadataEntries,
    MetadataEntry, PlayerListItem, PlayerListItemData, PlayerPositionAndLook,
};
use crate::packet::{frame, length_prefix, packet_body, Packet, PacketError};
use crate::sdk::{Gamemode, GamemodeState, WorldType};
use crate::serialize::{read_string_aborts, read_string_result};
use crate::varint::{varint_bytes, VarInt};
use crate::wire::{DecodeWithId, RawBytesArray};

verus! {

/// The first state of a connection: waits for the handshake.
#[derive(Debug)]
pub struct HandshakeState;

/// Answers a server-list ping.
#[derive(Debug)]
pub struct StatusState;

/// Logs a player in: the name it gave and the verify token it was sent.
#[derive(Debug)]
pub struct LoginState {
    pub username: Option<String>,
    pub verify_token: Option<[u8; 4]>,
}

/// A player in the game.
#[derive(Debug)]
pub struct PlayState {
    pub username: String,
}

/// The state of a connection.
#[derive(Debug)]
pub enum AState {
    Handshake(HandshakeState),
    Status(StatusState),
    Login(LoginState),
    Play(PlayState),
}

/// What follows a handled packet.
#[derive(Debug)]
pub enum Transition {
    /// Enter this state.
    Next(AState),
    /// Stay in the current state.
    Same,
    /// Close the connection.
    Exit,
}

/// What a connection does once a packet was handled.
#[derive(Debug)]
pub enum LoopStep {
    /// Go on in the current state.
    Stay,
    /// Enter `next`; the keep-alive timer starts where it is the play state.
    Enter { next: AState, start_keepalive: bool },
    /// Close the connection.
    Stop,
}

/// The step that follows a transition: stay, enter the next state (starting
/// the keep-alive timer on entering play), or close.
pub fn loop_step(transition: Transition) -> (s: LoopStep)
    ensures
        match transition {
            Transition::Same => s is Stay,
            Transition::Next(n) => s matches LoopStep::Enter { next, start_keepalive } && next == n && start_keepalive
                == (n is Play),
            Transition::Exit => s is Stop,
        },
{
    match transition {
        Transition::Same => LoopStep::Stay,
        Transition::Next(next) => {
            let start_keepalive = next.is_play();
            LoopStep::Enter { next, start_keepalive }
        },
        Transition::Exit => LoopStep::Stop,
    }
}

impl AState {
    /// Whether the connection is in the game.
    pub fn is_play(&self) -> (r: bool)
        ensures
            r == (self is Play),
    {
        match self {
            AState::Play(_) => true,
            _ => false,
        }
    }
}

impl LoginState {
    /// A login state with the given name and token.
    pub fn new(username: Option<String>, verify_token: Option<[u8; 4]>) -> (s: Self)
        ensures
            s.username == username,
            s.verify_token == verify_token,
    {
        LoginState { username, verify_token }
    }
}

impl PlayState {
    /// The play state of the named player.
    pub fn new(username: String) -> (s: Self)
        ensures
            s.username == username,
    {
        PlayState { username }
    }
}

/// A string as the protocol writes it: its UTF-8 length as a
/// variable-length integer, then its bytes.
pub open spec fn string_bytes(s: Seq<char>) -> Seq<u8> {
    length_prefix(encode_utf8(s).len()) + encode_utf8(s)
}

/// The string `s` as the protocol writes it, with no limit on its length.
pub fn encode_string(s: &str) -> (r: Vec<u8>)
    ensures
        r@ == string_bytes(s@),
{
    let mut buf: Vec<u8> = Vec::new();
    let len: usize = s.len();
    append_slice(&mut buf, VarInt::from(len as i32).to_bytes().as_slice());
    append_slice(&mut buf, s.as_bytes());
    buf
}

/// A string that `encode_string` writes reads back with `read_string` as
/// itself, whatever follows it, taking exactly the bytes it was written in.
/// (A string of `2^31` UTF-8 bytes or more gets a negative length prefix and
/// does not read back.)
pub proof fn law_read_string_reads_encode_string(s: Seq<char>, rest: Seq<u8>)
    requires
        encode_utf8(s).len() < 0x8000_0000,
    ensures
        !read_string_aborts(string_bytes(s) + rest),
        read_string_result(string_bytes(s) + rest) == Ok::<(Seq<char>, nat), IoError>((s, string_bytes(s).len())),
{
    let b = encode_utf8(s);
    let len = b.len() as i32;
    assert(len as u32 == ((b.len() as usize) as i32) as u32);
    let input = string_bytes(s) + rest;
    crate::varint::lemma_varint_roundtrip(len, b + rest);
    assert(input =~= varint_bytes(len as u32) + (b + rest));
    let k = varint_bytes(len as u32).len();
    assert(input.subrange(k as int, (k + b.len()) as int) =~= b);
    vstd::utf8::encode_utf8_valid_utf8(s);
    vstd::utf8::encode_utf8_decode_utf8(s);
}

/// Where a handshake leads: state 1 is the status, 2 the login; any other
/// is refused with its low byte as the packet id.
pub open spec fn handshake_result(v: ServerHandshakeClient) -> Result<Transition, PacketError> {
    match v {
        ServerHandshakeClient::PlayerIdentification { next_state, .. } => if next_state.0 == 1 {
            Ok(Transition::Next(AState::Status(StatusState)))
        } else if next_state.0 == 2 {
            Ok(Transition::Next(AState::Login(LoginState { username: None, verify_token: None })))
        } else {
            Err(PacketError::InvalidPacketId(next_state.0 as u8))
        },
    }
}

impl HandshakeState {
    /// Reads the handshake and goes to the state it asks for.
    pub fn handle(&mut self, packet: &Packet) -> (r: Result<Transition, PacketError>)
        requires
            !ServerHandshakeClient::spec_aborts_with_id(packet.id, packet.data@),
        ensures
            match ServerHandshakeClient::spec_failure_with_id(packet.id, packet.data@) {
                Some(e) => r == Err::<Transition, PacketError>(PacketError::Io(e)),
                None => exists|v: ServerHandshakeClient|
                    ServerHandshakeClient::spec_decoded_with_id(packet.id, packet.data@, v) && r == handshake_result(v),
            },
    {
        match parse_packet::<ServerHandshakeClient>(packet) {
            Ok(v) => {
                let ghost gv = v;
                let r = match v {
                    ServerHandshakeClient::PlayerIdentification { next_state, .. } => {
                        let id = next_state.val();
                        if id == 1 {
                            Ok(Transition::Next(AState::Status(StatusState)))
                        } else if id == 2 {
                            Ok(Transition::Next(AState::Login(LoginState::new(None, None))))
                        } else {
                            Err(PacketError::InvalidPacketId(id as u8))
                        }
                    },
                };
                assert(ServerHandshakeClient::spec_decoded_with_id(packet.id, packet.data@, gv) && r == handshake_result(gv));
                r
            },
            Err(e) => Err(e),
        }
    }
}

/// The view of optional bytes.
pub open spec fn opt_bytes(w: Option<Vec<u8>>) -> Option<Seq<u8>> {
    match w {
        Some(v) => Some(v@),
        None => None,
    }
}

/// How JSON writes the character `c` inside a string: a quote and a
/// backslash behind a backslash; backspace, form feed, line feed, carriage
/// return and tab by their short escapes; the other control characters
/// below `0x20` as `\u00` and two lower-case hexadecimal digits; any other
/// character as it is.
pub open spec fn json_escape(c: char) -> Seq<char> {
    if c == '"' {
        seq!['\\', '"']
    } else if c == '\\' {
        seq!['\\', '\\']
    } else if c == '\u{8}' {
        seq!['\\', 'b']
    } else if c == '\u{c}' {
        seq!['\\', 'f']
    } else if c == '\n' {
        seq!['\\', 'n']
    } else if c == '\r' {
        seq!['\\', 'r']
    } else if c == '\t' {
        seq!['\\', 't']
    } else if (c as u32) < 0x20 {
        seq!['\\', 'u', '0', '0', hex_digit((c as u32 / 16) as nat), hex_digit((c as u32 % 16) as nat)]
    } else {
        seq![c]
    }
}

/// The characters of `s`, each as JSON writes it inside a string.
pub open spec fn json_escaped(s: Seq<char>) -> Seq<char>
    decreases s.len(),
{
    if s.len() == 0 {
        seq![]
    } else {
        json_escaped(s.drop_last()) + json_escape(s.last())
    }
}

/// `s` as a JSON string: quoted, its characters escaped.
pub open spec fn json_string(s: Seq<char>) -> Seq<char> {
    seq!['"'] + json_escaped(s) + seq!['"']
}

/// serde_json's `to_string` of a `str`: the string quoted and escaped as
/// `json_escape` says (serde_json's `ESCAPE` table and
/// `write_char_escape`). Serialising a `str` into the vector that
/// `to_string` writes to cannot fail.
#[verifier::external_body]
fn json_string_text(s: &str) -> (r: Option<String>)
    ensures
        r is Some,
        r matches Some(t) ==> t@ == json_string(s@),
{
    serde_json::to_string(s).ok()
}

/// The server's status as the server list reads it: its name and protocol
/// version, the player limit and count (with an empty sample), its
/// description and, where there is one, its favicon.
pub open spec fn status_json(
    name: Seq<char>,
    protocol: u32,
    max_players: u32,
    online: u32,
    description: Seq<char>,
    favicon: Option<Seq<char>>,
) -> Seq<char> {
    "{\"version\":{\"name\":"@ + json_string(name) + ",\"protocol\":"@ + decimal(protocol as int)
        + "},\"players\":{\"max\":"@ + decimal(max_players as int) + ",\"online\":"@ + decimal(online as int)
        + ",\"sample\":[]},\"description\":{\"text\":"@ + json_string(description) + "}"@ + match favicon {
        Some(f) => ",\"favicon\":"@ + json_string(f),
        None => seq![],
    } + "}"@
}

/// The status JSON of a server with `profile`, speaking `protocol_version`,
/// with `online` players and the given favicon (see `status_json`).
pub fn build_status_json(profile: &ProfileConfig, protocol_version: u32, online: u32, favicon: Option<&str>) -> (r: String)
    ensures
        r@ == status_json(
            profile.name@,
            protocol_version,
            profile.max_players,
            online,
            profile.description@,
            match favicon {
                Some(f) => Some(f@),
                None => None,
            },
        ),
{
    let mut json = String::from_str("{\"version\":{\"name\":");
    append_json_string(&mut json, profile.name.as_str());
    json.append(",\"protocol\":");
    append_decimal_digits(&mut json, protocol_version as u64);
    json.append("},\"players\":{\"max\":");
    append_decimal_digits(&mut json, profile.max_players as u64);
    json.append(",\"online\":");
    append_decimal_digits(&mut json, online as u64);
    json.append(",\"sample\":[]},\"description\":{\"text\":");
    append_json_string(&mut json, profile.description.as_str());
    json.append("}");
    match favicon {
        Some(f) => {
            json.append(",\"favicon\":");
            append_json_string(&mut json, f);
        },
        None => {},
    }
    json.append("}");
    json
}

/// Appends `s` as a JSON string to `out`.
fn append_json_string(out: &mut String, s: &str)
    ensures
        final(out)@ == old(out)@ + json_string(s@),
{
    match json_string_text(s) {
        Some(t) => out.append(t.as_str()),
        None => {},
    }
}

/// What the status state writes for a packet: the status JSON as packet
/// `0x00` (nothing where it could not be built), or the ping's payload
/// echoed as packet `0x01`; each framed, neither compressed nor encrypted.
pub open spec fn status_bytes(v: ServerStatusClient, json: Option<String>) -> Option<Seq<u8>> {
    match v {
        ServerStatusClient::Empty {} => match json {
            Some(j) => Some(frame(packet_body(0x00, string_bytes(j@)))),
            None => None,
        },
        ServerStatusClient::Ping { payload } => Some(frame(packet_body(0x01, be_bytes(payload as u64 as nat, 8)))),
    }
}

/// Where the status state goes: it stays after the status, and closes the
/// connection after the ping.
pub open spec fn status_transition(v: ServerStatusClient) -> Transition {
    match v {
        ServerStatusClient::Empty {} => Transition::Same,
        ServerStatusClient::Ping { .. } => Transition::Exit,
    }
}

impl StatusState {
    /// Answers a status request with `status_json` (the server's status, or
    /// `None` where it could not be written) and a ping with its payload.
    /// Gives the bytes to write and what follows.
    pub fn handle(&mut self, packet: &Packet, status_json: Option<String>) -> (r: Result<(Option<Vec<u8>>, Transition), PacketError>)
        requires
            !ServerStatusClient::spec_aborts_with_id(packet.id, packet.data@),
            status_json matches Some(j) ==> encode_utf8(j@).len() + 16 <= usize::MAX,
        ensures
            match ServerStatusClient::spec_failure_with_id(packet.id, packet.data@) {
                Some(e) => r matches Err(PacketError::Io(k)) && k == e,
                None => exists|v: ServerStatusClient|
                    ServerStatusClient::spec_decoded_with_id(packet.id, packet.data@, v) && (r matches Ok((w, t))
                        && opt_bytes(w) == status_bytes(v, status_json) && t == status_transition(v)),
            },
    {
        match parse_packet::<ServerStatusClient>(packet) {
            Ok(v) => {
                let ghost gv = v;
                match v {
                    ServerStatusClient::Empty {} => match status_json {
                        Some(json) => {
                            let data = encode_string(json.as_str());
                            proof { crate::varint::lemma_varint_bytes_len(((encode_utf8(json@).len() as usize) as i32) as u32); }
                            let packet = Packet::new(0x00, data);
                            let bytes = packet.to_bytes();
                            Ok((Some(bytes), Transition::Same))
                        },
                        None => Ok((None, Transition::Same)),
                    },
                    ServerStatusClient::Ping { payload } => {
                        let mut data: Vec<u8> = Vec::new();
                        write_be(&mut data, payload as u64, 8);
                        proof { crate::bytes::lemma_be_roundtrip(payload as u64 as nat, 8); }
                        let packet = Packet::new(0x01, data);
                        let bytes = packet.to_bytes();
                        Ok((Some(bytes), Transition::Exit))
                    },
                }
            },
            Err(e) => Err(e),
        }
    }
}

/// What the login state asks of the connection.
#[derive(Debug)]
pub enum LoginAction {
    /// Nothing to send; stay in the login state.
    Stay,
    /// Send this encryption request and stay in the login state.
    RequestEncryption(EncryptionRequest),
    /// Offline mode: turn compression on, send this login success, then
    /// enter the play state.
    Offline { success: LoginSuccess, next: PlayState },
    /// Ask the session server whether the player joined with this server
    /// hash; the shared key encrypts the session afterwards.
    Authenticate { key: [u8; 16], hash: String },
}

/// Whether two byte sequences are equal.
fn bytes_equal(a: &[u8], b: &[u8]) -> (r: bool)
    ensures
        r == (a@ == b@),
{
    if a.len() != b.len() {
        return false;
    }
    let mut i: usize = 0;
    while i < a.len()
        invariant
            i <= a@.len(),
            a@.len() == b@.len(),
            forall|k: int| 0 <= k < i ==> a@[k] == b@[k],
        decreases a@.len() - i,
    {
        if a[i] != b[i] {
            return false;
        }
        i = i + 1;
    }
    assert(a@ =~= b@);
    true
}

/// The server hash of a login: SHA-1 of the shared secret and the public
/// key, as a signed hexadecimal number.
pub open spec fn server_hash(secret: Seq<u8>, public_key_der: Seq<u8>) -> Seq<char> {
    signed_lower_hex(sha1_digest(secret + public_key_der))
}

/// What an encryption response leads to once both of its fields are
/// decrypted: a token other than the one sent is ignored; a secret that is
/// not 16 bytes is invalid data; else the session server is asked with the
/// server hash.
pub open spec fn encryption_result(
    sent_token: [u8; 4],
    secret: Seq<u8>,
    token: Seq<u8>,
    public_key_der: Seq<u8>,
    r: Result<LoginAction, PacketError>,
) -> bool {
    if token != sent_token@ {
        r matches Ok(LoginAction::Stay)
    } else if secret.len() != 16 {
        r matches Err(PacketError::Io(e)) && e == IoError::InvalidData
    } else {
        r matches Ok(LoginAction::Authenticate { key, hash }) && key@ == secret && hash@ == server_hash(
            secret,
            public_key_der,
        )
    }
}

/// What a login start with `username` leads to: with a key pair, an
/// encryption request carrying the public key and a fresh token, which the
/// state keeps, or the failure of the random generator, which leaves the
/// token as it was; without one, the offline login success with the
/// name-based UUID.
pub open spec fn login_start_result(
    old_state: LoginState,
    new_state: LoginState,
    crypto: Option<&CryptoConfig>,
    username: String,
    r: Result<LoginAction, PacketError>,
) -> bool {
    &&& new_state.username == Some(username)
    &&& match crypto {
        Some(c) => match r {
            Ok(LoginAction::RequestEncryption(req)) => new_state.verify_token matches Some(t) && req.server_id@
                == ""@ && req.public_key@ == c.public_key_der@ && req.verify_token@ == t@,
            Err(PacketError::Io(e)) => e == IoError::Other && new_state.verify_token == old_state.verify_token,
            _ => false,
        },
        None => r matches Ok(LoginAction::Offline { success, next }) && success.uuid@ == hyphenated(
            uuid_v3_oid(encode_utf8(username@)),
        ) && success.username@ == username@ && next.username@ == username@
            && new_state.verify_token == old_state.verify_token,
    }
}

/// What an encryption response with the encrypted `shared_secret` and
/// `verify_token` leads to: without a token sent, a key pair or a name it is
/// ignored. Else both fields are decrypted with the private key. Where both
/// carry a message under it, the response gives what `encryption_result`
/// says of the two messages. Otherwise a decryption may fail, which fails
/// the response with `Other`, or give a plaintext that the key does not
/// determine, which `encryption_result` then judges.
pub open spec fn encryption_response_result(
    state: LoginState,
    crypto: Option<&CryptoConfig>,
    shared_secret: Seq<u8>,
    verify_token: Seq<u8>,
    r: Result<LoginAction, PacketError>,
) -> bool {
    if state.verify_token is None || crypto is None || state.username is None {
        r matches Ok(LoginAction::Stay)
    } else {
        let pem = crypto->0.private_key.spec_pem();
        let der = crypto->0.public_key_der@;
        match (rsa_pkcs1_message(pem, shared_secret), rsa_pkcs1_message(pem, verify_token)) {
            (Some(secret), Some(token)) => encryption_result(state.verify_token->0, secret, token, der, r),
            _ => r == Err::<LoginAction, PacketError>(PacketError::Io(IoError::Other)) || exists|
                secret: Seq<u8>,
                token: Seq<u8>,
            | encryption_result(state.verify_token->0, secret, token, der, r),
        }
    }
}

impl LoginState {
    /// Handles a login packet. A login start records the name and either
    /// asks for encryption (with a key pair) or logs the player in offline;
    /// an encryption response is decrypted and checked (see
    /// `complete_encryption`).
    #[verifier::rlimit(40)]
    pub fn handle(&mut self, packet: &Packet, crypto: Option<&CryptoConfig>) -> (r: Result<LoginAction, PacketError>)
        requires
            !ClientLoginPacket::spec_aborts_with_id(packet.id, packet.data@),
        ensures
            match ClientLoginPacket::spec_failure_with_id(packet.id, packet.data@) {
                Some(e) => (r matches Err(PacketError::Io(k)) && k == e) && *final(self) == *old(self),
                None => exists|v: ClientLoginPacket|
                    ClientLoginPacket::spec_decoded_with_id(packet.id, packet.data@, v) && match v {
                        ClientLoginPacket::LoginStart { username } => login_start_result(
                            *old(self),
                            *final(self),
                            crypto,
                            username,
                            r,
                        ),
                        ClientLoginPacket::EncryptionResponse { shared_secret, verify_token } => *final(self)
                            == *old(self) && encryption_response_result(
                            *old(self),
                            crypto,
                            shared_secret@,
                            verify_token@,
                            r,
                        ),
                    },
            },
    {
        let v = match parse_packet::<ClientLoginPacket>(packet) {
            Ok(v) => v,
            Err(e) => return Err(e),
        };
        let ghost gv = v;
        match v {
            ClientLoginPacket::LoginStart { username } => {
                self.username = Some(username.clone());
                match crypto {
                    Some(c) => {
                        let token: [u8; 4] = match generate_verify_token() {
                            Ok(t) => t,
                            Err(e) => {
                                assert(ClientLoginPacket::spec_decoded_with_id(packet.id, packet.data@, gv));
                                return Err(PacketError::Io(e));
                            },
                        };
                        let req = EncryptionRequest::new(
                            String::from_str(""),
                            c.public_key_der.clone(),
                            vstd::slice::slice_to_vec(token.as_slice()),
                        );
                        assert(req.public_key@ =~= c.public_key_der@);
                        self.verify_token = Some(token);
                        let r = Ok(LoginAction::RequestEncryption(req));
                        assert(ClientLoginPacket::spec_decoded_with_id(packet.id, packet.data@, gv));
                        r
                    },
                    None => {
                        let uuid: u128 = offline_uuid(username.as_str());
                        let success = LoginSuccess::new(uuid_string(uuid), username.clone());
                        let r = Ok(LoginAction::Offline { success, next: PlayState::new(username) });
                        assert(ClientLoginPacket::spec_decoded_with_id(packet.id, packet.data@, gv));
                        r
                    },
                }
            },
            ClientLoginPacket::EncryptionResponse { shared_secret, verify_token } => {
                assert(ClientLoginPacket::spec_decoded_with_id(packet.id, packet.data@, gv));
                let session_token: [u8; 4] = match self.verify_token {
                    Some(t) => t,
                    None => return Ok(LoginAction::Stay),
                };
                let c = match crypto {
                    Some(c) => c,
                    None => return Ok(LoginAction::Stay),
                };
                if self.username.is_none() {
                    return Ok(LoginAction::Stay);
                }
                proof { crate::wire::lemma_byte_vecs_fit(packet.data@, shared_secret, verify_token); }
                let decrypted_secret = match rsa_decrypt(&c.private_key, shared_secret.as_slice()) {
                    Ok(d) => d,
                    Err(e) => return Err(PacketError::Io(e)),
                };
                let decrypted_token = match rsa_decrypt(&c.private_key, verify_token.as_slice()) {
                    Ok(d) => d,
                    Err(e) => return Err(PacketError::Io(e)),
                };
                let r = self.complete_encryption(decrypted_secret, decrypted_token, c.public_key_der.as_slice());
                assert(encryption_result(session_token, decrypted_secret@, decrypted_token@, c.public_key_der@, r));
                r
            },
        }
    }

    /// Checks a decrypted encryption response against the token that was
    /// sent: see `encryption_result`.
    pub fn complete_encryption(&self, decrypted_secret: Vec<u8>, decrypted_token: Vec<u8>, public_key_der: &[u8]) -> (r: Result<LoginAction, PacketError>)
        requires
            self.verify_token is Some,
        ensures
            encryption_result(self.verify_token->0, decrypted_secret@, decrypted_token@, public_key_der@, r),
    {
        let sent: [u8; 4] = match self.verify_token {
            Some(t) => t,
            None => return Ok(LoginAction::Stay),
        };
        if !bytes_equal(decrypted_token.as_slice(), sent.as_slice()) {
            return Ok(LoginAction::Stay);
        }
        if decrypted_secret.len() != 16 {
            return Err(PacketError::Io(IoError::InvalidData));
        }
        let mut key: [u8; 16] = [0u8; 16];
        let mut i: usize = 0;
        while i < 16
            invariant
                i <= 16,
                decrypted_secret@.len() == 16,
                forall|k: int| 0 <= k < i ==> key@[k] == decrypted_secret@[k],
            decreases 16 - i,
        {
            key[i] = decrypted_secret[i];
            i = i + 1;
        }
        assert(key@ =~= decrypted_secret@);
        let hash = minecraft_hash(key.as_slice(), public_key_der);
        Ok(LoginAction::Authenticate { key, hash })
    }

    /// Logs in a player that the session server authenticated: the login
    /// success with the profile's UUID and name, the player-list entry (in
    /// survival, ping 12) with the name given at login, and the play state.
    pub fn on_authenticated(&self, profile: MojangProfile) -> (r: (LoginSuccess, PlayerListItem, PlayState))
        requires
            self.username is Some,
        ensures
            r.0.uuid@ == hyphenated(profile.id),
            r.0.username@ == profile.name@,
            r.1.action == VarInt::new_spec(0),
            r.1.players@.len() == 1,
            r.1.players@[0].uuid == profile.id,
            r.1.players@[0].name@ == self.username->0@,
            r.1.players@[0].properties@ == profile.properties@,
            r.1.players@[0].gamemode == (GamemodeState { gamemode: Gamemode::Survival, hardcore: false }),
            r.1.players@[0].ping == VarInt::new_spec(12),
            r.1.players@[0].display_name is None,
            r.2.username@ == self.username->0@,
    {
        let username: String = match &self.username {
            Some(u) => u.clone(),
            None => String::from_str(""),
        };
        let success = LoginSuccess::new(uuid_string(profile.id), profile.name);
        let mut players: Vec<PlayerListItemData> = Vec::new();
        players.push(PlayerListItemData::new(
            profile.id,
            username.clone(),
            profile.properties,
            GamemodeState::new(Gamemode::Survival),
            VarInt::new(12),
            None,
        ));
        let list = PlayerListItem::new(VarInt::new(0), players);
        (success, list, PlayState::new(username))
    }
}

/// The JSON of a chat line: `{"text":"<name> message","color":"white"}`,
/// the name and message written as they are.
pub open spec fn chat_json(username: Seq<char>, message: Seq<char>) -> Seq<char> {
    "{\"text\":\"<"@ + username + "> "@ + message + "\",\"color\":\"white\"}"@
}

/// The JSON of a chat line, built.
fn chat_json_text(username: &str, message: &str) -> (r: String)
    ensures
        r@ == chat_json(username@, message@),
{
    let mut json = String::from_str("{\"text\":\"<");
    json.append(username);
    json.append("> ");
    json.append(message);
    json.append("\",\"color\":\"white\"}");
    json
}

/// What the play state asks of the connection for one packet.
#[derive(Debug)]
pub struct PlayReply {
    /// A chat message to send to the player.
    pub chat: Option<ChatMessage>,
    /// Whether the pending keep-alive was answered in time, and is no longer
    /// pending.
    pub keepalive_answered: bool,
    /// What follows.
    pub transition: Transition,
}

/// The longest a keep-alive may take to be answered: 30 seconds, in
/// nanoseconds.
pub const KEEPALIVE_TIMEOUT_NANOS: u128 = 30_000_000_000u128;

/// Whether a keep-alive answer with id `id` answers the pending one (its id
/// and the nanoseconds since it was sent): same id, within 30 seconds.
pub open spec fn keepalive_accepted(pending: Option<(i32, u128)>, id: i32) -> bool {
    match pending {
        Some((expected, elapsed)) => id == expected && elapsed <= KEEPALIVE_TIMEOUT_NANOS,
        None => false,
    }
}

/// What the play state does with a packet: a chat message is echoed to the
/// player as a white chat line under their name; a keep-alive answer may
/// answer the pending one; everything else is accepted and ignored. The
/// state stays the same.
pub open spec fn play_reply(username: Seq<char>, v: ClientPlayPacket, pending: Option<(i32, u128)>, reply: PlayReply) -> bool {
    &&& reply.transition is Same
    &&& match v {
        ClientPlayPacket::ChatMessage { message } => match reply.chat {
            Some(c) => c.json_data@ == chat_json(username, message@) && c.position == 0 && !reply.keepalive_answered,
            None => false,
        },
        ClientPlayPacket::KeepAlive { keep_alive_id } => reply.chat is None && reply.keepalive_answered
            == keepalive_accepted(pending, keep_alive_id.0),
        _ => reply.chat is None && !reply.keepalive_answered,
    }
}

/// The bit pattern of the `f64` 100.0.
pub const HUNDRED_F64_BITS: u64 = 0x4059_0000_0000_0000u64;

impl PlayState {
    /// Handles a packet of the play state, `pending_keepalive` being the
    /// keep-alive awaiting an answer (its id and the nanoseconds since it
    /// was sent).
    pub fn handle(&mut self, packet: &Packet, pending_keepalive: Option<(i32, u128)>) -> (r: Result<PlayReply, PacketError>)
        requires
            !ClientPlayPacket::spec_aborts_with_id(packet.id, packet.data@),
        ensures
            *final(self) == *old(self),
            match ClientPlayPacket::spec_failure_with_id(packet.id, packet.data@) {
                Some(e) => r matches Err(PacketError::Io(k)) && k == e,
                None => exists|v: ClientPlayPacket|
                    ClientPlayPacket::spec_decoded_with_id(packet.id, packet.data@, v) && (r matches Ok(reply)
                        && play_reply(old(self).username@, v, pending_keepalive, reply)),
            },
    {
        let v = match parse_packet::<ClientPlayPacket>(packet) {
            Ok(v) => v,
            Err(e) => return Err(e),
        };
        let ghost gv = v;
        let reply = match v {
            ClientPlayPacket::ChatMessage { message } => {
                let json = chat_json_text(self.username.as_str(), message.as_str());
                PlayReply { chat: Some(ChatMessage::new(json, 0)), keepalive_answered: false, transition: Transition::Same }
            },
            ClientPlayPacket::KeepAlive { keep_alive_id } => {
                let answered = match pending_keepalive {
                    Some((expected_id, elapsed)) => {
                        if keep_alive_id.val() != expected_id {
                            false
                        } else if elapsed > KEEPALIVE_TIMEOUT_NANOS {
                            false
                        } else {
                            true
                        }
                    },
                    None => false,
                };
                PlayReply { chat: None, keepalive_answered: answered, transition: Transition::Same }
            },
            _ => PlayReply { chat: None, keepalive_answered: false, transition: Transition::Same },
        };
        assert(ClientPlayPacket::spec_decoded_with_id(packet.id, packet.data@, gv));
        Ok(reply)
    }

    /// The packets that bring a player into the game with entity id `eid`:
    /// the join (with the profile's mode, dimension and difficulty, the
    /// player limit capped at 255, the default world type), the position
    /// (0, 100, 0) with a level look, and the entity's metadata (entry 10,
    /// the skin parts, all shown).
    pub fn join_packets(&self, eid: i32, profile: &ProfileConfig) -> (r: (JoinGame, PlayerPositionAndLook, EntityMetadata))
        ensures
            r.0 == (JoinGame {
                entity_id: eid,
                gamemode: GamemodeState { gamemode: profile.gamemode, hardcore: false },
                dimension: profile.dimension,
                difficulty: profile.difficulty,
                max_players: if profile.max_players < 255 { profile.max_players as u8 } else { 255u8 },
                level_type: WorldType::Default,
                reduced_debug_info: false,
            }),
            r.1 == (PlayerPositionAndLook { x: 0, y: HUNDRED_F64_BITS, z: 0, yaw: 0, pitch: 0, flags: 0 }),
            r.2.entity_id == VarInt::new_spec(eid),
            r.2.metadata.0@.len() == 1,
            r.2.metadata.0@[0] matches MetadataEntry::Byte(index, value) && index == 10 && value == 127,
    {
        let max: u32 = if profile.max_players < 255 { profile.max_players } else { 255 };
        let join = JoinGame::new(
            eid,
            GamemodeState::new(profile.gamemode),
            profile.dimension,
            profile.difficulty,
            max as u8,
            WorldType::Default,
            false,
        );
        let position = PlayerPositionAndLook::new(0, HUNDRED_F64_BITS, 0, 0, 0, 0);
        let mut entries: Vec<MetadataEntry> = Vec::new();
        entries.push(MetadataEntry::Byte(10, 127));
        let metadata = EntityMetadata::new(VarInt::new(eid), MetadataEntries(entries));
        (join, position, metadata)
    }
}

/// The `ChunkData` packet of a whole overworld chunk: its coordinates, its
/// primary bitmask, the payload's length and the payload.
pub fn chunk_data_packet(chunk: &Chunk) -> (p: ChunkData)
    ensures
        p.chunk_x == chunk.x,
        p.chunk_z == chunk.z,
        p.ground_up_continuous,
        p.primary_bitmask == chunk.spec_bitmask(true),
        p.size == VarInt::new_spec(chunk.spec_payload(true, true).len() as i32),
        p.data.0@ == chunk.spec_payload(true, true),
{
    let (bitmask, data) = chunk.serialize_payload(true, true);
    proof { crate::chunk::lemma_payload_len(*chunk, true, true); }
    let len: usize = data.len();
    ChunkData::new(chunk.x, chunk.z, true, bitmask, VarInt::new(len as i32), RawBytesArray(data))
}

/// The chunks sent to a player who joins: columns 1 to 9 on both axes, by
/// rows of x, each row in increasing z.
pub fn spawn_chunks() -> (keys: Vec<ChunkKey>)
    ensures
        keys@.len() == 81,
        forall|k: int| 0 <= k < 81 ==> #[trigger] keys@[k] == ChunkKey(chunk_key_value((1 + k / 9) as i32, (1 + k % 9) as i32)),
{
    let mut keys: Vec<ChunkKey> = Vec::new();
    let mut i: i32 = 1;
    while i < 10
        invariant
            1 <= i <= 10,
            keys@.len() == 9 * (i - 1),
            forall|k: int| 0 <= k < keys@.len() ==> #[trigger] keys@[k] == ChunkKey(chunk_key_value((1 + k / 9) as i32, (1 + k % 9) as i32)),
        decreases 10 - i,
    {
        let mut j: i32 = 1;
        while j < 10
            invariant
                1 <= i < 10,
                1 <= j <= 10,
                keys@.len() == 9 * (i - 1) + (j - 1),
                forall|k: int| 0 <= k < keys@.len() ==> #[trigger] keys@[k] == ChunkKey(chunk_key_value((1 + k / 9) as i32, (1 + k % 9) as i32)),
            decreases 10 - j,
        {
            let key = ChunkKey::new(i, j);
            proof {
                let k = keys@.len() as int;
                assert(k / 9 == i - 1 && k % 9 == j - 1);
            }
            keys.push(key);
            j = j + 1;
        }
        i = i + 1;
    }
    keys
}

/// The block that a player's arrival places in each spawn chunk: id 5
/// (planks), metadata 0, at (10, 90, 0).
pub fn mark_spawn_block(chunk: &mut Chunk)
    ensures
        Chunk::is_block_set(*old(chunk), *final(chunk), 10, 90, 0, 5, 0),
{
    chunk.set_block(10, 90, 0, 5, 0);
}

} // verus!
