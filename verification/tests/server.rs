use cobalt::cache::CachedEntry;
use cobalt::config::{AuthentificationConfig, NetworkConfig, ProfileConfig, ServerConfig};
use cobalt::context::{
    compress_outgoing, compression_announcement, crypto_key_paths, favicon_data_uri, frame_outgoing, keepalive_packet,
    KEEPALIVE_ID,
};
use cobalt::entity_manager::EntityManager;
use cobalt::error::IoError;
use cobalt::mojang::MojangProfile;
use cobalt::net_client::{ClientLoginPacket, ClientPlayPacket, ServerHandshakeClient};
use cobalt::net_server::{MetadataEntry, Property};
use cobalt::packet::{decompress_packet, Packet, PacketError};
use cobalt::player_store::PlayerStore;
use cobalt::sdk::{Difficulty, Dimension, Gamemode, WorldType};
use cobalt::states::{
    loop_step, LoopStep,
    chunk_data_packet, encode_string, AState, HandshakeState, LoginAction, LoginState, PlayState, StatusState,
    Transition, HUNDRED_F64_BITS,
};
use cobalt::chunk::Chunk;
use cobalt::varint::VarInt;
use cobalt::wire::DecodeWithId;
use cobalt::world::ChunkKey;


fn handshake(next_state: u8) -> Packet {
    let mut data = vec![47u8];
    data.extend(encode_string("localhost"));
    data.extend_from_slice(&[0x63, 0xdd]);
    data.push(next_state);
    Packet::new(0x00, data)
}

#[test]
fn handshake_leads_to_status_or_login() {
    match HandshakeState.handle(&handshake(1)) {
        Ok(Transition::Next(AState::Status(_))) => {}
        other => panic!("unexpected {:?}", other),
    }
    match HandshakeState.handle(&handshake(2)) {
        Ok(Transition::Next(AState::Login(s))) => {
            assert!(s.username.is_none());
            assert!(s.verify_token.is_none());
        }
        other => panic!("unexpected {:?}", other),
    }
    match HandshakeState.handle(&handshake(3)) {
        Err(PacketError::InvalidPacketId(3)) => {}
        other => panic!("unexpected {:?}", other),
    }
    match HandshakeState.handle(&Packet::new(0x00, vec![47])) {
        Err(PacketError::Io(IoError::UnexpectedEof)) => {}
        other => panic!("unexpected {:?}", other),
    }
}

#[test]
fn status_answers_with_json_then_echoes_ping() {
    let (bytes, t) = StatusState.handle(&Packet::new(0x00, vec![]), Some("{}".to_string())).unwrap();
    assert_eq!(bytes.unwrap(), vec![4, 0x00, 2, b'{', b'}']);
    assert!(matches!(t, Transition::Same));
    let (bytes, t) = StatusState.handle(&Packet::new(0x00, vec![]), None).unwrap();
    assert!(bytes.is_none());
    assert!(matches!(t, Transition::Same));
    let ping = Packet::new(0x01, vec![0, 0, 0, 0, 0, 0, 1, 2]);
    let (bytes, t) = StatusState.handle(&ping, None).unwrap();
    assert_eq!(bytes.unwrap(), vec![9, 0x01, 0, 0, 0, 0, 0, 0, 1, 2]);
    assert!(matches!(t, Transition::Exit));
}

#[test]
fn offline_login_uses_the_name_based_uuid() {
    let mut state = LoginState::new(None, None);
    let packet = Packet::new(0x00, encode_string("Notch"));
    match state.handle(&packet, None).unwrap() {
        LoginAction::Offline { success, next } => {
            assert_eq!(success.uuid, "36a25887-3757-3ce6-90d4-9eaa0ad3e079");
            assert_eq!(success.username, "Notch");
            assert_eq!(next.username, "Notch");
        }
        other => panic!("unexpected {:?}", other),
    }
    assert_eq!(state.username.as_deref(), Some("Notch"));
}

#[test]
fn encryption_response_without_a_request_is_ignored() {
    let mut state = LoginState::new(Some("Notch".to_string()), None);
    let mut data = vec![1u8, 7];
    data.extend_from_slice(&[1, 8]);
    let packet = Packet::new(0x01, data);
    assert!(matches!(state.handle(&packet, None).unwrap(), LoginAction::Stay));
    assert!(state.verify_token.is_none());
}

#[test]
fn decrypted_responses_are_checked() {
    let state = LoginState::new(Some("Notch".to_string()), Some([1, 2, 3, 4]));
    let r = state.complete_encryption(vec![9; 16], vec![1, 2, 3, 5], b"");
    assert!(matches!(r, Ok(LoginAction::Stay)));
    let r = state.complete_encryption(vec![9; 15], vec![1, 2, 3, 4], b"");
    assert!(matches!(r, Err(PacketError::Io(IoError::InvalidData))));
    match state.complete_encryption(b"Notch___________".to_vec(), vec![1, 2, 3, 4], b"") {
        Ok(LoginAction::Authenticate { key, hash }) => {
            assert_eq!(&key, b"Notch___________");
            assert_eq!(hash, cobalt::crypto::minecraft_hash(b"Notch___________", b""));
        }
        other => panic!("unexpected {:?}", other),
    }
}

#[test]
fn authenticated_players_join_the_list() {
    let state = LoginState::new(Some("Notch".to_string()), Some([1, 2, 3, 4]));
    let profile = MojangProfile {
        id: 0x0123456789abcdef0011223344556677,
        name: "Notch".to_string(),
        properties: vec![Property::new("textures".to_string(), "abc".to_string(), None)],
    };
    let (success, list, next) = state.on_authenticated(profile);
    assert_eq!(success.uuid, "01234567-89ab-cdef-0011-223344556677");
    assert_eq!(success.username, "Notch");
    assert_eq!(list.action.val(), 0);
    assert_eq!(list.players.len(), 1);
    assert_eq!(list.players[0].uuid, 0x0123456789abcdef0011223344556677);
    assert_eq!(list.players[0].name, "Notch");
    assert_eq!(list.players[0].properties.len(), 1);
    assert_eq!(list.players[0].gamemode.gamemode, Gamemode::Survival);
    assert_eq!(list.players[0].ping.val(), 12);
    assert!(list.players[0].display_name.is_none());
    assert_eq!(next.username, "Notch");
}

#[test]
fn chat_is_echoed_as_white_json() {
    let mut state = PlayState::new("Steve".to_string());
    let reply = state.handle(&Packet::new(0x01, encode_string("hi")), None).unwrap();
    let chat = reply.chat.unwrap();
    assert_eq!(chat.json_data, r#"{"text":"<Steve> hi","color":"white"}"#);
    assert_eq!(chat.position, 0);
    assert!(!reply.keepalive_answered);
    assert!(matches!(reply.transition, Transition::Same));
}

#[test]
fn keepalive_answers_need_the_id_in_time() {
    let mut state = PlayState::new("Steve".to_string());
    let answer = Packet::new(0x00, vec![23]);
    assert!(state.handle(&answer, Some((23, 1_000))).unwrap().keepalive_answered);
    assert!(state.handle(&answer, Some((23, 30_000_000_000))).unwrap().keepalive_answered);
    assert!(!state.handle(&answer, Some((23, 30_000_000_001))).unwrap().keepalive_answered);
    assert!(!state.handle(&answer, Some((24, 1_000))).unwrap().keepalive_answered);
    assert!(!state.handle(&answer, None).unwrap().keepalive_answered);
    let ground = state.handle(&Packet::new(0x03, vec![1]), Some((23, 0))).unwrap();
    assert!(ground.chat.is_none() && !ground.keepalive_answered);
}

#[test]
fn joining_packets() {
    let state = PlayState::new("Steve".to_string());
    let mut profile = ProfileConfig::default();
    profile.max_players = 1000;
    let (join, position, metadata) = state.join_packets(42, &profile);
    assert_eq!(join.entity_id, 42);
    assert_eq!(join.gamemode.gamemode, Gamemode::Survival);
    assert_eq!(join.dimension, Dimension::Overworld);
    assert_eq!(join.difficulty, Difficulty::Normal);
    assert_eq!(join.max_players, 255);
    assert_eq!(join.level_type, WorldType::Default);
    assert!(!join.reduced_debug_info);
    assert_eq!(position.y, HUNDRED_F64_BITS);
    assert_eq!(f64::from_bits(position.y), 100.0);
    assert_eq!(metadata.entity_id.val(), 42);
    assert!(matches!(metadata.metadata.0[..], [MetadataEntry::Byte(10, 127)]));
    profile.max_players = 20;
    assert_eq!(state.join_packets(1, &profile).0.max_players, 20);
}

#[test]
fn chunk_data_carries_the_payload() {
    let c = Chunk::generate_empty(ChunkKey::new(2, 3));
    let p = chunk_data_packet(&c);
    assert_eq!((p.chunk_x, p.chunk_z), (2, 3));
    assert!(p.ground_up_continuous);
    assert_eq!(p.primary_bitmask, 1);
    assert_eq!(p.size.val() as usize, p.data.0.len());
    assert_eq!(p.data.0.len(), 8192 + 4096 + 256);
}

#[test]
fn is_play_only_in_play() {
    assert!(AState::Play(PlayState::new("a".to_string())).is_play());
    assert!(!AState::Handshake(HandshakeState).is_play());
    assert!(!AState::Status(StatusState).is_play());
}

#[test]
fn encode_string_prefixes_the_byte_length() {
    assert_eq!(encode_string(""), vec![0]);
    assert_eq!(encode_string("é"), vec![2, 0xc3, 0xa9]);
}

#[test]
fn aborting_reads_are_detected() {
    // a negative string length would never be read
    let negative = vec![0xff, 0xff, 0xff, 0xff, 0x0f];
    assert!(ClientLoginPacket::aborts_with_id(0x00, &negative));
    assert!(!ClientLoginPacket::aborts_with_id(0x00, &[1, b'a']));
    assert!(ClientPlayPacket::aborts_with_id(0x10, &[0, 1]));
    assert!(!ClientPlayPacket::aborts_with_id(0x10, &[0]));
    let mut handshake = vec![47];
    handshake.extend_from_slice(&negative);
    assert!(ServerHandshakeClient::aborts_with_id(0x00, &handshake));
    let mut response = vec![1, 5];
    response.extend_from_slice(&negative);
    assert!(ClientLoginPacket::aborts_with_id(0x01, &response));
}

#[test]
fn entity_ids_count_up_and_are_reused() {
    let mut m = EntityManager::new();
    assert_eq!(m.current_id(), 1);
    assert_eq!(m.next_id(), 1);
    assert_eq!(m.next_id(), 2);
    assert_eq!(m.current_id(), 3);
    m.release_id(1);
    m.release_id(2);
    assert_eq!(m.next_id(), 2);
    assert_eq!(m.next_id(), 1);
    assert_eq!(m.next_id(), 3);
    assert_eq!(EntityManager::default().current_id(), 1);
}

#[test]
fn dirty_players_are_taken_once() {
    let mut store = PlayerStore { players: vec![], dirty: vec![false; 4] };
    store.set_dirty(3);
    store.set_dirty(1);
    assert_eq!(store.take_dirty(), vec![1, 3]);
    assert!(store.take_dirty().is_empty());
    assert_eq!(store.dirty, vec![false; 4]);
}

#[test]
fn cached_entries_track_changes() {
    let mut e = CachedEntry::new(5u32);
    assert_eq!(*e.val(), 5);
    assert!(!e.take_dirty());
    e.set_dirty();
    e.refresh_access();
    assert!(e.take_dirty());
    assert!(!e.take_dirty());
    e.modify(6);
    assert_eq!(*e.val(), 6);
    assert!(e.take_dirty());
    let shared = std::sync::Arc::new(7u32);
    let f = CachedEntry::from_shared(shared.clone());
    assert!(std::sync::Arc::ptr_eq(&f.val(), &shared));
}

#[test]
fn configuration_defaults() {
    let c = ServerConfig::default();
    assert_eq!(c.network.addr, "127.0.0.1:25565");
    assert_eq!(c.network.protocol_version, 47);
    assert_eq!(c.network.threshold, 256);
    assert_eq!(c.profile.name, "Cobalt Server");
    assert_eq!(c.profile.description, "");
    assert_eq!(c.profile.max_players, 20);
    assert!(c.profile.icon.is_none());
    assert_eq!(c.profile.gamemode, Gamemode::Survival);
    assert_eq!(c.profile.dimension, Dimension::Overworld);
    assert_eq!(c.profile.difficulty, Difficulty::Normal);
    assert!(c.auth.enabled);
    assert!(c.auth.private_key.is_none() && c.auth.public_key.is_none());
    assert_eq!(NetworkConfig::default().threshold, 256);
    assert!(AuthentificationConfig::default().enabled);
}

#[test]
fn outgoing_frames() {
    assert_eq!(frame_outgoing(&[0x00, 1, 2]), vec![3, 0x00, 1, 2]);
    assert_eq!(compress_outgoing(vec![1, 2], None).unwrap(), vec![1, 2]);
    let small = compress_outgoing(vec![1, 2], Some(256)).unwrap();
    assert_eq!(small, vec![0, 1, 2]);
    let big: Vec<u8> = vec![5; 300];
    let inner = compress_outgoing(big.clone(), Some(256)).unwrap();
    assert_eq!(decompress_packet(inner).unwrap(), big);
}

#[test]
fn compression_is_announced_unless_disabled() {
    assert!(compression_announcement(0).is_none());
    assert_eq!(compression_announcement(256).unwrap().threshold, VarInt::new(256));
    assert_eq!(keepalive_packet().keep_alive_id, VarInt::new(KEEPALIVE_ID));
    assert_eq!(KEEPALIVE_ID, 23);
}

#[test]
fn favicons_must_be_png() {
    let png = b"\x89PNG\r\n\x1a\nab".to_vec();
    assert_eq!(favicon_data_uri(&png).unwrap(), "data:image/png;base64,iVBORw0KGgphYg==");
    assert_eq!(favicon_data_uri(b"GIF89a..."), Err(IoError::InvalidData));
}

#[test]
fn key_paths_need_both_keys() {
    let off = AuthentificationConfig { enabled: false, private_key: None, public_key: None };
    assert!(matches!(crypto_key_paths(&off), Ok(None)));
    let half = AuthentificationConfig { enabled: true, private_key: Some(String::from("k.pem")), public_key: None };
    assert!(matches!(crypto_key_paths(&half), Err(IoError::InvalidData)));
    let both = AuthentificationConfig {
        enabled: true,
        private_key: Some(String::from("k.pem")),
        public_key: Some(String::from("k.der")),
    };
    match crypto_key_paths(&both) {
        Ok(Some((public, private))) => {
            assert_eq!(public, &String::from("k.der"));
            assert_eq!(private, &String::from("k.pem"));
        }
        other => panic!("unexpected {:?}", other),
    }
}

#[test]
fn encrypted_login_asks_then_authenticates() {
    let key = openssl::rsa::Rsa::generate(1024).unwrap();
    let pem = key.private_key_to_pem().unwrap();
    let der = key.public_key_to_der().unwrap();
    let crypto = cobalt::crypto::CryptoConfig::new(&der, &pem).unwrap();
    assert_eq!(crypto.public_key_der, der);

    let mut state = LoginState::new(None, None);
    let token = match state.handle(&Packet::new(0x00, encode_string("Notch")), Some(&crypto)).unwrap() {
        LoginAction::RequestEncryption(request) => {
            assert_eq!(request.server_id, "");
            assert_eq!(request.public_key, der);
            assert_eq!(Some(request.verify_token.as_slice()), state.verify_token.as_ref().map(|t| &t[..]));
            request.verify_token
        }
        other => panic!("unexpected {:?}", other),
    };
    assert_eq!(state.username.as_deref(), Some("Notch"));

    let secret = [5u8; 16];
    let encrypt = |data: &[u8]| {
        let mut out = vec![0u8; key.size() as usize];
        let n = key.public_encrypt(data, &mut out, openssl::rsa::Padding::PKCS1).unwrap();
        out.truncate(n);
        out
    };
    let enc_secret = encrypt(&secret);
    let enc_token = encrypt(&token);
    assert_eq!(cobalt::crypto::rsa_decrypt(&crypto.private_key, &enc_token).unwrap(), token);

    let mut data = VarInt::new(enc_secret.len() as i32).to_bytes();
    data.extend_from_slice(&enc_secret);
    data.extend(VarInt::new(enc_token.len() as i32).to_bytes());
    data.extend_from_slice(&enc_token);
    match state.handle(&Packet::new(0x01, data), Some(&crypto)).unwrap() {
        LoginAction::Authenticate { key: shared, hash } => {
            assert_eq!(shared, secret);
            assert_eq!(hash, cobalt::crypto::minecraft_hash(&secret, &der));
        }
        other => panic!("unexpected {:?}", other),
    }
}

#[test]
fn joining_players_get_the_spawn_area() {
    let keys = cobalt::states::spawn_chunks();
    assert_eq!(keys.len(), 81);
    assert_eq!((keys[0].x(), keys[0].z()), (1, 1));
    assert_eq!((keys[1].x(), keys[1].z()), (1, 2));
    assert_eq!((keys[9].x(), keys[9].z()), (2, 1));
    assert_eq!((keys[80].x(), keys[80].z()), (9, 9));
    let mut c = Chunk::generate_empty(ChunkKey::new(1, 1));
    cobalt::states::mark_spawn_block(&mut c);
    assert_eq!(c.get_block(10, 90, 0), (5, 0));
}

#[test]
fn configuration_prints_one_line_per_setting() {
    let mut config = ServerConfig::default();
    let text = config.to_string();
    assert_eq!(
        text,
        "  Network\n    Address          : 127.0.0.1:25565\n    Protocol Version : 47\n    Threshold        : 256\n\
         \x20 Profile\n    Name             : Cobalt Server\n    Description      : \n    Max Players      : 20\n\
         \x20   Gamemode         : Survival\n    Dimension        : Overworld\n    Difficulty       : Normal\n\
         \x20   Icon             : None\n  Authentication\n    Enabled          : true\n    Private Key      : None\n\
         \x20   Public Key       : None"
    );
    config.auth.private_key = Some(String::from("/keys/server.pem"));
    config.profile.icon = Some(String::from("res/icon.png"));
    let text = config.to_string();
    assert!(text.contains("    Icon             : icon.png\n"));
    assert!(text.contains("    Private Key      : ***server.pem\n"));
    assert!(text.ends_with("    Public Key       : None"));
    let with = config.summary_with(Some("a.png"), None, Some("k.der"));
    assert!(with.ends_with("    Public Key       : ***k.der"));
}

#[test]
fn issued_entity_ids_are_never_outstanding() {
    let mut m = EntityManager::new();
    let mut outstanding: Vec<i32> = Vec::new();
    let plan = [true, true, true, false, true, false, false, true, true, true, false, true];
    for (step, issue) in plan.iter().enumerate() {
        if *issue || outstanding.is_empty() {
            let id = m.next_id();
            assert!(id >= 1);
            assert!(!outstanding.contains(&id));
            outstanding.push(id);
        } else {
            let id = outstanding.remove(step % outstanding.len());
            m.release_id(id);
        }
    }
}

#[test]
fn rsa_decrypt_reports_failures() {
    let key = openssl::rsa::Rsa::generate(1024).unwrap();
    let pem = key.private_key_to_pem().unwrap();
    assert!(cobalt::crypto::RsaPrivateKey::from_pem(b"not a key").is_err());
    assert!(cobalt::crypto::CryptoConfig::new(b"", b"not a key").is_err());
    let private_key = cobalt::crypto::RsaPrivateKey::from_pem(&pem).unwrap();
    let mut out = vec![0u8; key.size() as usize];
    let n = key.public_encrypt(b"secret", &mut out, openssl::rsa::Padding::PKCS1).unwrap();
    out.truncate(n);
    assert_eq!(cobalt::crypto::rsa_decrypt(&private_key, &out).unwrap(), b"secret");
}

#[test]
fn encryption_response_with_another_token_is_ignored() {
    let key = openssl::rsa::Rsa::generate(1024).unwrap();
    let pem = key.private_key_to_pem().unwrap();
    let der = key.public_key_to_der().unwrap();
    let crypto = cobalt::crypto::CryptoConfig::new(&der, &pem).unwrap();
    let mut state = LoginState::new(Some("Notch".to_string()), Some([1, 2, 3, 4]));
    let encrypt = |data: &[u8]| {
        let mut out = vec![0u8; key.size() as usize];
        let n = key.public_encrypt(data, &mut out, openssl::rsa::Padding::PKCS1).unwrap();
        out.truncate(n);
        out
    };
    let response = |secret: &[u8], token: &[u8]| {
        let mut data = VarInt::new(secret.len() as i32).to_bytes();
        data.extend_from_slice(secret);
        data.extend(VarInt::new(token.len() as i32).to_bytes());
        data.extend_from_slice(token);
        Packet::new(0x01, data)
    };
    let wrong = response(&encrypt(&[7u8; 16]), &encrypt(&[1, 2, 3, 5]));
    assert!(matches!(state.handle(&wrong, Some(&crypto)), Ok(LoginAction::Stay)));
    let short = response(&encrypt(&[7u8; 15]), &encrypt(&[1, 2, 3, 4]));
    assert!(matches!(state.handle(&short, Some(&crypto)), Err(PacketError::Io(IoError::InvalidData))));
}

#[test]
fn printed_key_names_are_file_names() {
    let mut config = ServerConfig::default();
    config.auth.public_key = Some(String::from("keys/pub/"));
    config.auth.private_key = Some(String::from("keys/.."));
    let text = config.to_string();
    assert!(text.ends_with("    Public Key       : ***pub"));
    assert!(text.contains("    Private Key      : None\n"));
}

#[test]
fn status_json_lists_the_server() {
    let mut profile = ProfileConfig::default();
    profile.description = "A \"quoted\" line\nand a tab\t\u{1}".to_string();
    let json = cobalt::states::build_status_json(&profile, 47, 3, None);
    assert_eq!(
        json,
        "{\"version\":{\"name\":\"Cobalt Server\",\"protocol\":47},\"players\":{\"max\":20,\"online\":3,\"sample\":[]},\
         \"description\":{\"text\":\"A \\\"quoted\\\" line\\nand a tab\\t\\u0001\"}}"
    );
    let with = cobalt::states::build_status_json(&ProfileConfig::default(), 5, 0, Some("data:x"));
    assert!(with.ends_with("\"description\":{\"text\":\"\"},\"favicon\":\"data:x\"}"));
}

#[test]
fn loop_steps_follow_transitions() {
    assert!(matches!(loop_step(Transition::Same), LoopStep::Stay));
    assert!(matches!(loop_step(Transition::Exit), LoopStep::Stop));
    match loop_step(Transition::Next(AState::Play(PlayState::new("a".to_string())))) {
        LoopStep::Enter { next, start_keepalive } => assert!(next.is_play() && start_keepalive),
        other => panic!("unexpected {:?}", other),
    }
    match loop_step(Transition::Next(AState::Status(StatusState))) {
        LoopStep::Enter { next, start_keepalive } => assert!(!next.is_play() && !start_keepalive),
        other => panic!("unexpected {:?}", other),
    }
}
