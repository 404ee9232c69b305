//! Cobalt: the protocol, world and session logic of a Minecraft: Java Edition
//! server, with its behaviour stated in contracts and proved.
#![allow(unused_imports)]

pub mod varint;
pub mod error;
pub mod text;
pub mod bytes;
pub mod encoding;
pub mod wire;
pub mod serialize;
pub mod packet;
pub mod crypto;
pub mod codex;
pub mod sdk;
pub mod types;
pub mod net_server;
pub mod net_client;
pub mod world;
pub mod chunk;
pub mod chunk_builder;
pub mod config;
pub mod entity_manager;
pub mod player_store;
pub mod cache;
pub mod mojang;
pub mod states;
pub mod context;
