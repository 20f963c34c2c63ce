//! Minecraft Java / Bedrock server ping: protocol encoding, response parsing
//! and text rendering, with their contracts.
pub mod bedrock;
pub mod chat;
pub mod dns;
pub mod icon;
pub mod java;
pub mod motd;
pub mod ping;
pub mod target;
pub mod text;
pub mod varint;
pub mod wire;
