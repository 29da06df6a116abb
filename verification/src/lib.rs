//! Core logic of the ShadowGhost peer-to-peer messenger.

pub mod api;
pub mod chats;
pub mod clock;
pub mod commands;
pub mod config;
pub mod contact_manager;
pub mod contacts;
pub mod crypto;
pub mod discovery;
pub mod engine;
pub mod entropy;
pub mod events;
pub mod framing;
pub mod health;
pub mod keyed;
pub mod lifecycle;
pub mod links;
pub mod messages;
pub mod network;
pub mod node;
pub mod protocol;
pub mod security;
pub mod sorting;
pub mod stun;
pub mod text;
pub mod tls_masking;
