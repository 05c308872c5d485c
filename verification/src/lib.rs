//! Core of a guild chat-to-speech bridge.
//!
//! The library owns the state and the decisions of the pipeline that turns a
//! text message posted in a guild channel into synthesized speech played in
//! that guild's voice session: which channel feeds the pipeline, which voice
//! each author speaks with, how raw chat text becomes speakable text, and how
//! playback requests are serialized per guild.  Network transports (the chat
//! platform, the synthesis HTTP API) stay outside; they hand the library plain
//! values and take plain values back.

pub mod bindings;
pub mod gateway;
pub mod models;
pub mod orchestrator;
pub mod profiles;
pub mod sanitize;
pub mod sanitize_laws;
pub mod session;
pub mod text;
pub mod voices;
