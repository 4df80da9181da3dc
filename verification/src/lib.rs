//! The core of a relay that carries role changes from an append-only event
//! log into permission levels of chat rooms.
//!
//! Nothing in this crate performs input or output. Every component is a
//! function, or a small state machine, from plain values to plain values: the
//! caller fetches, stores, sleeps and sends, and hands back what came of it.

pub mod codec;
pub mod config;
pub mod consumer;
pub mod data;
pub mod matrix;
pub mod producer;
pub mod text;
pub mod types;
