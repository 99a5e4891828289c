//! Deterministic simulation core of a two-player rollback box game: state
//! framing, checksums, input decoding, control resolution and the
//! save / load / advance protocol that a rollback session drives.

pub mod checksum;
pub mod error;
pub mod input;
pub mod state;
pub mod level;
pub mod game;
