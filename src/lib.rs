//! Hides a file behind a carrier file: the carrier's bytes stay as they are,
//! and an encrypted, checksummed chunk stream plus a self-describing trailer
//! follow them.

pub mod error;
pub mod format;
pub mod crypto;
pub mod chunk;
pub mod trailer;
pub mod file;
pub mod progress;
pub mod encoder;
pub mod decoder;
pub mod container;
pub mod text;
pub mod config;
