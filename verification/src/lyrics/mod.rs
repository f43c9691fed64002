//! Time-synced lyrics.

pub mod parse;
pub mod reply;
