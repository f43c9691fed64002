//! The listening room: one Premium session, many listeners, each their own song.

pub mod cache;
pub mod client;
pub mod fetch;
pub mod host;
pub mod ogg;
pub mod player;
pub mod resolve;
pub mod resolver;
pub mod substream;
pub mod token;
