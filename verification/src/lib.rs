//! The verified core of myx, a terminal Spotify player.

pub mod api;
pub mod app;
pub mod assoc;
pub mod cover;
pub mod engine;
pub mod external;
pub mod frame;
pub mod hex;
pub mod json;
pub mod liblog;
pub mod library;
pub mod lyrics;
pub mod order;
pub mod persist;
pub mod playback;
pub mod room;
pub mod shared;
pub mod startup;
pub mod text;
pub mod ui;
pub mod util;
