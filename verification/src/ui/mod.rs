//! What the views show, as text and regions: drawing it is left to the terminal.

pub mod library;
pub mod room;
pub mod spans;
