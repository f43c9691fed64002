//! The application state — what the views show, and what input, the engine and
//! the workers do to it.

pub mod action;
pub mod browse;
pub mod event;
pub mod media;
pub mod play;
pub mod replies;
pub mod room;
pub mod state;
pub mod ui_loop;
