//! The Spotify Web API: what is asked, and what the answers mean.

pub mod actions;
pub mod feed;
pub mod lists;
pub mod pages;
pub mod rows;
