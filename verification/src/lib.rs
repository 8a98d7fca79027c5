//! Playlist Studio library core.

pub mod ai;
pub mod config;
pub mod messages;
pub mod ops;
pub mod order;
pub mod safety;
pub mod shuffle;
pub mod spotify;
pub mod text;
pub mod util;
