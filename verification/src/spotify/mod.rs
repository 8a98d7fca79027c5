//! Spotify Web API data, the token state, and the decisions the client makes
//! around the HTTP transport.

pub mod auth;
pub mod callback;
pub mod client;
pub mod models;
pub mod service;
