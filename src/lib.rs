//! Engine of a tonal ear-training game: the music catalog, the graduated
//! exercises, the pool of notes a session draws from, and the controller
//! that runs a session.

pub mod note;
pub mod exercise;
pub mod state;
pub mod game;
pub mod models;
pub mod snapshot;
