//! The decision logic of a terminal audio player: playlists, track
//! navigation, the player's state machine, the application's event
//! handling and the text the user interface shows.

pub mod app;
pub mod finder;
pub mod player;
pub mod view;
