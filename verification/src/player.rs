pub mod player;
pub mod playlist;
