pub mod app;
pub mod types;
