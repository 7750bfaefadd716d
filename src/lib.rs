pub mod error;
pub mod exchange;
pub mod game;
pub mod state;
pub mod status;
pub mod types;
pub mod laws;
