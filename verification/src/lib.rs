pub mod cache;
pub mod listing;
pub mod rcon;
pub mod session;
pub mod status;
pub mod text;
pub mod ui;
