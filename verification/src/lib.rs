pub mod backend;
pub mod cmd;
pub mod config;
pub mod geometry;
pub mod input;
pub mod layout;
pub mod server;
pub mod surface;
pub mod daemon;
