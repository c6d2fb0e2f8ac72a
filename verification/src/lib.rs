pub mod clients;
pub mod config;
pub mod crypto;
pub mod daemon;
pub mod db;
pub mod encoding;
pub mod errors;
pub mod helpers;
pub mod server;
pub mod types;
