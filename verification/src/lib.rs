//! Remote Nix builds over Iroh.

pub mod access;
pub mod agreement;
pub mod cache;
pub mod chunks;
pub mod cli;
pub mod client;
pub mod client_cache;
pub mod client_status;
pub mod collections;
pub mod config;
pub mod endpoint;
pub mod error;
pub mod hex;
pub mod human;
pub mod import_helper;
pub mod keys;
pub mod nix;
pub mod order;
pub mod paths;
pub mod process_lock;
pub mod proto;
pub mod protocol;
pub mod server;
pub mod text;
pub mod ticket;
