//! How messages and lists of paths travel.

pub mod path_chunks;
pub mod wire;
