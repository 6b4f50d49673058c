//! mitos-audio — system audio management: the device/stream state model,
//! routing rules, command handling and the data-plane framing, verified.

pub mod backend;
pub mod client;
pub mod config;
pub mod devices;
pub mod engine;
pub mod errors;
pub mod ipc;
pub mod keyed;
pub mod manager;
pub mod persistence;
pub mod routing;
pub mod streams;
pub mod text;
pub mod volume;
