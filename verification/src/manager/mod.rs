//! The daemon's state: the device and stream registry, command handling,
//! the reconciliation of hardware scans, and the laws that hold across them.

pub mod laws;
pub mod reconcile;
pub mod state;

pub use state::AudioState;
