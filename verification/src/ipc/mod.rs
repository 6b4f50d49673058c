//! The control plane: JSON requests decoded into typed commands, replies,
//! responses and events, and peer permissions.

pub mod json;
pub mod messages;
pub mod permissions;
