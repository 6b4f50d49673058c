//! The audio plane: stream formats, the data-plane protocol and the
//! decisions of a data-plane connection, live-stream buffers, output levels
//! and the lifecycle of output sinks.
//!
//! Canonical internal format: **48 kHz, stereo, f32 interleaved**.

pub mod convert;
pub mod dataplane;
pub mod levels;
pub mod live;
pub mod protocol;
pub mod sink;

pub use levels::OutputLevels;
