//! The client side of the daemon's protocols: typed mirrors of the wire
//! model, event decoding, response handling and the playback framing.

pub mod error;
pub mod events;
pub mod monitor;
pub mod types;
pub mod wire;

pub use error::ClientError;
pub use events::ClientEvent;
pub use types::{
    ClientConfig, DeviceInfo, DeviceList, MicrophoneStatus, MicrophoneSummary, ProfileList, StreamInfo,
    SystemState, VolumeChangeResult, VolumeInfo,
};
