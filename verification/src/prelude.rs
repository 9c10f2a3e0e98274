//! Common re-exports for quick use.

pub use crate::engine::{CameraConfig, CameraError, CameraFrame, VideoProvider};
pub use crate::logic::{DistanceCategory, PresenceState, PresenceTracker, SceneAnalyzer};
pub use crate::protocol::codec::{encode, Codec, DecodeResult};
pub use crate::protocol::messages::Message;
pub use crate::transport::Transport;
