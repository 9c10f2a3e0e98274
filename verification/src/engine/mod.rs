//! # Engine
//!
//! Camera configuration and frames, the choice of capture source, the
//! horizontal flip of RGB frames, and detector settings.

pub mod camera;
pub mod detector;

pub use camera::{create_camera, CameraConfig, CameraError, CameraFrame, VideoProvider};
pub use detector::OutputFormat;
