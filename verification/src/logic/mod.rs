//! # Logic
//!
//! Business logic on detections:
//! - [`presence`]: human presence and the disappearance timeout.
//! - [`distance`]: distance categories.
//! - [`fusion`]: selection of the person detections in a frame.

pub mod distance;
pub mod fusion;
pub mod presence;

pub use distance::DistanceCategory;
pub use fusion::SceneAnalyzer;
pub use presence::{PresenceState, PresenceTracker};
