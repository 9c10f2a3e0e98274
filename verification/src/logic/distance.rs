//! # Distance categories
//!
//! | Category | Range     | Fan behaviour           |
//! |----------|-----------|-------------------------|
//! | Close    | < 1.0 m   | Gentle (avoid blow-off) |
//! | Medium   | 1–3 m     | Normal                  |
//! | Far      | 3–5 m     | Strong                  |
//! | TooFar   | > 5 m     | Off                     |

use vstd::prelude::*;

verus! {

/// Classification of an estimated distance.
#[derive(Debug, Clone, Copy, PartialEq, Eq, Structural)]
pub enum DistanceCategory {
    /// Person is very close (< 1 m). Use gentle fan speed to avoid discomfort.
    Close,
    /// Person is at a comfortable distance (1–3 m). Normal fan speed.
    Medium,
    /// Person is far (3–5 m). Use high fan speed.
    Far,
    /// Person is too far to effectively cool (> 5 m). Turn fan off.
    TooFar,
}

/// The display label of each category.
pub open spec fn spec_label(c: DistanceCategory) -> Seq<char> {
    match c {
        DistanceCategory::Close => "Close (<1m)"@,
        DistanceCategory::Medium => "Medium (1-3m)"@,
        DistanceCategory::Far => "Far (3-5m)"@,
        DistanceCategory::TooFar => "Too Far (>5m)"@,
    }
}

impl DistanceCategory {
    /// Returns a human-readable label for display/logging.
    pub fn label(&self) -> (s: &'static str)
        ensures
            s@ == spec_label(*self),
    {
        match self {
            DistanceCategory::Close => "Close (<1m)",
            DistanceCategory::Medium => "Medium (1-3m)",
            DistanceCategory::Far => "Far (3-5m)",
            DistanceCategory::TooFar => "Too Far (>5m)",
        }
    }
}

} // verus!
