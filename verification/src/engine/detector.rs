//! # Detector settings
//!
//! Integer-valued settings of the body detector.

use vstd::prelude::*;

verus! {

/// Bounding box output formats supported by the decoder.
#[derive(Debug, Clone, Copy, PartialEq, Eq, Structural)]
pub enum OutputFormat {
    Auto,
    CxCyWhNormalized,
    CxCyWhPixels,
    XyXyNormalized,
    XyXyPixels,
}

} // verus!
