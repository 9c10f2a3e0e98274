//! # ctrl_eqip
//!
//! Edge-device control library: the framed binary protocol spoken with the
//! microcontroller, the presence/timeout logic that decides when equipment
//! runs, and the integer-valued parts of the camera and transport layers.
//!
//! Each function states its behaviour in a `requires`/`ensures` contract;
//! the calls into the standard library and the `crc` crate are the only
//! functions whose contracts are taken on trust.

pub mod engine;
pub mod logic;
pub mod prelude;
pub mod protocol;
pub mod transport;

pub use logic::SceneAnalyzer;
