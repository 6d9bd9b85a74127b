//! Gain recommendation core: the decision logic of a perceptual audio
//! analysis engine, with its contracts proved by Verus.
//!
//! Real-valued quantities are carried as fixed-point integers (see
//! [`level`]); decoding and signal measurement happen outside this crate.

pub mod level;
pub mod text;
pub mod error;
pub mod gain_map;
pub mod segmentation;
pub mod classification;
pub mod decision;
pub mod api;
pub mod album;
pub mod ffi;
pub mod ingestion;
pub mod scaffold;
