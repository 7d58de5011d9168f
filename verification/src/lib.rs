//! Ordered-dithering pixel-classification engine.
//!
//! The library quantizes a continuous-tone grayscale image against an ordered
//! palette using a periodic threshold matrix.  All continuous quantities
//! (pixel values, thresholds, per-entry scales and offsets) are carried as
//! fixed-point integers with [`utils::num::UNIT`] standing for the rational
//! value one, which keeps every comparison exact and lets each classification
//! strategy be proved equal to the canonical scalar scan.

pub mod config;
pub mod dithering;
pub mod error;
pub mod texture;
pub mod transform;
pub mod utils;
