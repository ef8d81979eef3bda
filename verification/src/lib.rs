//! Near-duplicate image detection: perceptual fingerprints of normalized
//! images, and exhaustive pairwise matching under a Hamming-distance threshold.

pub mod config;
pub mod filter;
pub mod fingerprint;
pub mod matcher;
pub mod normalize;
pub mod pipeline;
pub mod relocate;
pub mod views;
