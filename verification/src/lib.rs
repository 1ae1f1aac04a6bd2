//! Near-duplicate image detection: folder filtering, 64-bit perceptual
//! fingerprints compared by hamming distance, greedy similarity grouping,
//! and the progress/cancellation protocol around a long-running analysis.

pub mod fingerprint;
pub mod grouping;
pub mod imaging;
pub mod naming;
pub mod paths;
pub mod progress;
pub mod records;
pub mod trash;
pub mod types;
