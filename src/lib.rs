//! Data preparation and evaluation for a binary wine-quality classifier:
//! labelling of quality scores, removal of incomplete rows, the split into
//! training and validation rows, and the confusion matrix with its metrics.

pub mod column;
pub mod label;
pub mod metrics;
pub mod clean;
pub mod split;
