//! Deterministic input stages: normalization, intent, slots and their ordered pipeline.

pub mod intent;
pub mod normalizer;
pub mod pipeline;
pub mod slots;
