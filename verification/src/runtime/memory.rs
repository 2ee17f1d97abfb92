//! Session memory: the per-session store and the prompt context built from it.

pub mod context;
pub mod store;
