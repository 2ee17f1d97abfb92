//! Domain-neutral agent runtime core: input guardrails, deterministic normalization, intent and
//! slot classification, answer policy, session memory, audit sequencing, evals and the durable
//! store's decisions.

pub mod audit;
pub mod config;
pub mod error;
pub mod eval;
pub mod guardrails;
pub mod input;
pub mod llm_normalizer;
pub mod memory;
pub mod orchestrator;
pub mod registry;
pub mod schema;
pub mod store;
