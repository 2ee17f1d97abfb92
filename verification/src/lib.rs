//! Verified core of the datacenter analytics agent: input normalization, guardrails, intent and
//! slot classification, session memory, audit sequencing, budget decisions and the sub-agent
//! payload contracts.

pub mod agent;
pub mod appstate;
pub mod config;
pub mod llm_connector;
pub mod model;
pub mod pattern;
pub mod runtime;
pub mod search;
pub mod text;
