//! Evaluation: response baselines, evaluators, fixtures, reports and the runner's scoring.

pub mod baseline;
pub mod evaluator;
pub mod fixtures;
pub mod report;
pub mod runner;
