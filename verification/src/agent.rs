//! The sub-agent layer: the authored configuration model, the payload contract that flows between
//! stages, the closed tool vocabulary, the event stream, and the report protocol.

pub mod blueprint;
pub mod chart;
pub mod clock;
pub mod config;
pub mod engine;
pub mod events;
pub mod llm;
pub mod payload;
pub mod pipeline;
pub mod report;
pub mod run;
pub mod stage;
pub mod tool_loop;
pub mod tools;
pub mod wiring;
