//! Verified decision logic of a self-evolving coding agent.

pub mod text;
pub mod json;
pub mod clock;
pub mod number;
pub mod tool;
pub mod agents;
pub mod effect;
pub mod paths;
pub mod run;
pub mod run_laws;
pub mod memory;
pub mod trajectory;
pub mod subagent;
pub mod subagent_laws;
pub mod reflect;
pub mod reflect_laws;
pub mod evolve;
pub mod evolve_laws;
pub mod evolution;
pub mod chat;
pub mod chat_laws;
pub mod llm;
pub mod config;
