//! Language models: what is sent to them and what comes back.

pub mod anthropic;
pub mod ollama;
pub mod types;
