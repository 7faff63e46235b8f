//! Decision logic of an XMPP agent: routing, sessions, memory, commands and
//! language-model turns as functions on plain values, each with its contract.

pub mod actors;
pub mod agent;
pub mod backoff;
pub mod clock;
pub mod config;
pub mod ids;
pub mod json;
pub mod llm;
pub mod reconnect;
pub mod text;
pub mod text_map;
pub mod time;
pub mod xmpp;
