//! What the agent keeps: conversations, knowledge and files.

pub mod entries;
pub mod files;
pub mod memory;
pub mod runtime;
