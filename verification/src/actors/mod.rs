//! The decisions of the actors: what each does with an event, given as
//! functions from state and event to next state and effects.

pub mod attachment;
pub mod command;
pub mod control;
pub mod dead_letter;
pub mod inference;
pub mod mailbox;
pub mod memory_actor;
pub mod mention;
pub mod message;
pub mod observability;
pub mod planner;
pub mod presence;
pub mod reaction;
pub mod router;
pub mod session;
pub mod session_responder;
pub mod skill_router;
pub mod supervisor;
pub mod tool_executor;
pub mod types;
pub mod user_error;
pub mod xmpp_egress;
pub mod xmpp_ingress;
