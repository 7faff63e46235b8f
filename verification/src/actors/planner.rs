//! The lane before the rounds of the language model.

use super::mailbox::{at_least_one, at_least_one_ms, SendOutcome};
use super::tool_executor::{
    caller_gets, caller_keeps, finish_call, lane_reply, reply_view, ToolExecutorReply,
};
use super::user_error::Failure;
use crate::config::ActorToolingConfig;
use crate::llm::types::Message;
use crate::time::{Duration, NANOS_PER_MILLI};
use vstd::prelude::*;

verus! {

/// The settings of the lane.
#[derive(Debug, Clone, Copy)]
pub struct PlannerActor {
    pub enqueue_timeout: Duration,
    pub mailbox_size: usize,
}

impl PlannerActor {
    /// The lane: at least a millisecond to enqueue, at least one place.
    pub fn new(tooling: &ActorToolingConfig) -> (r: Self)
        ensures
            r.enqueue_timeout.nanos == (if tooling.skill_queue_timeout_ms == 0 {
                1
            } else {
                tooling.skill_queue_timeout_ms
            }) * NANOS_PER_MILLI,
            r.mailbox_size == (if tooling.max_parallel_skills == 0 {
                1
            } else {
                tooling.max_parallel_skills
            }),
    {
        PlannerActor {
            enqueue_timeout: at_least_one_ms(tooling.skill_queue_timeout_ms),
            mailbox_size: at_least_one(tooling.max_parallel_skills),
        }
    }

    /// What the caller of the lane gets.
    pub fn plan_reply(
        outcome: SendOutcome,
        reply: Option<Result<ToolExecutorReply, Failure>>,
        messages: &mut Vec<Message>,
    ) -> (r: Result<(String, u32, u32), Failure>)
        ensures
            reply_view(r) == caller_gets("planner"@, outcome, lane_reply(reply)),
            final(messages).deep_view() == caller_keeps(
                outcome,
                lane_reply(reply),
                old(messages).deep_view(),
            ),
    {
        finish_call("planner", outcome, reply, messages)
    }
}

} // verus!
