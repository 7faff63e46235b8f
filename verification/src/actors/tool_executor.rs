//! The rounds of a language model with tools: it is asked, runs the tools that
//! it calls, sees their results and is asked again.

use super::mailbox::{at_least_one, at_least_one_ms, lane_result, send_failure, SendOutcome};
use super::user_error::Failure;
use crate::config::ActorToolingConfig;
use crate::llm::types::{
    BlockView, ContentView, InputContentBlock, LlmResponse, Message, MessageContent, MessageView,
    ResponseView, StopReason, StopView, ToolCall, ToolCallView,
};
use crate::time::{Duration, NANOS_PER_MILLI};
use vstd::prelude::*;

verus! {

/// The answer that the rounds come to.
#[derive(Debug)]
pub struct ToolExecutorReply {
    pub text: String,
    pub messages: Vec<Message>,
    pub input_tokens: u32,
    pub output_tokens: u32,
}

/// The model of [`ToolExecutorReply`].
pub ghost struct ReplyView {
    pub text: Seq<char>,
    pub messages: Seq<MessageView>,
    pub input_tokens: u32,
    pub output_tokens: u32,
}

impl DeepView for ToolExecutorReply {
    type V = ReplyView;

    open spec fn deep_view(&self) -> ReplyView {
        ReplyView {
            text: self.text@,
            messages: self.messages.deep_view(),
            input_tokens: self.input_tokens,
            output_tokens: self.output_tokens,
        }
    }
}

/// A turn between two calls of the model.
#[derive(Debug)]
pub struct ToolTurn {
    pub messages: Vec<Message>,
    pub round: usize,
    pub max_rounds: usize,
    pub input_tokens: u32,
    pub output_tokens: u32,
}

/// The model of [`ToolTurn`].
pub ghost struct TurnView {
    pub messages: Seq<MessageView>,
    pub round: int,
    pub max_rounds: int,
    pub input_tokens: u32,
    pub output_tokens: u32,
}

impl DeepView for ToolTurn {
    type V = TurnView;

    open spec fn deep_view(&self) -> TurnView {
        TurnView {
            messages: self.messages.deep_view(),
            round: self.round as int,
            max_rounds: self.max_rounds as int,
            input_tokens: self.input_tokens,
            output_tokens: self.output_tokens,
        }
    }
}

impl TurnView {
    /// Whether the rounds are within their number.
    pub open spec fn wf(self) -> bool {
        0 <= self.round <= self.max_rounds && self.max_rounds >= 1
    }
}

/// What follows a call of the model.
#[derive(Debug)]
pub enum ToolStep {
    /// The rounds are over.
    Done(ToolExecutorReply),
    /// These tools are run.
    RunTools { turn: ToolTurn, calls: Vec<ToolCall> },
}

/// The model of [`ToolStep`].
pub ghost enum ToolStepView {
    Done(ReplyView),
    RunTools(TurnView, Seq<ToolCallView>),
}

impl DeepView for ToolStep {
    type V = ToolStepView;

    open spec fn deep_view(&self) -> ToolStepView {
        match self {
            ToolStep::Done(r) => ToolStepView::Done(r.deep_view()),
            ToolStep::RunTools { turn, calls } => ToolStepView::RunTools(
                turn.deep_view(),
                calls.deep_view(),
            ),
        }
    }
}

/// A sum that stays within `u32`.
pub open spec fn capped_sum(a: u32, b: u32) -> u32 {
    if a + b <= u32::MAX {
        (a + b) as u32
    } else {
        u32::MAX
    }
}

/// What follows a call of the model. In the last call no tools are offered and
/// its answer stands. Before that, an answer stands unless it calls tools; one
/// that does joins the conversation, and the tools are run.
pub open spec fn after_response(turn: TurnView, response: ResponseView) -> ToolStepView {
    let input_tokens = capped_sum(turn.input_tokens, response.input_tokens);
    let output_tokens = capped_sum(turn.output_tokens, response.output_tokens);
    if turn.round >= turn.max_rounds || response.stop_reason != StopView::ToolUse
        || response.tool_calls.len() == 0 {
        ToolStepView::Done(
            ReplyView {
                text: response.text,
                messages: turn.messages,
                input_tokens,
                output_tokens,
            },
        )
    } else {
        ToolStepView::RunTools(
            TurnView {
                messages: turn.messages.push(
                    MessageView {
                        role: "assistant"@,
                        content: ContentView::Blocks(response.content_blocks),
                    },
                ),
                input_tokens,
                output_tokens,
                ..turn
            },
            response.tool_calls,
        )
    }
}

/// The results of the tools, each under the identifier of its call.
pub open spec fn result_blocks(calls: Seq<ToolCallView>, results: Seq<Seq<char>>) -> Seq<BlockView> {
    Seq::new(
        calls.len(),
        |i: int| BlockView::ToolResult { tool_use_id: calls[i].id, content: results[i] },
    )
}

/// The turn after the tools have run: their results are in the conversation.
pub open spec fn after_results(
    turn: TurnView,
    calls: Seq<ToolCallView>,
    results: Seq<Seq<char>>,
) -> TurnView {
    TurnView {
        messages: turn.messages.push(
            MessageView {
                role: "user"@,
                content: ContentView::Blocks(result_blocks(calls, results)),
            },
        ),
        round: turn.round + 1,
        ..turn
    }
}

fn add_capped(a: u32, b: u32) -> (r: u32)
    ensures
        r == capped_sum(a, b),
{
    match a.checked_add(b) {
        Some(s) => s,
        None => u32::MAX,
    }
}

impl ToolTurn {
    /// The turn before the first call: at least one round.
    pub fn begin(config: &ActorToolingConfig, messages: Vec<Message>) -> (r: Self)
        ensures
            r.deep_view().wf(),
            r.deep_view() == (TurnView {
                messages: messages.deep_view(),
                round: 0,
                max_rounds: if config.max_tool_rounds == 0 {
                    1
                } else {
                    config.max_tool_rounds as int
                },
                input_tokens: 0,
                output_tokens: 0,
            }),
    {
        ToolTurn {
            messages,
            round: 0,
            max_rounds: at_least_one(config.max_tool_rounds),
            input_tokens: 0,
            output_tokens: 0,
        }
    }

    /// Whether tools are offered in the next call: where there are skills, in
    /// each call but the last.
    pub fn offers_tools(&self, has_skills: bool) -> (r: bool)
        ensures
            r == (has_skills && self.deep_view().round < self.deep_view().max_rounds),
    {
        has_skills && self.round < self.max_rounds
    }

    /// What follows a call of the model.
    pub fn on_response(self, response: LlmResponse) -> (r: ToolStep)
        ensures
            r.deep_view() == after_response(self.deep_view(), response.deep_view()),
    {
        let ghost before = self.deep_view();
        let ghost given = response.deep_view();
        let input_tokens: u32 = add_capped(self.input_tokens, response.input_tokens);
        let output_tokens: u32 = add_capped(self.output_tokens, response.output_tokens);
        let calls_tools = match response.stop_reason {
            StopReason::ToolUse => true,
            _ => false,
        };
        assert(given.tool_calls.len() == response.tool_calls@.len());
        if self.round >= self.max_rounds || !calls_tools || response.tool_calls.len() == 0 {
            return ToolStep::Done(
                ToolExecutorReply {
                    text: response.text,
                    messages: self.messages,
                    input_tokens,
                    output_tokens,
                },
            );
        }
        let mut messages = self.messages;
        messages.push(
            Message {
                role: "assistant".to_owned(),
                content: MessageContent::Blocks(response.content_blocks),
            },
        );
        assert(messages.deep_view() =~= before.messages.push(
            MessageView {
                role: "assistant"@,
                content: ContentView::Blocks(given.content_blocks),
            },
        ));
        ToolStep::RunTools {
            turn: ToolTurn {
                messages,
                round: self.round,
                max_rounds: self.max_rounds,
                input_tokens,
                output_tokens,
            },
            calls: response.tool_calls,
        }
    }

    /// The turn after the tools have run, one result for each call.
    pub fn on_results(self, calls: &Vec<ToolCall>, results: Vec<String>) -> (r: ToolTurn)
        requires
            self.round < self.max_rounds,
            calls@.len() == results@.len(),
        ensures
            r.deep_view() == after_results(
                self.deep_view(),
                calls.deep_view(),
                results.deep_view(),
            ),
    {
        let ghost before = self.deep_view();
        let ghost wanted = result_blocks(calls.deep_view(), results.deep_view());
        let mut blocks: Vec<InputContentBlock> = Vec::new();
        let mut i: usize = 0;
        while i < calls.len()
            invariant
                calls@.len() == results@.len(),
                wanted == result_blocks(calls.deep_view(), results.deep_view()),
                0 <= i <= calls@.len(),
                blocks.deep_view() == wanted.take(i as int),
            decreases calls@.len() - i,
        {
            let ghost so_far = blocks.deep_view();
            blocks.push(
                InputContentBlock::ToolResult {
                    tool_use_id: calls[i].id.clone(),
                    content: results[i].clone(),
                },
            );
            assert(blocks.deep_view() =~= so_far.push(wanted[i as int]));
            assert(blocks.deep_view() =~= wanted.take(i + 1));
            i = i + 1;
        }
        assert(wanted.take(wanted.len() as int) =~= wanted);
        let mut messages = self.messages;
        messages.push(
            Message { role: "user".to_owned(), content: MessageContent::Blocks(blocks) },
        );
        assert(messages.deep_view() =~= before.messages.push(
            MessageView { role: "user"@, content: ContentView::Blocks(wanted) },
        ));
        ToolTurn {
            messages,
            round: self.round + 1,
            max_rounds: self.max_rounds,
            input_tokens: self.input_tokens,
            output_tokens: self.output_tokens,
        }
    }
}

/// The settings of the lane that runs the rounds.
#[derive(Debug, Clone, Copy)]
pub struct ToolExecutorActor {
    pub enqueue_timeout: Duration,
    pub mailbox_size: usize,
}

impl ToolExecutorActor {
    /// The lane: at least a millisecond to enqueue, at least one place.
    pub fn new(config: &ActorToolingConfig) -> (r: Self)
        ensures
            r.enqueue_timeout.nanos == (if config.skill_queue_timeout_ms == 0 {
                1
            } else {
                config.skill_queue_timeout_ms
            }) * NANOS_PER_MILLI,
            r.mailbox_size == (if config.max_parallel_skills == 0 {
                1
            } else {
                config.max_parallel_skills
            }),
    {
        ToolExecutorActor {
            enqueue_timeout: at_least_one_ms(config.skill_queue_timeout_ms),
            mailbox_size: at_least_one(config.max_parallel_skills),
        }
    }

    /// What the caller of the lane gets.
    pub fn execute(
        outcome: SendOutcome,
        reply: Option<Result<ToolExecutorReply, Failure>>,
        messages: &mut Vec<Message>,
    ) -> (r: Result<(String, u32, u32), Failure>)
        ensures
            reply_view(r) == caller_gets("tool_executor"@, outcome, lane_reply(reply)),
            final(messages).deep_view() == caller_keeps(
                outcome,
                lane_reply(reply),
                old(messages).deep_view(),
            ),
    {
        finish_call("tool_executor", outcome, reply, messages)
    }
}

/// The reply of a lane: none where the lane ended without one.
pub open spec fn lane_reply(reply: Option<Result<ToolExecutorReply, Failure>>) -> Option<
    Result<ReplyView, Seq<Seq<char>>>,
> {
    match reply {
        None => None,
        Some(Ok(a)) => Some(Ok(a.deep_view())),
        Some(Err(e)) => Some(Err(e.deep_view())),
    }
}

/// What the caller of a lane gets: the text and the tokens that it took.
pub open spec fn reply_view(r: Result<(String, u32, u32), Failure>) -> Result<
    (Seq<char>, u32, u32),
    Seq<Seq<char>>,
> {
    match r {
        Ok(a) => Ok((a.0@, a.1, a.2)),
        Err(e) => Err(e.deep_view()),
    }
}

/// What the caller of a lane gets. A request that did not get into the lane
/// fails with the lane's code, and a lane that ended without a reply counts as
/// closed; a failure of the lane's own work is handed on.
pub open spec fn caller_gets(
    name: Seq<char>,
    outcome: SendOutcome,
    reply: Option<Result<ReplyView, Seq<Seq<char>>>>,
) -> Result<(Seq<char>, u32, u32), Seq<Seq<char>>> {
    match send_failure(name, outcome) {
        Some(code) => Err(seq![code]),
        None => match reply {
            None => Err(seq![name + "_unavailable"@]),
            Some(Err(e)) => Err(e),
            Some(Ok(a)) => Ok((a.text, a.input_tokens, a.output_tokens)),
        },
    }
}

/// The caller's conversation afterwards: that of the reply where there is one.
pub open spec fn caller_keeps(
    outcome: SendOutcome,
    reply: Option<Result<ReplyView, Seq<Seq<char>>>>,
    messages: Seq<MessageView>,
) -> Seq<MessageView> {
    match reply {
        Some(Ok(a)) => if outcome == SendOutcome::Sent {
            a.messages
        } else {
            messages
        },
        _ => messages,
    }
}

/// What the caller of the lane with this name gets.
pub fn finish_call(
    name: &str,
    outcome: SendOutcome,
    reply: Option<Result<ToolExecutorReply, Failure>>,
    messages: &mut Vec<Message>,
) -> (r: Result<(String, u32, u32), Failure>)
    ensures
        reply_view(r) == caller_gets(name@, outcome, lane_reply(reply)),
        final(messages).deep_view() == caller_keeps(
            outcome,
            lane_reply(reply),
            old(messages).deep_view(),
        ),
{
    match lane_result(name, outcome, reply) {
        Err(e) => Err(e),
        Ok(a) => {
            *messages = a.messages;
            Ok((a.text, a.input_tokens, a.output_tokens))
        },
    }
}

// ---- laws --------------------------------------------------------------

/// The rounds come to an end: each round of tools brings the turn one round
/// nearer to its last call, and the last call's answer stands.
pub proof fn rounds_come_to_an_end(
    turn: TurnView,
    response: ResponseView,
    results: Seq<Seq<char>>,
)
    requires
        turn.wf(),
    ensures
        match after_response(turn, response) {
            ToolStepView::Done(_) => true,
            ToolStepView::RunTools(next, calls) => {
                let after = after_results(next, calls, results);
                &&& turn.round < turn.max_rounds
                &&& after.wf()
                &&& after.max_rounds - after.round == turn.max_rounds - turn.round - 1
            },
        },
        turn.round == turn.max_rounds ==> after_response(turn, response) is Done,
{
}

/// The conversation only grows: a round puts the model's calls and then their
/// results behind what was there.
pub proof fn rounds_keep_the_conversation(
    turn: TurnView,
    response: ResponseView,
    results: Seq<Seq<char>>,
)
    ensures
        match after_response(turn, response) {
            ToolStepView::Done(reply) => reply.messages == turn.messages,
            ToolStepView::RunTools(next, calls) => {
                let after = after_results(next, calls, results).messages;
                &&& after.len() == turn.messages.len() + 2
                &&& after.take(turn.messages.len() as int) == turn.messages
            },
        },
{
    match after_response(turn, response) {
        ToolStepView::Done(_) => {},
        ToolStepView::RunTools(next, calls) => {
            let after = after_results(next, calls, results).messages;
            assert(after.take(turn.messages.len() as int) =~= turn.messages);
        },
    }
}

/// Every call of a tool is answered by one result, in order and under the
/// identifier of the call.
pub proof fn every_call_gets_its_result(
    calls: Seq<ToolCallView>,
    results: Seq<Seq<char>>,
    i: int,
)
    requires
        0 <= i < calls.len(),
    ensures
        result_blocks(calls, results).len() == calls.len(),
        result_blocks(calls, results)[i] == (BlockView::ToolResult {
            tool_use_id: calls[i].id,
            content: results[i],
        }),
{
}

/// Where the model stops to call tools before its last call, every call that
/// it makes is handed out to be run, in its order, and nothing else is; what
/// it said joins the conversation as it said it. The results of these calls
/// then join it in one message, one for each of them.
pub proof fn every_call_is_run(turn: TurnView, response: ResponseView, results: Seq<Seq<char>>)
    requires
        turn.round < turn.max_rounds,
        response.stop_reason == StopView::ToolUse,
        response.tool_calls.len() > 0,
        results.len() == response.tool_calls.len(),
    ensures
        match after_response(turn, response) {
            ToolStepView::Done(_) => false,
            ToolStepView::RunTools(next, calls) => {
                let said = turn.messages.len() as int;
                let after = after_results(next, calls, results);
                &&& calls == response.tool_calls
                &&& next.round == turn.round && next.max_rounds == turn.max_rounds
                &&& after.round == turn.round + 1 && after.max_rounds == turn.max_rounds
                &&& after.messages.len() == said + 2
                &&& forall|k: int| 0 <= k < said ==> after.messages[k] == turn.messages[k]
                &&& after.messages[said].role == "assistant"@
                &&& after.messages[said].content == ContentView::Blocks(response.content_blocks)
                &&& after.messages[said + 1].role == "user"@
                &&& match after.messages[said + 1].content {
                    ContentView::Text(_) => false,
                    ContentView::Blocks(blocks) => {
                        &&& blocks.len() == response.tool_calls.len()
                        &&& forall|k: int|
                            0 <= k < blocks.len() ==> (#[trigger] blocks[k] matches BlockView::ToolResult {
                                tool_use_id,
                                content,
                            } && tool_use_id == response.tool_calls[k].id && content == results[k])
                    },
                }
            },
        },
{
}

/// An answer that calls no tools, or comes in the last call, is the end: its
/// text is what the rounds come to, and the conversation stays as it was.
pub proof fn a_plain_answer_is_the_end(turn: TurnView, response: ResponseView)
    requires
        turn.round >= turn.max_rounds || response.stop_reason != StopView::ToolUse
            || response.tool_calls.len() == 0,
    ensures
        after_response(turn, response) matches ToolStepView::Done(reply) && reply.text
            == response.text && reply.messages == turn.messages,
{
}

/// No token is lost or counted twice, as far as `u32` holds the sum: what a
/// call took is added to what the calls before it took, whether the rounds go
/// on or not, and running the tools takes none.
pub proof fn tokens_add_up(turn: TurnView, response: ResponseView, results: Seq<Seq<char>>)
    requires
        turn.input_tokens + response.input_tokens <= u32::MAX,
        turn.output_tokens + response.output_tokens <= u32::MAX,
    ensures
        match after_response(turn, response) {
            ToolStepView::Done(reply) => {
                &&& reply.input_tokens == turn.input_tokens + response.input_tokens
                &&& reply.output_tokens == turn.output_tokens + response.output_tokens
            },
            ToolStepView::RunTools(next, calls) => {
                let after = after_results(next, calls, results);
                &&& after.input_tokens == turn.input_tokens + response.input_tokens
                &&& after.output_tokens == turn.output_tokens + response.output_tokens
            },
        },
{
}

/// A lane that took the request and answered hands on its text, its tokens and
/// its conversation; whatever went wrong leaves the caller's conversation as it
/// was and is told as a failure.
pub proof fn replies_are_handed_on(
    name: Seq<char>,
    outcome: SendOutcome,
    reply: Option<Result<ReplyView, Seq<Seq<char>>>>,
    messages: Seq<MessageView>,
)
    ensures
        match reply {
            Some(Ok(a)) if outcome == SendOutcome::Sent => {
                &&& caller_gets(name, outcome, reply) == Ok::<(Seq<char>, u32, u32), Seq<Seq<char>>>(
                    (a.text, a.input_tokens, a.output_tokens),
                )
                &&& caller_keeps(outcome, reply, messages) == a.messages
            },
            _ => {
                &&& caller_gets(name, outcome, reply) is Err
                &&& caller_keeps(outcome, reply, messages) == messages
            },
        },
        outcome == SendOutcome::Sent ==> (reply matches Some(Err(e)) ==> caller_gets(
            name,
            outcome,
            reply,
        ) == Err::<(Seq<char>, u32, u32), Seq<Seq<char>>>(e)),
{
}

/// A lane that is closed, or that went away before it replied, is unavailable to
/// the caller, and one that took too long is busy, each under its name.
pub proof fn lanes_that_fail_are_named(
    name: Seq<char>,
    reply: Option<Result<ReplyView, Seq<Seq<char>>>>,
)
    ensures
        ({
            let failed = |code: Seq<char>|
                Err::<(Seq<char>, u32, u32), Seq<Seq<char>>>(seq![name + code]);
            &&& caller_gets(name, SendOutcome::Closed, reply) == failed("_unavailable"@)
            &&& caller_gets(name, SendOutcome::TimedOut, reply) == failed("_busy"@)
            &&& caller_gets(name, SendOutcome::Sent, None) == failed("_unavailable"@)
        }),
{
}

} // verus!
