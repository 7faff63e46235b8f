//! The Anthropic Messages API: the request, and what is read out of the
//! response.

use crate::config::LlmConfig;
use crate::text::{join, joined, same};
use vstd::prelude::*;
use vstd::string::*;

pub use super::types::{
    BlockView, ContentView, DocumentSource, ImageSource, InputContentBlock, LlmResponse, Message,
    MessageContent, MessageView, ResponseView, SourceView, StopReason, StopView, ToolCall,
    ToolCallView, ToolDefinition, ToolView,
};

verus! {

/// The request body.
#[derive(Debug)]
pub struct MessagesRequest {
    pub model: String,
    pub max_tokens: u32,
    pub system: String,
    pub messages: Vec<Message>,
    pub tools: Option<Vec<ToolDefinition>>,
}

/// The response body.
#[derive(Debug)]
pub struct MessagesResponse {
    pub content: Vec<ResponseContentBlock>,
    pub stop_reason: Option<String>,
    pub usage: Option<Usage>,
}

/// A block of the response.
#[derive(Debug)]
pub enum ResponseContentBlock {
    Text { text: String },
    ToolUse { id: String, name: String, input: serde_json::Value },
}

/// The tokens that a call took.
#[derive(Debug, Clone, Copy)]
pub struct Usage {
    pub input_tokens: u32,
    pub output_tokens: u32,
}

impl DeepView for ResponseContentBlock {
    type V = BlockView;

    open spec fn deep_view(&self) -> BlockView {
        match self {
            ResponseContentBlock::Text { text } => BlockView::Text(text@),
            ResponseContentBlock::ToolUse { id, name, input } => BlockView::ToolUse {
                id: id@,
                name: name@,
                input: *input,
            },
        }
    }
}

/// The texts among the blocks, in order.
pub open spec fn texts_of(blocks: Seq<BlockView>) -> Seq<Seq<char>>
    decreases blocks.len(),
{
    if blocks.len() == 0 {
        Seq::empty()
    } else {
        let rest = texts_of(blocks.drop_last());
        match blocks.last() {
            BlockView::Text(t) => rest.push(t),
            _ => rest,
        }
    }
}

/// The tool calls among the blocks, in order.
pub open spec fn calls_of(blocks: Seq<BlockView>) -> Seq<ToolCallView>
    decreases blocks.len(),
{
    if blocks.len() == 0 {
        Seq::empty()
    } else {
        let rest = calls_of(blocks.drop_last());
        match blocks.last() {
            BlockView::ToolUse { id, name, input } => rest.push(ToolCallView { id, name, input }),
            _ => rest,
        }
    }
}

/// The stop reason by its name in the API.
pub open spec fn stop_named(reason: Option<Seq<char>>) -> StopView {
    match reason {
        Some(r) => if r == "end_turn"@ {
            StopView::EndTurn
        } else if r == "tool_use"@ {
            StopView::ToolUse
        } else if r == "max_tokens"@ {
            StopView::MaxTokens
        } else {
            StopView::Other(r)
        },
        None => StopView::EndTurn,
    }
}

/// What is read out of a response: its texts line by line, its tool calls where
/// it stopped to make them, its blocks as they came, and no tokens where none
/// are counted.
pub open spec fn answer(
    content: Seq<BlockView>,
    stop_reason: Option<Seq<char>>,
    usage: Option<Usage>,
) -> ResponseView {
    ResponseView {
        text: joined(texts_of(content), "\n"@),
        tool_calls: if stop_named(stop_reason) == StopView::ToolUse {
            calls_of(content)
        } else {
            Seq::empty()
        },
        stop_reason: stop_named(stop_reason),
        input_tokens: match usage {
            Some(u) => u.input_tokens,
            None => 0,
        },
        output_tokens: match usage {
            Some(u) => u.output_tokens,
            None => 0,
        },
        content_blocks: content,
    }
}

/// The stop reason by its name in the API.
pub fn stop_reason_named(reason: &Option<String>) -> (r: StopReason)
    ensures
        r.deep_view() == stop_named(reason.deep_view()),
{
    match reason {
        Some(name) => {
            let s = name.as_str();
            if same(s, "end_turn") {
                StopReason::EndTurn
            } else if same(s, "tool_use") {
                StopReason::ToolUse
            } else if same(s, "max_tokens") {
                StopReason::MaxTokens
            } else {
                StopReason::Other(name.clone())
            }
        },
        None => StopReason::EndTurn,
    }
}

/// A client of the Messages API.
#[derive(Debug, Clone)]
pub struct AnthropicClient {
    pub config: LlmConfig,
}

impl AnthropicClient {
    /// A client with this configuration.
    pub fn new(config: LlmConfig) -> (r: Self)
        ensures
            r.config == config,
    {
        AnthropicClient { config }
    }

    /// The request for a conversation: the configured model and token limit,
    /// the system prompt, and the messages and tools as given.
    pub fn request(
        &self,
        system_prompt: &str,
        messages: &Vec<Message>,
        tools: Option<&Vec<ToolDefinition>>,
    ) -> (r: MessagesRequest)
        ensures
            r.model@ == self.config.model@,
            r.max_tokens == self.config.max_tokens_per_request,
            r.system@ == system_prompt@,
            r.messages.deep_view() == messages.deep_view(),
            r.tools.deep_view() == tools.deep_view(),
    {
        let copied = messages.clone();
        assert(copied.deep_view() =~= messages.deep_view());
        let tools_copied = match tools {
            Some(t) => {
                let c = t.clone();
                assert(c.deep_view() =~= t.deep_view());
                Some(c)
            },
            None => None,
        };
        MessagesRequest {
            model: self.config.model.clone(),
            max_tokens: self.config.max_tokens_per_request,
            system: system_prompt.to_owned(),
            messages: copied,
            tools: tools_copied,
        }
    }

    /// What is read out of a response.
    pub fn complete(&self, resp: MessagesResponse) -> (r: LlmResponse)
        ensures
            r.deep_view() == answer(
                resp.content.deep_view(),
                resp.stop_reason.deep_view(),
                resp.usage,
            ),
    {
        let mut text_parts: Vec<String> = Vec::new();
        let mut tool_calls: Vec<ToolCall> = Vec::new();
        let mut content_blocks: Vec<InputContentBlock> = Vec::new();
        let ghost all = resp.content.deep_view();
        let mut i: usize = 0;
        while i < resp.content.len()
            invariant
                all == resp.content.deep_view(),
                0 <= i <= resp.content@.len(),
                text_parts.deep_view() == texts_of(all.take(i as int)),
                tool_calls.deep_view() == calls_of(all.take(i as int)),
                content_blocks.deep_view() == all.take(i as int),
            decreases resp.content@.len() - i,
        {
            let ghost texts = text_parts.deep_view();
            let ghost calls = tool_calls.deep_view();
            let ghost blocks = content_blocks.deep_view();
            assert(all.take(i + 1).drop_last() == all.take(i as int));
            match &resp.content[i] {
                ResponseContentBlock::Text { text } => {
                    text_parts.push(text.clone());
                    assert(text_parts.deep_view() =~= texts.push(text@));
                    content_blocks.push(InputContentBlock::Text { text: text.clone() });
                },
                ResponseContentBlock::ToolUse { id, name, input } => {
                    tool_calls.push(
                        ToolCall { id: id.clone(), name: name.clone(), input: input.clone() },
                    );
                    assert(tool_calls.deep_view() =~= calls.push(
                        ToolCallView { id: id@, name: name@, input: *input },
                    ));
                    content_blocks.push(
                        InputContentBlock::ToolUse {
                            id: id.clone(),
                            name: name.clone(),
                            input: input.clone(),
                        },
                    );
                },
            }
            assert(content_blocks.deep_view() =~= blocks.push(all[i as int]));
            assert(all.take(i + 1) =~= all.take(i as int).push(all[i as int]));
            i = i + 1;
        }
        assert(all.take(all.len() as int) == all);
        let text = join(&text_parts, "\n");
        let stop_reason = stop_reason_named(&resp.stop_reason);
        let stopped_for_tools = match &stop_reason {
            StopReason::ToolUse => true,
            _ => false,
        };
        if !stopped_for_tools {
            tool_calls = Vec::new();
            assert(tool_calls.deep_view() =~= Seq::empty());
        }
        let (input_tokens, output_tokens): (u32, u32) = match resp.usage {
            Some(u) => (u.input_tokens, u.output_tokens),
            None => (0, 0),
        };
        LlmResponse { text, tool_calls, stop_reason, input_tokens, output_tokens, content_blocks }
    }

    /// The provider and the model.
    pub fn description(&self) -> (r: String)
        ensures
            r@ == describe(self.config),
    {
        description_of(&self.config)
    }
}

/// A provider and its model, in words.
pub open spec fn describe(config: LlmConfig) -> Seq<char> {
    config.provider@ + " ("@ + config.model@ + ")"@
}

/// A provider and its model, in words.
pub fn description_of(config: &LlmConfig) -> (r: String)
    ensures
        r@ == describe(*config),
{
    let mut s = config.provider.clone();
    s.append(" (");
    s.append(config.model.as_str());
    s.append(")");
    s
}

/// The message of a refused call, under the name of the product that refused
/// it.
pub fn api_error(product: &str, status: &str, body: &str) -> (r: String)
    ensures
        r@ == product@ + " API error ("@ + status@ + "): "@ + body@,
{
    let mut s = product.to_owned();
    s.append(" API error (");
    s.append(status);
    s.append("): ");
    s.append(body);
    s
}

/// A response that did not stop for tools calls none.
pub proof fn only_a_stop_for_tools_calls_them(
    content: Seq<BlockView>,
    stop_reason: Option<Seq<char>>,
    usage: Option<Usage>,
)
    ensures
        answer(content, stop_reason, usage).stop_reason != StopView::ToolUse ==> answer(
            content,
            stop_reason,
            usage,
        ).tool_calls.len() == 0,
{
}

/// Texts and calls are read off the blocks in order, each once and none left
/// out: those of two runs of blocks are those of the first and then those of
/// the second, a text gives its text, a call gives itself, and no other block
/// gives anything.
pub proof fn blocks_are_read_in_order(a: Seq<BlockView>, b: Seq<BlockView>, block: BlockView)
    ensures
        texts_of(a + b) == texts_of(a) + texts_of(b),
        calls_of(a + b) == calls_of(a) + calls_of(b),
        texts_of(seq![block]) == match block {
            BlockView::Text(t) => seq![t],
            _ => Seq::empty(),
        },
        calls_of(seq![block]) == match block {
            BlockView::ToolUse { id, name, input } => seq![ToolCallView { id, name, input }],
            _ => Seq::empty(),
        },
    decreases b.len(),
{
    let one = seq![block];
    assert(one.drop_last() =~= Seq::empty());
    assert(texts_of(one.drop_last()) =~= Seq::empty());
    assert(calls_of(one.drop_last()) =~= Seq::empty());
    assert(texts_of(one) =~= match block {
        BlockView::Text(t) => seq![t],
        _ => Seq::empty(),
    });
    assert(calls_of(one) =~= match block {
        BlockView::ToolUse { id, name, input } => seq![ToolCallView { id, name, input }],
        _ => Seq::empty(),
    });
    if b.len() > 0 {
        assert((a + b).drop_last() =~= a + b.drop_last());
        blocks_are_read_in_order(a, b.drop_last(), block);
        assert(texts_of(a + b) =~= texts_of(a) + texts_of(b));
        assert(calls_of(a + b) =~= calls_of(a) + calls_of(b));
    } else {
        assert(a + b =~= a);
        assert(texts_of(b).len() == 0 && calls_of(b).len() == 0);
        assert(texts_of(a) + texts_of(b) =~= texts_of(a));
        assert(calls_of(a) + calls_of(b) =~= calls_of(a));
    }
}

/// A response that stopped for tools calls each tool that it names, with the
/// name, the identifier and the input that it gave, and calls them in the order
/// in which it named them.
pub proof fn every_named_tool_is_called(
    head: Seq<BlockView>,
    id: Seq<char>,
    name: Seq<char>,
    input: serde_json::Value,
    tail: Seq<BlockView>,
    usage: Option<Usage>,
)
    ensures
        ({
            let r = answer(
                head + seq![BlockView::ToolUse { id, name, input }] + tail,
                Some("tool_use"@),
                usage,
            );
            let before = answer(head, Some("tool_use"@), usage).tool_calls;
            let after = answer(tail, Some("tool_use"@), usage).tool_calls;
            &&& r.stop_reason == StopView::ToolUse
            &&& r.tool_calls == before.push(ToolCallView { id, name, input }) + after
            &&& r.content_blocks == head + seq![BlockView::ToolUse { id, name, input }] + tail
        }),
{
    reveal_strlit("tool_use");
    reveal_strlit("end_turn");
    assert("end_turn"@[0] == 'e' && "tool_use"@[0] == 't');
    let block = BlockView::ToolUse { id, name, input };
    blocks_are_read_in_order(head, seq![block], block);
    blocks_are_read_in_order(head + seq![block], tail, block);
    assert(calls_of(head).push(ToolCallView { id, name, input }) =~= calls_of(head) + seq![
        ToolCallView { id, name, input },
    ]);
}

/// A response that says one thing is read as that, with the tokens that it
/// counts, and names why it stopped.
pub proof fn what_was_said_is_read(text: Seq<char>, reason: Seq<char>, usage: Usage)
    ensures
        ({
            let r = answer(seq![BlockView::Text(text)], Some(reason), Some(usage));
            &&& r.text == text
            &&& r.tool_calls.len() == 0
            &&& r.input_tokens == usage.input_tokens && r.output_tokens == usage.output_tokens
            &&& reason == "end_turn"@ ==> r.stop_reason == StopView::EndTurn
            &&& reason == "tool_use"@ ==> r.stop_reason == StopView::ToolUse
            &&& reason == "max_tokens"@ ==> r.stop_reason == StopView::MaxTokens
            &&& reason != "end_turn"@ && reason != "tool_use"@ && reason != "max_tokens"@
                ==> r.stop_reason == StopView::Other(reason)
            &&& answer(seq![BlockView::Text(text)], None, None).stop_reason == StopView::EndTurn
            &&& answer(seq![BlockView::Text(text)], None, None).input_tokens == 0
        }),
{
    reveal_strlit("tool_use");
    reveal_strlit("end_turn");
    reveal_strlit("max_tokens");
    blocks_are_read_in_order(Seq::empty(), Seq::empty(), BlockView::Text(text));
    assert("end_turn"@[0] == 'e' && "tool_use"@[0] == 't' && "max_tokens"@[0] == 'm');
}

} // verus!
