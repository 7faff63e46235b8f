//! The Ollama chat API: how the shared messages are written for it and what is
//! read out of its response.
//!
//! The system prompt is a message of its own, tool results are messages of the
//! role `tool`, and images and documents are left out with a note.

use super::anthropic::{blocks_are_read_in_order, describe, description_of, texts_of};
use super::types::{
    BlockView, ContentView, InputContentBlock, LlmResponse, Message, MessageContent, MessageView,
    ResponseView, StopReason, StopView, ToolCall, ToolCallView, ToolDefinition, ToolView,
};
use crate::config::LlmConfig;
use crate::text::{
    decimal, drop_run, has_suffix, has_text, join, joined, joining_keeps_the_order, lemma_decimal_value,
    number, occurs_at, same, trim_trailing,
};
use vstd::prelude::*;
use vstd::string::*;

verus! {

/// The request body.
#[derive(Debug)]
pub struct OllamaChatRequest {
    pub model: String,
    pub messages: Vec<OllamaMessage>,
    pub stream: bool,
    pub tools: Option<Vec<OllamaToolDef>>,
    pub options: OllamaOptions,
}

/// A message as the API has it.
#[derive(Debug)]
pub struct OllamaMessage {
    pub role: String,
    pub content: String,
    pub tool_calls: Option<Vec<OllamaToolCall>>,
}

/// A tool as the API has it.
#[derive(Debug)]
pub struct OllamaToolDef {
    pub tool_type: String,
    pub function: OllamaFunctionDef,
}

/// The function of a tool.
#[derive(Debug)]
pub struct OllamaFunctionDef {
    pub name: String,
    pub description: String,
    pub parameters: serde_json::Value,
}

/// A tool call as the API has it.
#[derive(Debug)]
pub struct OllamaToolCall {
    pub function: OllamaFunctionCall,
}

/// The function that a tool call names.
#[derive(Debug)]
pub struct OllamaFunctionCall {
    pub name: String,
    pub arguments: serde_json::Value,
}

/// The options of a request.
#[derive(Debug, Clone, Copy, PartialEq, Eq, Structural)]
pub struct OllamaOptions {
    pub num_predict: u32,
}

/// The response body.
#[derive(Debug)]
pub struct OllamaChatResponse {
    pub message: OllamaResponseMessage,
    pub done_reason: Option<String>,
    pub prompt_eval_count: Option<u32>,
    pub eval_count: Option<u32>,
}

/// The message in a response.
#[derive(Debug)]
pub struct OllamaResponseMessage {
    pub content: String,
    pub tool_calls: Option<Vec<OllamaToolCall>>,
}

/// The model of [`OllamaToolCall`].
pub ghost struct OllamaCallView {
    pub name: Seq<char>,
    pub arguments: serde_json::Value,
}

/// The model of [`OllamaMessage`].
pub ghost struct OllamaMessageView {
    pub role: Seq<char>,
    pub content: Seq<char>,
    pub tool_calls: Option<Seq<OllamaCallView>>,
}

/// The model of [`OllamaToolDef`].
pub ghost struct OllamaToolView {
    pub tool_type: Seq<char>,
    pub name: Seq<char>,
    pub description: Seq<char>,
    pub parameters: serde_json::Value,
}

impl DeepView for OllamaToolCall {
    type V = OllamaCallView;

    open spec fn deep_view(&self) -> OllamaCallView {
        OllamaCallView { name: self.function.name@, arguments: self.function.arguments }
    }
}

impl DeepView for OllamaMessage {
    type V = OllamaMessageView;

    open spec fn deep_view(&self) -> OllamaMessageView {
        OllamaMessageView {
            role: self.role@,
            content: self.content@,
            tool_calls: self.tool_calls.deep_view(),
        }
    }
}

impl DeepView for OllamaToolDef {
    type V = OllamaToolView;

    open spec fn deep_view(&self) -> OllamaToolView {
        OllamaToolView {
            tool_type: self.tool_type@,
            name: self.function.name@,
            description: self.function.description@,
            parameters: self.function.parameters,
        }
    }
}

/// The note that stands for images and documents.
pub open spec fn omitted_note() -> Seq<char> {
    "[Unsupported: image/document content omitted]"@
}

/// The tool calls among the blocks, in order.
pub open spec fn block_calls(blocks: Seq<BlockView>) -> Seq<OllamaCallView>
    decreases blocks.len(),
{
    if blocks.len() == 0 {
        Seq::empty()
    } else {
        let rest = block_calls(blocks.drop_last());
        match blocks.last() {
            BlockView::ToolUse { id, name, input } => rest.push(
                OllamaCallView { name, arguments: input },
            ),
            _ => rest,
        }
    }
}

/// The tool results among the blocks, in order.
pub open spec fn block_results(blocks: Seq<BlockView>) -> Seq<Seq<char>>
    decreases blocks.len(),
{
    if blocks.len() == 0 {
        Seq::empty()
    } else {
        let rest = block_results(blocks.drop_last());
        match blocks.last() {
            BlockView::ToolResult { tool_use_id, content } => rest.push(content),
            _ => rest,
        }
    }
}

/// Whether there is an image or a document among the blocks.
pub open spec fn has_media(blocks: Seq<BlockView>) -> bool {
    exists|i: int|
        0 <= i < blocks.len() && (#[trigger] blocks[i] is Image || blocks[i] is Document)
}

/// The text of a message made of blocks: its texts line by line, and the note
/// where something had to be left out.
pub open spec fn block_body(blocks: Seq<BlockView>) -> Seq<char> {
    let texts = texts_of(blocks);
    joined(
        if has_media(blocks) {
            texts.push(omitted_note())
        } else {
            texts
        },
        "\n"@,
    )
}

/// A message of the role `tool`.
pub open spec fn tool_message(content: Seq<char>) -> OllamaMessageView {
    OllamaMessageView { role: "tool"@, content, tool_calls: None }
}

/// What becomes of a shared message: text stays a message; blocks with tool
/// calls become one assistant message that makes them; else blocks with tool
/// results become one `tool` message for each, and one of their text behind
/// them where an image or a document is among them; else the blocks become
/// one message of their text.
pub open spec fn translated(msg: MessageView) -> Seq<OllamaMessageView> {
    match msg.content {
        ContentView::Text(text) => seq![
            OllamaMessageView { role: msg.role, content: text, tool_calls: None },
        ],
        ContentView::Blocks(blocks) => {
            let calls = block_calls(blocks);
            let results = block_results(blocks);
            let in_words = OllamaMessageView {
                role: msg.role,
                content: block_body(blocks),
                tool_calls: None,
            };
            if calls.len() > 0 {
                seq![
                    OllamaMessageView {
                        role: "assistant"@,
                        content: block_body(blocks),
                        tool_calls: Some(calls),
                    },
                ]
            } else if results.len() > 0 {
                let answers = results.map_values(|r: Seq<char>| tool_message(r));
                if has_media(blocks) {
                    answers.push(in_words)
                } else {
                    answers
                }
            } else {
                seq![in_words]
            }
        },
    }
}

/// The messages of a conversation, one translation behind the other.
pub open spec fn all_translated(messages: Seq<MessageView>) -> Seq<OllamaMessageView>
    decreases messages.len(),
{
    if messages.len() == 0 {
        Seq::empty()
    } else {
        all_translated(messages.drop_last()) + translated(messages.last())
    }
}

/// Translates a shared message and adds the outcome to `out`.
pub fn translate_message(msg: &Message, out: &mut Vec<OllamaMessage>)
    ensures
        final(out).deep_view() == old(out).deep_view() + translated(msg.deep_view()),
{
    let ghost before = out.deep_view();
    match &msg.content {
        MessageContent::Text(text) => {
            out.push(
                OllamaMessage { role: msg.role.clone(), content: text.clone(), tool_calls: None },
            );
            assert(out.deep_view() =~= before + translated(msg.deep_view()));
        },
        MessageContent::Blocks(blocks) => {
            let ghost all = blocks.deep_view();
            let mut text_parts: Vec<String> = Vec::new();
            let mut calls: Vec<OllamaToolCall> = Vec::new();
            let mut results: Vec<String> = Vec::new();
            let mut media = false;
            let mut i: usize = 0;
            while i < blocks.len()
                invariant
                    all == blocks.deep_view(),
                    0 <= i <= blocks@.len(),
                    text_parts.deep_view() == texts_of(all.take(i as int)),
                    calls.deep_view() == block_calls(all.take(i as int)),
                    results.deep_view() == block_results(all.take(i as int)),
                    media == exists|j: int|
                        0 <= j < i && (#[trigger] all[j] is Image || all[j] is Document),
                decreases blocks@.len() - i,
            {
                let ghost texts = text_parts.deep_view();
                let ghost made = calls.deep_view();
                let ghost given = results.deep_view();
                assert(all.take(i + 1).drop_last() == all.take(i as int));
                assert(all[i as int] == blocks@[i as int].deep_view());
                match &blocks[i] {
                    InputContentBlock::Text { text } => {
                        text_parts.push(text.clone());
                        assert(text_parts.deep_view() =~= texts.push(text@));
                    },
                    InputContentBlock::ToolUse { id: _, name, input } => {
                        calls.push(
                            OllamaToolCall {
                                function: OllamaFunctionCall {
                                    name: name.clone(),
                                    arguments: input.clone(),
                                },
                            },
                        );
                        assert(calls.deep_view() =~= made.push(
                            OllamaCallView { name: name@, arguments: *input },
                        ));
                    },
                    InputContentBlock::ToolResult { tool_use_id: _, content } => {
                        results.push(content.clone());
                        assert(results.deep_view() =~= given.push(content@));
                    },
                    InputContentBlock::Image { .. } => {
                        assert(all[i as int] is Image);
                        media = true;
                    },
                    InputContentBlock::Document { .. } => {
                        assert(all[i as int] is Document);
                        media = true;
                    },
                }
                i = i + 1;
            }
            assert(all.take(all.len() as int) == all);
            let ghost texts = text_parts.deep_view();
            if media {
                text_parts.push("[Unsupported: image/document content omitted]".to_owned());
                assert(text_parts.deep_view() =~= texts.push(omitted_note()));
            }
            let body = join(&text_parts, "\n");
            assert(body@ == block_body(all));
            if calls.len() > 0 {
                out.push(
                    OllamaMessage {
                        role: "assistant".to_owned(),
                        content: body,
                        tool_calls: Some(calls),
                    },
                );
                assert(out.deep_view() =~= before + translated(msg.deep_view()));
            } else if results.len() > 0 {
                let ghost given = results.deep_view();
                let mut k: usize = 0;
                assert(before + given.take(0).map_values(|r: Seq<char>| tool_message(r)) =~= before);
                while k < results.len()
                    invariant
                        given == results.deep_view(),
                        0 <= k <= results@.len(),
                        out.deep_view() == before + given.take(k as int).map_values(
                            |r: Seq<char>| tool_message(r),
                        ),
                    decreases results@.len() - k,
                {
                    let ghost so_far = out.deep_view();
                    out.push(
                        OllamaMessage {
                            role: "tool".to_owned(),
                            content: results[k].clone(),
                            tool_calls: None,
                        },
                    );
                    assert(out.deep_view() =~= so_far.push(tool_message(given[k as int])));
                    assert(given.take(k + 1).map_values(|r: Seq<char>| tool_message(r))
                        =~= given.take(k as int).map_values(|r: Seq<char>| tool_message(r)).push(
                        tool_message(given[k as int]),
                    ));
                    assert(out.deep_view() =~= before + given.take(k + 1).map_values(
                        |r: Seq<char>| tool_message(r),
                    ));
                    k = k + 1;
                }
                assert(given.take(given.len() as int) == given);
                if media {
                    let ghost so_far = out.deep_view();
                    out.push(
                        OllamaMessage { role: msg.role.clone(), content: body, tool_calls: None },
                    );
                    assert(out.deep_view() =~= so_far.push(
                        OllamaMessageView {
                            role: msg.role@,
                            content: block_body(all),
                            tool_calls: None,
                        },
                    ));
                    assert(has_media(all));
                }
                assert(out.deep_view() =~= before + translated(msg.deep_view()));
            } else {
                out.push(
                    OllamaMessage { role: msg.role.clone(), content: body, tool_calls: None },
                );
                assert(out.deep_view() =~= before + translated(msg.deep_view()));
            }
        },
    }
}

/// A tool as the API has it.
pub open spec fn tool_def(tool: ToolView) -> OllamaToolView {
    OllamaToolView {
        tool_type: "function"@,
        name: tool.name,
        description: tool.description,
        parameters: tool.input_schema,
    }
}

/// The tools as the API has them.
pub fn translate_tools(tools: &Vec<ToolDefinition>) -> (r: Vec<OllamaToolDef>)
    ensures
        r.deep_view() == tools.deep_view().map_values(|t: ToolView| tool_def(t)),
{
    let mut out: Vec<OllamaToolDef> = Vec::new();
    let ghost all = tools.deep_view();
    let mut i: usize = 0;
    while i < tools.len()
        invariant
            all == tools.deep_view(),
            0 <= i <= tools@.len(),
            out.deep_view() == all.take(i as int).map_values(|t: ToolView| tool_def(t)),
        decreases tools@.len() - i,
    {
        let ghost so_far = out.deep_view();
        let td = &tools[i];
        out.push(
            OllamaToolDef {
                tool_type: "function".to_owned(),
                function: OllamaFunctionDef {
                    name: td.name.clone(),
                    description: td.description.clone(),
                    parameters: td.input_schema.clone(),
                },
            },
        );
        assert(out.deep_view() =~= so_far.push(tool_def(all[i as int])));
        assert(out.deep_view() =~= all.take(i + 1).map_values(|t: ToolView| tool_def(t)));
        i = i + 1;
    }
    assert(all.take(all.len() as int) == all);
    out
}

/// The identifier that stands for the `i`th tool call of a response.
pub open spec fn tool_id(i: nat) -> Seq<char> {
    "ollama_tool_"@ + decimal(i)
}

/// The tool calls of a response, each with an identifier by its place.
pub open spec fn numbered(calls: Seq<OllamaCallView>) -> Seq<ToolCallView> {
    Seq::new(
        calls.len(),
        |i: int|
            ToolCallView {
                id: tool_id(i as nat),
                name: calls[i].name,
                input: calls[i].arguments,
            },
    )
}

/// A tool call as a block.
pub open spec fn call_block(call: ToolCallView) -> BlockView {
    BlockView::ToolUse { id: call.id, name: call.name, input: call.input }
}

/// The stop reason by its name in the API.
pub open spec fn stop_named(reason: Option<Seq<char>>) -> StopView {
    match reason {
        None => StopView::EndTurn,
        Some(r) => if r == "stop"@ {
            StopView::EndTurn
        } else if r == "length"@ {
            StopView::MaxTokens
        } else {
            StopView::Other(r)
        },
    }
}

/// What is read out of a response: its text, its tool calls numbered, the
/// blocks to send back; tool calls decide the stop reason, whatever is named.
pub open spec fn answer(
    text: Seq<char>,
    calls: Option<Seq<OllamaCallView>>,
    done_reason: Option<Seq<char>>,
    prompt_eval_count: Option<u32>,
    eval_count: Option<u32>,
) -> ResponseView {
    let tool_calls = match calls {
        Some(c) => numbered(c),
        None => Seq::empty(),
    };
    let head = if text.len() > 0 {
        seq![BlockView::Text(text)]
    } else {
        Seq::empty()
    };
    ResponseView {
        text,
        tool_calls,
        stop_reason: if tool_calls.len() > 0 {
            StopView::ToolUse
        } else {
            stop_named(done_reason)
        },
        input_tokens: match prompt_eval_count {
            Some(n) => n,
            None => 0,
        },
        output_tokens: match eval_count {
            Some(n) => n,
            None => 0,
        },
        content_blocks: head + tool_calls.map_values(|c: ToolCallView| call_block(c)),
    }
}

/// The stop reason by its name in the API.
pub fn stop_reason_named(reason: &Option<String>) -> (r: StopReason)
    ensures
        r.deep_view() == stop_named(reason.deep_view()),
{
    match reason {
        None => StopReason::EndTurn,
        Some(name) => {
            if same(name.as_str(), "stop") {
                StopReason::EndTurn
            } else if same(name.as_str(), "length") {
                StopReason::MaxTokens
            } else {
                StopReason::Other(name.clone())
            }
        },
    }
}

/// The tool calls of a response, each with an identifier by its place.
pub fn number_calls(calls: &Vec<OllamaToolCall>) -> (r: Vec<ToolCall>)
    ensures
        r.deep_view() == numbered(calls.deep_view()),
{
    let mut out: Vec<ToolCall> = Vec::new();
    let ghost all = calls.deep_view();
    let mut i: usize = 0;
    while i < calls.len()
        invariant
            all == calls.deep_view(),
            0 <= i <= calls@.len(),
            out.deep_view() == numbered(all).take(i as int),
        decreases calls@.len() - i,
    {
        let ghost so_far = out.deep_view();
        let mut id = "ollama_tool_".to_owned();
        let n = number(i as u64);
        id.append(n.as_str());
        let call = &calls[i];
        out.push(
            ToolCall {
                id,
                name: call.function.name.clone(),
                input: call.function.arguments.clone(),
            },
        );
        assert(out.deep_view() =~= so_far.push(numbered(all)[i as int]));
        assert(out.deep_view() =~= numbered(all).take(i + 1));
        i = i + 1;
    }
    assert(numbered(all).take(all.len() as int) =~= numbered(all));
    out
}

/// The default address of the API.
pub open spec fn default_host() -> Seq<char> {
    "http://localhost:11434"@
}

/// A client of the chat API.
#[derive(Debug, Clone)]
pub struct OllamaClient {
    pub config: LlmConfig,
    pub host: String,
}

impl OllamaClient {
    /// A client with this configuration: its host, or the default one, without
    /// the slashes at its end.
    pub fn new(config: LlmConfig) -> (r: Self)
        ensures
            r.config == config,
            r.host@ == drop_run(
                match config.host {
                    Some(h) => h@,
                    None => default_host(),
                },
                '/',
            ),
    {
        let host = match &config.host {
            Some(h) => trim_trailing(h.as_str(), '/'),
            None => trim_trailing("http://localhost:11434", '/'),
        };
        OllamaClient { config, host }
    }

    /// The address that requests go to.
    pub fn url(&self) -> (r: String)
        ensures
            r@ == self.host@ + "/api/chat"@,
    {
        let mut s = self.host.clone();
        s.append("/api/chat");
        s
    }

    /// The request for a conversation: the system prompt first, unless it is
    /// empty, then the messages, translated; never a stream.
    pub fn request(
        &self,
        system_prompt: &str,
        messages: &Vec<Message>,
        tools: Option<&Vec<ToolDefinition>>,
    ) -> (r: OllamaChatRequest)
        ensures
            r.model@ == self.config.model@,
            !r.stream,
            r.options.num_predict == self.config.max_tokens_per_request,
            r.messages.deep_view() == (if system_prompt@.len() == 0 {
                Seq::empty()
            } else {
                seq![
                    OllamaMessageView {
                        role: "system"@,
                        content: system_prompt@,
                        tool_calls: None,
                    },
                ]
            }) + all_translated(messages.deep_view()),
            r.tools.deep_view() == match tools.deep_view() {
                Some(t) => Some(t.map_values(|t: ToolView| tool_def(t))),
                None => None,
            },
    {
        let mut out: Vec<OllamaMessage> = Vec::new();
        if !system_prompt.is_empty() {
            out.push(
                OllamaMessage {
                    role: "system".to_owned(),
                    content: system_prompt.to_owned(),
                    tool_calls: None,
                },
            );
        }
        let ghost head = out.deep_view();
        assert(head =~= (if system_prompt@.len() == 0 {
            Seq::empty()
        } else {
            seq![
                OllamaMessageView { role: "system"@, content: system_prompt@, tool_calls: None },
            ]
        }));
        let ghost all = messages.deep_view();
        let mut i: usize = 0;
        assert(head + all_translated(all.take(0)) =~= head);
        while i < messages.len()
            invariant
                all == messages.deep_view(),
                0 <= i <= messages@.len(),
                out.deep_view() == head + all_translated(all.take(i as int)),
            decreases messages@.len() - i,
        {
            assert(all.take(i + 1).drop_last() == all.take(i as int));
            translate_message(&messages[i], &mut out);
            assert(out.deep_view() =~= head + all_translated(all.take(i + 1)));
            i = i + 1;
        }
        assert(all.take(all.len() as int) == all);
        let tool_defs = match tools {
            Some(t) => Some(translate_tools(t)),
            None => None,
        };
        OllamaChatRequest {
            model: self.config.model.clone(),
            messages: out,
            stream: false,
            tools: tool_defs,
            options: OllamaOptions { num_predict: self.config.max_tokens_per_request },
        }
    }

    /// What is read out of a response.
    pub fn complete(&self, resp: OllamaChatResponse) -> (r: LlmResponse)
        ensures
            r.deep_view() == answer(
                resp.message.content@,
                resp.message.tool_calls.deep_view(),
                resp.done_reason.deep_view(),
                resp.prompt_eval_count,
                resp.eval_count,
            ),
    {
        let text = resp.message.content.clone();
        let tool_calls = match &resp.message.tool_calls {
            Some(c) => number_calls(c),
            None => {
                let none: Vec<ToolCall> = Vec::new();
                assert(none.deep_view() =~= Seq::empty());
                none
            },
        };
        let ghost calls = tool_calls.deep_view();
        let mut content_blocks: Vec<InputContentBlock> = Vec::new();
        if !text.as_str().is_empty() {
            content_blocks.push(InputContentBlock::Text { text: text.clone() });
        }
        let ghost head = content_blocks.deep_view();
        assert(head =~= (if text@.len() > 0 {
            seq![BlockView::Text(text@)]
        } else {
            Seq::empty()
        }));
        let mut i: usize = 0;
        assert(head + calls.take(0).map_values(|c: ToolCallView| call_block(c)) =~= head);
        while i < tool_calls.len()
            invariant
                calls == tool_calls.deep_view(),
                0 <= i <= tool_calls@.len(),
                content_blocks.deep_view() == head + calls.take(i as int).map_values(
                    |c: ToolCallView| call_block(c),
                ),
            decreases tool_calls@.len() - i,
        {
            let ghost so_far = content_blocks.deep_view();
            let tc = &tool_calls[i];
            content_blocks.push(
                InputContentBlock::ToolUse {
                    id: tc.id.clone(),
                    name: tc.name.clone(),
                    input: tc.input.clone(),
                },
            );
            assert(content_blocks.deep_view() =~= so_far.push(call_block(calls[i as int])));
            assert(content_blocks.deep_view() =~= head + calls.take(i + 1).map_values(
                |c: ToolCallView| call_block(c),
            ));
            i = i + 1;
        }
        assert(calls.take(calls.len() as int) == calls);
        let stop_reason = if tool_calls.len() > 0 {
            StopReason::ToolUse
        } else {
            stop_reason_named(&resp.done_reason)
        };
        let input_tokens: u32 = match resp.prompt_eval_count {
            Some(n) => n,
            None => 0,
        };
        let output_tokens: u32 = match resp.eval_count {
            Some(n) => n,
            None => 0,
        };
        LlmResponse { text, tool_calls, stop_reason, input_tokens, output_tokens, content_blocks }
    }

    /// The provider and the model.
    pub fn description(&self) -> (r: String)
        ensures
            r@ == describe(self.config),
    {
        description_of(&self.config)
    }
}

/// The message of a refused call.
pub fn api_error(status: &str, body: &str) -> (r: String)
    ensures
        r@ == "Ollama API error ("@ + status@ + "): "@ + body@,
{
    let mut s = "Ollama API error (".to_owned();
    s.append(status);
    s.append("): ");
    s.append(body);
    s
}

// ---- laws --------------------------------------------------------------

/// No two calls of a response have the same identifier.
pub proof fn tool_ids_differ(i: nat, j: nat)
    requires
        i != j,
    ensures
        tool_id(i) != tool_id(j),
{
    lemma_decimal_value(i);
    lemma_decimal_value(j);
    let head = "ollama_tool_"@;
    if tool_id(i) == tool_id(j) {
        assert(decimal(i) =~= tool_id(i).skip(head.len() as int));
        assert(decimal(j) =~= tool_id(j).skip(head.len() as int));
    }
}

proof fn lemma_blocks_of_calls(head: Seq<BlockView>, calls: Seq<OllamaCallView>, n: int)
    requires
        0 <= n <= calls.len(),
        head.len() <= 1,
        forall|i: int| 0 <= i < head.len() ==> head[i] is Text,
    ensures
        ({
            let blocks = head + numbered(calls).map_values(|c: ToolCallView| call_block(c)).take(n);
            &&& block_calls(blocks) == calls.take(n)
            &&& block_results(blocks).len() == 0
            &&& texts_of(blocks) == texts_of(head)
            &&& !has_media(blocks)
        }),
    decreases n,
{
    let made = numbered(calls).map_values(|c: ToolCallView| call_block(c));
    let blocks = head + made.take(n);
    if n == 0 {
        assert(blocks =~= head);
        if head.len() == 1 {
            assert(head.drop_last() =~= Seq::empty());
            assert(block_calls(head.drop_last()).len() == 0);
            assert(block_results(head.drop_last()).len() == 0);
        }
        assert(block_calls(blocks) =~= calls.take(0));
    } else {
        lemma_blocks_of_calls(head, calls, n - 1);
        let before = head + made.take(n - 1);
        assert(blocks.drop_last() =~= before);
        assert(blocks.last() == call_block(numbered(calls)[n - 1]));
        assert(block_calls(blocks) =~= calls.take(n));
        assert forall|i: int| 0 <= i < blocks.len() implies !(#[trigger] blocks[i] is Image
            || blocks[i] is Document) by {
            if i < before.len() {
                assert(blocks[i] == before[i]);
            }
        }
    }
}

/// What a response said is sent back as it was said: its text and the tools
/// that it called, in one message of the assistant.
pub proof fn a_response_is_sent_back_as_it_came(
    text: Seq<char>,
    calls: Seq<OllamaCallView>,
    done_reason: Option<Seq<char>>,
    prompt_eval_count: Option<u32>,
    eval_count: Option<u32>,
)
    requires
        calls.len() > 0,
    ensures
        ({
            let r = answer(text, Some(calls), done_reason, prompt_eval_count, eval_count);
            &&& r.stop_reason == StopView::ToolUse
            &&& translated(
                MessageView {
                    role: "assistant"@,
                    content: ContentView::Blocks(r.content_blocks),
                },
            ) == seq![
                OllamaMessageView { role: "assistant"@, content: text, tool_calls: Some(calls) },
            ]
        }),
{
    let r = answer(text, Some(calls), done_reason, prompt_eval_count, eval_count);
    let head = if text.len() > 0 {
        seq![BlockView::Text(text)]
    } else {
        Seq::empty()
    };
    let made = numbered(calls).map_values(|c: ToolCallView| call_block(c));
    let n = calls.len() as int;
    lemma_blocks_of_calls(head, calls, n);
    assert(made.take(n) =~= made);
    assert(calls.take(n) =~= calls);
    assert(r.content_blocks == head + made);
    if text.len() > 0 {
        assert(head.drop_last() =~= Seq::empty());
        assert(texts_of(head.drop_last()).len() == 0);
        assert(texts_of(head) =~= seq![text]);
    } else {
        assert(text =~= Seq::empty());
    }
    assert(block_body(r.content_blocks) == text);
}

/// The results of a round of tools are sent back one by one, in order.
pub proof fn results_are_sent_back_in_order(role: Seq<char>, blocks: Seq<BlockView>, i: int)
    requires
        0 <= i < blocks.len(),
        forall|j: int| 0 <= j < blocks.len() ==> #[trigger] blocks[j] is ToolResult,
    ensures
        ({
            let sent = translated(MessageView { role, content: ContentView::Blocks(blocks) });
            &&& sent.len() == blocks.len()
            &&& sent[i] == tool_message(blocks[i]->content)
        }),
{
    lemma_only_results(blocks);
}

proof fn lemma_only_results(blocks: Seq<BlockView>)
    requires
        forall|j: int| 0 <= j < blocks.len() ==> #[trigger] blocks[j] is ToolResult,
    ensures
        block_calls(blocks).len() == 0,
        block_results(blocks) == blocks.map_values(|b: BlockView| b->content),
    decreases blocks.len(),
{
    if blocks.len() > 0 {
        let before = blocks.drop_last();
        assert forall|j: int| 0 <= j < before.len() implies #[trigger] before[j] is ToolResult by {
            assert(before[j] == blocks[j]);
        }
        lemma_only_results(before);
        assert(blocks.last() is ToolResult);
        assert(block_results(blocks) =~= blocks.map_values(|b: BlockView| b->content));
    } else {
        assert(block_results(blocks) =~= blocks.map_values(|b: BlockView| b->content));
    }
}

/// Images and documents are never passed over in silence: one of the messages
/// that they become says that something was left out.
pub proof fn what_is_left_out_is_said(role: Seq<char>, blocks: Seq<BlockView>)
    requires
        has_media(blocks),
    ensures
        ({
            let sent = translated(MessageView { role, content: ContentView::Blocks(blocks) });
            exists|i: int|
                0 <= i < sent.len() && has_text((#[trigger] sent[i]).content, omitted_note())
        }),
{
    let sent = translated(MessageView { role, content: ContentView::Blocks(blocks) });
    let note = omitted_note();
    let body = block_body(blocks);
    let parts = texts_of(blocks).push(note);
    let at = body.len() - note.len();
    if parts.len() > 1 {
        assert(parts.last() == note);
        assert(body == joined(parts.drop_last(), "\n"@) + "\n"@ + note);
    }
    assert(body.subrange(at, at + note.len()) =~= note);
    assert(occurs_at(body, note, at));
    assert(sent[sent.len() - 1].content == body);
}

/// A conversation is sent in its order: that of two runs of messages is that of
/// the first and then that of the second, and that of one message alone is that
/// message.
pub proof fn conversations_are_sent_in_order(
    a: Seq<MessageView>,
    b: Seq<MessageView>,
    msg: MessageView,
)
    ensures
        all_translated(a + b) == all_translated(a) + all_translated(b),
        all_translated(seq![msg]) == translated(msg),
        all_translated(Seq::empty()).len() == 0,
    decreases b.len(),
{
    assert(seq![msg].drop_last() =~= Seq::empty());
    assert(all_translated(seq![msg].drop_last()).len() == 0);
    assert(all_translated(seq![msg]) =~= translated(msg));
    if b.len() > 0 {
        assert((a + b).drop_last() =~= a + b.drop_last());
        conversations_are_sent_in_order(a, b.drop_last(), msg);
        assert(all_translated(a + b) =~= all_translated(a) + all_translated(b));
    } else {
        assert(a + b =~= a);
        assert(all_translated(b).len() == 0);
        assert(all_translated(a) + all_translated(b) =~= all_translated(a));
    }
}

/// Messages in plain text are sent one for one, each in its place, under its
/// role and word for word.
pub proof fn plain_texts_are_sent_one_for_one(messages: Seq<MessageView>, i: int)
    requires
        0 <= i < messages.len(),
        forall|j: int| 0 <= j < messages.len() ==> (#[trigger] messages[j]).content is Text,
    ensures
        all_translated(messages).len() == messages.len(),
        all_translated(messages)[i].role == messages[i].role,
        ContentView::Text(all_translated(messages)[i].content) == messages[i].content,
        all_translated(messages)[i].tool_calls is None,
    decreases messages.len(),
{
    let head = messages.drop_last();
    assert forall|j: int| 0 <= j < head.len() implies (#[trigger] head[j]).content is Text by {
        assert(head[j] == messages[j]);
    }
    assert(messages[messages.len() - 1].content is Text);
    if i < head.len() {
        plain_texts_are_sent_one_for_one(head, i);
        assert(head[i] == messages[i]);
    } else if head.len() > 0 {
        plain_texts_are_sent_one_for_one(head, 0);
    } else {
        assert(all_translated(head).len() == 0);
    }
}

/// Calls and results are read off the blocks in order, each once and none left
/// out.
pub proof fn blocks_are_sent_in_order(a: Seq<BlockView>, b: Seq<BlockView>, block: BlockView)
    ensures
        block_calls(a + b) == block_calls(a) + block_calls(b),
        block_results(a + b) == block_results(a) + block_results(b),
        block_calls(seq![block]) == match block {
            BlockView::ToolUse { id, name, input } => seq![
                OllamaCallView { name, arguments: input },
            ],
            _ => Seq::empty(),
        },
        block_results(seq![block]) == match block {
            BlockView::ToolResult { tool_use_id, content } => seq![content],
            _ => Seq::empty(),
        },
    decreases b.len(),
{
    let one = seq![block];
    assert(one.drop_last() =~= Seq::empty());
    assert(block_calls(one.drop_last()) =~= Seq::empty());
    assert(block_results(one.drop_last()) =~= Seq::empty());
    assert(block_calls(one) =~= match block {
        BlockView::ToolUse { id, name, input } => seq![OllamaCallView { name, arguments: input }],
        _ => Seq::empty(),
    });
    assert(block_results(one) =~= match block {
        BlockView::ToolResult { tool_use_id, content } => seq![content],
        _ => Seq::empty(),
    });
    if b.len() > 0 {
        assert((a + b).drop_last() =~= a + b.drop_last());
        blocks_are_sent_in_order(a, b.drop_last(), block);
        assert(block_calls(a + b) =~= block_calls(a) + block_calls(b));
        assert(block_results(a + b) =~= block_results(a) + block_results(b));
    } else {
        assert(a + b =~= a);
        assert(block_calls(b).len() == 0 && block_results(b).len() == 0);
        assert(block_calls(a) + block_calls(b) =~= block_calls(a));
        assert(block_results(a) + block_results(b) =~= block_results(a));
    }
}

/// Results go back in messages of the tool, each word for word and none with
/// calls.
pub proof fn results_are_sent_back_as_they_are(role: Seq<char>, blocks: Seq<BlockView>, i: int)
    requires
        0 <= i < blocks.len(),
        forall|j: int| 0 <= j < blocks.len() ==> #[trigger] blocks[j] is ToolResult,
    ensures
        ({
            let sent = translated(MessageView { role, content: ContentView::Blocks(blocks) });
            &&& sent.len() == blocks.len()
            &&& sent[i].role == "tool"@
            &&& sent[i].content == blocks[i]->content
            &&& sent[i].tool_calls is None
        }),
{
    results_are_sent_back_in_order(role, blocks, i);
}

/// Blocks that are texts are sent in one message under the role of the sender,
/// a line for each, in order: what two runs of them say is what the first says
/// and, on the next line, what the second says.
pub proof fn texts_are_sent_line_by_line(
    role: Seq<char>,
    a: Seq<BlockView>,
    b: Seq<BlockView>,
    text: Seq<char>,
)
    requires
        a.len() > 0 && b.len() > 0,
        forall|j: int| 0 <= j < a.len() ==> #[trigger] a[j] is Text,
        forall|j: int| 0 <= j < b.len() ==> #[trigger] b[j] is Text,
    ensures
        ({
            let first = translated(MessageView { role, content: ContentView::Blocks(a) });
            let second = translated(MessageView { role, content: ContentView::Blocks(b) });
            let both = translated(MessageView { role, content: ContentView::Blocks(a + b) });
            let one = MessageView {
                role,
                content: ContentView::Blocks(seq![BlockView::Text(text)]),
            };
            &&& both.len() == 1 && first.len() == 1 && second.len() == 1
            &&& both[0].role == role && both[0].tool_calls is None
            &&& both[0].content == first[0].content + "\n"@ + second[0].content
            &&& translated(one) == seq![
                OllamaMessageView { role, content: text, tool_calls: None },
            ]
        }),
{
    let block = BlockView::Text(text);
    blocks_are_sent_in_order(a, b, block);
    blocks_are_read_in_order(a, b, block);
    lemma_only_texts(a);
    lemma_only_texts(b);
    lemma_only_texts(seq![block]);
    joining_keeps_the_order(texts_of(a), texts_of(b), "\n"@);
    joining_keeps_the_order(seq![text], seq![text], "\n"@);
    assert forall|i: int| 0 <= i < (a + b).len() implies #[trigger] (a + b)[i] is Text by {
        if i < a.len() {
            assert((a + b)[i] == a[i]);
        } else {
            assert((a + b)[i] == b[i - a.len()]);
        }
    }
}

proof fn lemma_only_texts(blocks: Seq<BlockView>)
    requires
        forall|j: int| 0 <= j < blocks.len() ==> #[trigger] blocks[j] is Text,
    ensures
        block_calls(blocks).len() == 0,
        block_results(blocks).len() == 0,
        texts_of(blocks).len() == blocks.len(),
        !has_media(blocks),
    decreases blocks.len(),
{
    if blocks.len() > 0 {
        let before = blocks.drop_last();
        assert forall|j: int| 0 <= j < before.len() implies #[trigger] before[j] is Text by {
            assert(before[j] == blocks[j]);
        }
        lemma_only_texts(before);
        assert(blocks[blocks.len() - 1] is Text);
    }
}

/// A tool is offered under its own name, with its description and its schema.
pub proof fn tools_are_offered_as_they_are(tool: ToolView)
    ensures
        tool_def(tool).tool_type == "function"@,
        tool_def(tool).name == tool.name,
        tool_def(tool).description == tool.description,
        tool_def(tool).parameters == tool.input_schema,
{
}

/// A response is read as it came: its text, each of its calls in its place
/// with name and input, a block for the text and one for each call, and the
/// tokens that it counts. With calls it stopped for tools, whatever it says;
/// without, for what it says.
pub proof fn responses_are_read_as_they_come(
    text: Seq<char>,
    calls: Seq<OllamaCallView>,
    reason: Seq<char>,
    prompt_eval_count: u32,
    eval_count: u32,
    i: int,
)
    requires
        0 <= i < calls.len(),
        text.len() > 0,
    ensures
        ({
            let r = answer(
                text,
                Some(calls),
                Some(reason),
                Some(prompt_eval_count),
                Some(eval_count),
            );
            let plain = answer(text, None, Some(reason), None, None);
            &&& r.text == text
            &&& r.stop_reason == StopView::ToolUse
            &&& r.tool_calls.len() == calls.len()
            &&& r.tool_calls[i].name == calls[i].name
            &&& r.tool_calls[i].input == calls[i].arguments
            &&& r.content_blocks.len() == calls.len() + 1
            &&& r.content_blocks[0] == BlockView::Text(text)
            &&& r.content_blocks[i + 1] == BlockView::ToolUse {
                id: r.tool_calls[i].id,
                name: calls[i].name,
                input: calls[i].arguments,
            }
            &&& r.input_tokens == prompt_eval_count && r.output_tokens == eval_count
            &&& plain.text == text && plain.tool_calls.len() == 0
            &&& plain.content_blocks == seq![BlockView::Text(text)]
            &&& plain.input_tokens == 0 && plain.output_tokens == 0
            &&& reason == "stop"@ ==> plain.stop_reason == StopView::EndTurn
            &&& reason == "length"@ ==> plain.stop_reason == StopView::MaxTokens
            &&& reason != "stop"@ && reason != "length"@ ==> plain.stop_reason == StopView::Other(
                reason,
            )
            &&& answer(text, None, None, None, None).stop_reason == StopView::EndTurn
        }),
{
    reveal_strlit("stop");
    reveal_strlit("length");
    assert("stop"@.len() == 4 && "length"@.len() == 6);
    let none = Seq::<ToolCallView>::empty();
    assert(seq![BlockView::Text(text)] + none.map_values(|c: ToolCallView| call_block(c)) =~= seq![
        BlockView::Text(text),
    ]);
}

/// Wherever an image or a document stands among the blocks, the last message
/// that they become ends with the note that something was left out.
pub proof fn media_leave_a_note(role: Seq<char>, blocks: Seq<BlockView>, i: int)
    requires
        0 <= i < blocks.len(),
        blocks[i] is Image || blocks[i] is Document,
    ensures
        ({
            let sent = translated(MessageView { role, content: ContentView::Blocks(blocks) });
            &&& sent.len() > 0
            &&& has_suffix(sent.last().content, "[Unsupported: image/document content omitted]"@)
        }),
{
    assert(has_media(blocks));
    let note = omitted_note();
    let body = block_body(blocks);
    let parts = texts_of(blocks).push(note);
    if parts.len() > 1 {
        assert(parts.last() == note);
        assert(body == joined(parts.drop_last(), "\n"@) + "\n"@ + note);
    }
    assert(body.subrange(body.len() - note.len(), body.len() as int) =~= note);
}

} // verus!
