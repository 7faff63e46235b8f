//! The messages and tools that every language model is given, and the answer
//! that every one gives back.

use crate::text::{contains, has_text, same};
use vstd::prelude::*;
use vstd::string::*;

verus! {

/// A message of a conversation.
#[derive(Debug)]
pub struct Message {
    pub role: String,
    pub content: MessageContent,
}

/// What a message says: plain text, or blocks of several kinds.
#[derive(Debug)]
pub enum MessageContent {
    Text(String),
    Blocks(Vec<InputContentBlock>),
}

/// A block of a message.
#[derive(Debug)]
pub enum InputContentBlock {
    Text { text: String },
    Image { source: ImageSource },
    Document { source: DocumentSource },
    ToolUse { id: String, name: String, input: serde_json::Value },
    ToolResult { tool_use_id: String, content: String },
}

/// An image, encoded as text.
#[derive(Debug)]
pub struct ImageSource {
    pub source_type: String,
    pub media_type: String,
    pub data: String,
}

/// A document, encoded as text.
#[derive(Debug)]
pub struct DocumentSource {
    pub source_type: String,
    pub media_type: String,
    pub data: String,
}

/// A tool that the model may call.
#[derive(Debug)]
pub struct ToolDefinition {
    pub name: String,
    pub description: String,
    pub input_schema: serde_json::Value,
}

/// A call of a tool that the model asks for.
#[derive(Debug)]
pub struct ToolCall {
    pub id: String,
    pub name: String,
    pub input: serde_json::Value,
}

/// Why the model stopped.
#[derive(Debug)]
pub enum StopReason {
    EndTurn,
    ToolUse,
    MaxTokens,
    Other(String),
}

/// The answer of a model.
#[derive(Debug)]
pub struct LlmResponse {
    pub text: String,
    /// The tools that it calls; none unless it stopped to call them.
    pub tool_calls: Vec<ToolCall>,
    pub stop_reason: StopReason,
    pub input_tokens: u32,
    pub output_tokens: u32,
    pub content_blocks: Vec<InputContentBlock>,
}

/// The model of [`Message`].
pub ghost struct MessageView {
    pub role: Seq<char>,
    pub content: ContentView,
}

/// The model of [`MessageContent`].
pub ghost enum ContentView {
    Text(Seq<char>),
    Blocks(Seq<BlockView>),
}

/// The model of [`InputContentBlock`].
pub ghost enum BlockView {
    Text(Seq<char>),
    Image(SourceView),
    Document(SourceView),
    ToolUse { id: Seq<char>, name: Seq<char>, input: serde_json::Value },
    ToolResult { tool_use_id: Seq<char>, content: Seq<char> },
}

/// The model of [`ImageSource`] and [`DocumentSource`].
pub ghost struct SourceView {
    pub source_type: Seq<char>,
    pub media_type: Seq<char>,
    pub data: Seq<char>,
}

/// The model of [`ToolDefinition`].
pub ghost struct ToolView {
    pub name: Seq<char>,
    pub description: Seq<char>,
    pub input_schema: serde_json::Value,
}

/// The model of [`ToolCall`].
pub ghost struct ToolCallView {
    pub id: Seq<char>,
    pub name: Seq<char>,
    pub input: serde_json::Value,
}

/// The model of [`StopReason`].
pub ghost enum StopView {
    EndTurn,
    ToolUse,
    MaxTokens,
    Other(Seq<char>),
}

/// The model of [`LlmResponse`].
pub ghost struct ResponseView {
    pub text: Seq<char>,
    pub tool_calls: Seq<ToolCallView>,
    pub stop_reason: StopView,
    pub input_tokens: u32,
    pub output_tokens: u32,
    pub content_blocks: Seq<BlockView>,
}

impl DeepView for ImageSource {
    type V = SourceView;

    open spec fn deep_view(&self) -> SourceView {
        SourceView {
            source_type: self.source_type@,
            media_type: self.media_type@,
            data: self.data@,
        }
    }
}

impl DeepView for DocumentSource {
    type V = SourceView;

    open spec fn deep_view(&self) -> SourceView {
        SourceView {
            source_type: self.source_type@,
            media_type: self.media_type@,
            data: self.data@,
        }
    }
}

impl DeepView for InputContentBlock {
    type V = BlockView;

    open spec fn deep_view(&self) -> BlockView {
        match self {
            InputContentBlock::Text { text } => BlockView::Text(text@),
            InputContentBlock::Image { source } => BlockView::Image(source.deep_view()),
            InputContentBlock::Document { source } => BlockView::Document(source.deep_view()),
            InputContentBlock::ToolUse { id, name, input } => BlockView::ToolUse {
                id: id@,
                name: name@,
                input: *input,
            },
            InputContentBlock::ToolResult { tool_use_id, content } => BlockView::ToolResult {
                tool_use_id: tool_use_id@,
                content: content@,
            },
        }
    }
}

impl DeepView for MessageContent {
    type V = ContentView;

    open spec fn deep_view(&self) -> ContentView {
        match self {
            MessageContent::Text(s) => ContentView::Text(s@),
            MessageContent::Blocks(b) => ContentView::Blocks(b.deep_view()),
        }
    }
}

impl DeepView for Message {
    type V = MessageView;

    open spec fn deep_view(&self) -> MessageView {
        MessageView { role: self.role@, content: self.content.deep_view() }
    }
}

impl DeepView for ToolDefinition {
    type V = ToolView;

    open spec fn deep_view(&self) -> ToolView {
        ToolView {
            name: self.name@,
            description: self.description@,
            input_schema: self.input_schema,
        }
    }
}

impl DeepView for ToolCall {
    type V = ToolCallView;

    open spec fn deep_view(&self) -> ToolCallView {
        ToolCallView { id: self.id@, name: self.name@, input: self.input }
    }
}

impl DeepView for StopReason {
    type V = StopView;

    open spec fn deep_view(&self) -> StopView {
        match self {
            StopReason::EndTurn => StopView::EndTurn,
            StopReason::ToolUse => StopView::ToolUse,
            StopReason::MaxTokens => StopView::MaxTokens,
            StopReason::Other(s) => StopView::Other(s@),
        }
    }
}

impl DeepView for LlmResponse {
    type V = ResponseView;

    open spec fn deep_view(&self) -> ResponseView {
        ResponseView {
            text: self.text@,
            tool_calls: self.tool_calls.deep_view(),
            stop_reason: self.stop_reason.deep_view(),
            input_tokens: self.input_tokens,
            output_tokens: self.output_tokens,
            content_blocks: self.content_blocks.deep_view(),
        }
    }
}

impl Clone for ImageSource {
    fn clone(&self) -> (r: Self)
        ensures
            r.deep_view() == self.deep_view(),
    {
        ImageSource {
            source_type: self.source_type.clone(),
            media_type: self.media_type.clone(),
            data: self.data.clone(),
        }
    }
}

impl Clone for DocumentSource {
    fn clone(&self) -> (r: Self)
        ensures
            r.deep_view() == self.deep_view(),
    {
        DocumentSource {
            source_type: self.source_type.clone(),
            media_type: self.media_type.clone(),
            data: self.data.clone(),
        }
    }
}

impl Clone for InputContentBlock {
    fn clone(&self) -> (r: Self)
        ensures
            r.deep_view() == self.deep_view(),
    {
        match self {
            InputContentBlock::Text { text } => InputContentBlock::Text { text: text.clone() },
            InputContentBlock::Image { source } => InputContentBlock::Image {
                source: source.clone(),
            },
            InputContentBlock::Document { source } => InputContentBlock::Document {
                source: source.clone(),
            },
            InputContentBlock::ToolUse { id, name, input } => InputContentBlock::ToolUse {
                id: id.clone(),
                name: name.clone(),
                input: input.clone(),
            },
            InputContentBlock::ToolResult { tool_use_id, content } =>
                InputContentBlock::ToolResult {
                tool_use_id: tool_use_id.clone(),
                content: content.clone(),
            },
        }
    }
}

impl Clone for MessageContent {
    fn clone(&self) -> (r: Self)
        ensures
            r.deep_view() == self.deep_view(),
    {
        match self {
            MessageContent::Text(s) => MessageContent::Text(s.clone()),
            MessageContent::Blocks(b) => {
                let c = b.clone();
                assert(c.deep_view() =~= b.deep_view());
                MessageContent::Blocks(c)
            },
        }
    }
}

impl Clone for Message {
    fn clone(&self) -> (r: Self)
        ensures
            r.deep_view() == self.deep_view(),
    {
        Message { role: self.role.clone(), content: self.content.clone() }
    }
}

impl Clone for ToolDefinition {
    fn clone(&self) -> (r: Self)
        ensures
            r.deep_view() == self.deep_view(),
    {
        ToolDefinition {
            name: self.name.clone(),
            description: self.description.clone(),
            input_schema: self.input_schema.clone(),
        }
    }
}

impl Clone for ToolCall {
    fn clone(&self) -> (r: Self)
        ensures
            r.deep_view() == self.deep_view(),
    {
        ToolCall { id: self.id.clone(), name: self.name.clone(), input: self.input.clone() }
    }
}

impl MessageContent {
    /// The text, where the content is text.
    pub fn as_text(&self) -> (r: Option<&str>)
        ensures
            r.deep_view() == match self.deep_view() {
                ContentView::Text(s) => Some(s),
                ContentView::Blocks(_) => None,
            },
    {
        match self {
            MessageContent::Text(s) => Some(s.as_str()),
            MessageContent::Blocks(_) => None,
        }
    }

    /// Whether the content is text and holds the pattern.
    pub fn contains(&self, pattern: &str) -> (r: bool)
        ensures
            r == (self.deep_view() matches ContentView::Text(s) && has_text(s, pattern@)),
    {
        match self {
            MessageContent::Text(s) => contains(s.as_str(), pattern),
            MessageContent::Blocks(_) => false,
        }
    }

    /// Whether the content is exactly this text.
    pub fn is_text(&self, other: &str) -> (r: bool)
        ensures
            r == (self.deep_view() == ContentView::Text(other@)),
    {
        match self {
            MessageContent::Text(s) => same(s.as_str(), other),
            MessageContent::Blocks(_) => false,
        }
    }
}

impl<'a> PartialEq<&'a str> for MessageContent {
    fn eq(&self, other: &&'a str) -> (r: bool) {
        self.is_text(*other)
    }
}

impl<'a> vstd::std_specs::cmp::PartialEqSpecImpl<&'a str> for MessageContent {
    open spec fn obeys_eq_spec() -> bool {
        true
    }

    open spec fn eq_spec(&self, other: &&'a str) -> bool {
        self.deep_view() == ContentView::Text((*other)@)
    }
}

impl From<String> for MessageContent {
    fn from(s: String) -> (r: Self) {
        MessageContent::Text(s)
    }
}

impl vstd::std_specs::convert::FromSpecImpl<String> for MessageContent {
    open spec fn obeys_from_spec() -> bool {
        true
    }

    open spec fn from_spec(s: String) -> Self {
        MessageContent::Text(s)
    }
}

impl From<&str> for MessageContent {
    fn from(s: &str) -> (r: Self)
        ensures
            r.deep_view() == ContentView::Text(s@),
    {
        MessageContent::Text(s.to_owned())
    }
}

impl vstd::std_specs::convert::FromSpecImpl<&str> for MessageContent {
    open spec fn obeys_from_spec() -> bool {
        false
    }

    open spec fn from_spec(s: &str) -> Self {
        arbitrary()
    }
}

/// The plain text message of a role.
pub open spec fn text_message(role: Seq<char>, text: Seq<char>) -> MessageView {
    MessageView { role, content: ContentView::Text(text) }
}

} // verus!
