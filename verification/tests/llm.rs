//! Tests of the clients of language models.

use fluux_agent::config::LlmConfig;
use fluux_agent::llm::anthropic::{
    api_error, stop_reason_named as anthropic_stop_reason, AnthropicClient, MessagesResponse,
    ResponseContentBlock, Usage,
};
use fluux_agent::llm::ollama::{
    number_calls, stop_reason_named, translate_message, translate_tools, OllamaChatResponse,
    OllamaClient, OllamaFunctionCall, OllamaResponseMessage, OllamaToolCall,
};
use fluux_agent::llm::types::{
    DocumentSource, ImageSource, InputContentBlock, Message, MessageContent, StopReason,
    ToolDefinition,
};
use serde_json::Value;

fn object(entries: Vec<(&str, Value)>) -> Value {
    let mut map = serde_json::Map::new();
    for (k, v) in entries {
        map.insert(k.to_string(), v);
    }
    Value::Object(map)
}

fn string(s: &str) -> Value {
    Value::String(s.to_string())
}

fn ollama(host: Option<&str>) -> OllamaClient {
    OllamaClient::new(LlmConfig {
        provider: "ollama".to_string(),
        model: "llama3.2".to_string(),
        api_key: String::new(),
        max_tokens_per_request: 4096,
        host: host.map(String::from),
    })
}

fn anthropic() -> AnthropicClient {
    AnthropicClient::new(LlmConfig {
        provider: "anthropic".to_string(),
        model: "haiku".to_string(),
        api_key: "k".to_string(),
        max_tokens_per_request: 100,
        host: None,
    })
}

fn blocks(role: &str, blocks: Vec<InputContentBlock>) -> Message {
    Message { role: role.to_string(), content: MessageContent::Blocks(blocks) }
}

#[test]
fn test_message_content_from_string() {
    let content: MessageContent = "Hello".to_string().into();
    assert!(matches!(content, MessageContent::Text(s) if s == "Hello"));
}

#[test]
fn test_message_content_from_str() {
    let content: MessageContent = "Hello".into();
    assert!(matches!(content, MessageContent::Text(s) if s == "Hello"));
}

#[test]
fn test_message_content_as_text() {
    let text = MessageContent::Text("Hello".to_string());
    assert_eq!(text.as_text(), Some("Hello"));

    let blocks = MessageContent::Blocks(vec![]);
    assert_eq!(blocks.as_text(), None);
}

#[test]
fn test_description() {
    assert_eq!(ollama(None).description(), "ollama (llama3.2)");
    assert_eq!(anthropic().description(), "anthropic (haiku)");
}

#[test]
fn test_default_host() {
    assert_eq!(ollama(None).host, "http://localhost:11434");
}

#[test]
fn test_custom_host() {
    let client = ollama(Some("http://myserver:11434/"));
    // Trailing slash should be stripped
    assert_eq!(client.host, "http://myserver:11434");
    assert_eq!(client.url(), "http://myserver:11434/api/chat");
}

#[test]
fn test_tool_definition_translation() {
    let schema = object(vec![
        ("type", string("object")),
        ("properties", object(vec![("query", object(vec![("type", string("string"))]))])),
        ("required", Value::Array(vec![string("query")])),
    ]);
    let td = ToolDefinition {
        name: "web_search".to_string(),
        description: "Search the web".to_string(),
        input_schema: schema.clone(),
    };
    let tools = translate_tools(&vec![td]);
    assert_eq!(tools.len(), 1);
    assert_eq!(tools[0].tool_type, "function");
    assert_eq!(tools[0].function.name, "web_search");
    assert_eq!(tools[0].function.description, "Search the web");
    assert_eq!(tools[0].function.parameters["type"], "object");
    assert_eq!(tools[0].function.parameters, schema);
}

#[test]
fn test_translate_text_message() {
    let msg = Message {
        role: "user".to_string(),
        content: MessageContent::Text("Hello!".to_string()),
    };
    let mut out = Vec::new();
    translate_message(&msg, &mut out);
    assert_eq!(out.len(), 1);
    assert_eq!(out[0].role, "user");
    assert_eq!(out[0].content, "Hello!");
    assert!(out[0].tool_calls.is_none());
}

#[test]
fn test_translate_assistant_tool_use() {
    let msg = blocks(
        "assistant",
        vec![
            InputContentBlock::Text { text: "Let me search.".to_string() },
            InputContentBlock::ToolUse {
                id: "tool_1".to_string(),
                name: "web_search".to_string(),
                input: object(vec![("query", string("rust"))]),
            },
        ],
    );
    let mut out = Vec::new();
    translate_message(&msg, &mut out);
    assert_eq!(out.len(), 1);
    assert_eq!(out[0].role, "assistant");
    assert_eq!(out[0].content, "Let me search.");
    let tcs = out[0].tool_calls.as_ref().unwrap();
    assert_eq!(tcs.len(), 1);
    assert_eq!(tcs[0].function.name, "web_search");
    assert_eq!(tcs[0].function.arguments["query"], "rust");
}

#[test]
fn test_translate_tool_result() {
    let msg = blocks(
        "user",
        vec![InputContentBlock::ToolResult {
            tool_use_id: "tool_1".to_string(),
            content: "Found 5 results.".to_string(),
        }],
    );
    let mut out = Vec::new();
    translate_message(&msg, &mut out);
    assert_eq!(out.len(), 1);
    assert_eq!(out[0].role, "tool");
    assert_eq!(out[0].content, "Found 5 results.");
}

#[test]
fn test_translate_multiple_tool_results() {
    let msg = blocks(
        "user",
        vec![
            InputContentBlock::ToolResult {
                tool_use_id: "tool_1".to_string(),
                content: "Result 1.".to_string(),
            },
            InputContentBlock::ToolResult {
                tool_use_id: "tool_2".to_string(),
                content: "Result 2.".to_string(),
            },
        ],
    );
    let mut out = Vec::new();
    translate_message(&msg, &mut out);
    assert_eq!(out.len(), 2);
    assert_eq!(out[0].role, "tool");
    assert_eq!(out[0].content, "Result 1.");
    assert_eq!(out[1].role, "tool");
    assert_eq!(out[1].content, "Result 2.");
}

#[test]
fn test_translate_multimodal_filtered() {
    let msg = blocks(
        "user",
        vec![
            InputContentBlock::Text { text: "What is this?".to_string() },
            InputContentBlock::Image {
                source: ImageSource {
                    source_type: "base64".to_string(),
                    media_type: "image/jpeg".to_string(),
                    data: "aGVsbG8=".to_string(),
                },
            },
        ],
    );
    let mut out = Vec::new();
    translate_message(&msg, &mut out);
    assert_eq!(out.len(), 1);
    assert_eq!(out[0].role, "user");
    assert!(out[0].content.contains("What is this?"));
    assert!(out[0].content.contains("[Unsupported:"));
}

#[test]
fn test_translate_document_filtered() {
    let msg = blocks(
        "user",
        vec![InputContentBlock::Document {
            source: DocumentSource {
                source_type: "base64".to_string(),
                media_type: "application/pdf".to_string(),
                data: "cGRm".to_string(),
            },
        }],
    );
    let mut out = Vec::new();
    translate_message(&msg, &mut out);
    assert_eq!(out.len(), 1);
    assert!(out[0].content.contains("[Unsupported:"));
}

fn call(name: &str) -> OllamaToolCall {
    OllamaToolCall {
        function: OllamaFunctionCall { name: name.to_string(), arguments: object(vec![]) },
    }
}

#[test]
fn test_stop_reason_with_tool_calls() {
    // When tool_calls are present, stop_reason should be ToolUse
    // regardless of done_reason
    let resp = OllamaChatResponse {
        message: OllamaResponseMessage {
            content: String::new(),
            tool_calls: Some(vec![call("test")]),
        },
        done_reason: Some("stop".to_string()),
        prompt_eval_count: None,
        eval_count: None,
    };
    let response = ollama(None).complete(resp);
    assert!(matches!(response.stop_reason, StopReason::ToolUse));
    assert_eq!(response.tool_calls[0].id, "ollama_tool_0");
    assert_eq!(response.content_blocks.len(), 1);
}

#[test]
fn test_stop_reason_length() {
    // done_reason "length" → MaxTokens
    let done_reason = Some("length".to_string());
    assert!(matches!(stop_reason_named(&done_reason), StopReason::MaxTokens));
}

#[test]
fn test_stop_reason_unknown() {
    let done_reason = Some("load".to_string());
    assert!(matches!(stop_reason_named(&done_reason), StopReason::Other(s) if s == "load"));
}

#[test]
fn test_synthesized_tool_ids() {
    let tcs = vec![call("tool_a"), call("tool_b")];
    let tool_calls = number_calls(&tcs);
    assert_eq!(tool_calls[0].id, "ollama_tool_0");
    assert_eq!(tool_calls[0].name, "tool_a");
    assert_eq!(tool_calls[1].id, "ollama_tool_1");
    assert_eq!(tool_calls[1].name, "tool_b");
}

#[test]
fn stop_reasons_are_named() {
    let named = |s: &str| anthropic_stop_reason(&Some(s.to_string()));
    assert!(matches!(named("end_turn"), StopReason::EndTurn));
    assert!(matches!(named("tool_use"), StopReason::ToolUse));
    assert!(matches!(named("max_tokens"), StopReason::MaxTokens));
    assert!(matches!(named("pause"), StopReason::Other(s) if s == "pause"));
    assert!(matches!(anthropic_stop_reason(&None), StopReason::EndTurn));
    assert!(matches!(stop_reason_named(&None), StopReason::EndTurn));
    assert!(matches!(stop_reason_named(&Some("stop".to_string())), StopReason::EndTurn));
}

#[test]
fn answers_are_put_together() {
    let response = anthropic().complete(MessagesResponse {
        content: vec![
            ResponseContentBlock::Text { text: "a".to_string() },
            ResponseContentBlock::ToolUse {
                id: "t1".to_string(),
                name: "search".to_string(),
                input: string("q"),
            },
            ResponseContentBlock::Text { text: "b".to_string() },
        ],
        stop_reason: Some("tool_use".to_string()),
        usage: Some(Usage { input_tokens: 3, output_tokens: 4 }),
    });
    assert_eq!(response.text, "a\nb");
    assert_eq!(response.tool_calls.len(), 1);
    assert_eq!(response.tool_calls[0].input, string("q"));
    assert_eq!(response.content_blocks.len(), 3);
    assert_eq!((response.input_tokens, response.output_tokens), (3, 4));
    let empty =
        anthropic().complete(MessagesResponse { content: vec![], stop_reason: None, usage: None });
    assert_eq!(empty.text, "");
    assert_eq!((empty.input_tokens, empty.output_tokens), (0, 0));
}

#[test]
fn requests_carry_the_system_prompt_and_the_tools() {
    let messages = vec![Message { role: "user".to_string(), content: "hi".into() }];
    let tools = vec![ToolDefinition {
        name: "n".to_string(),
        description: "d".to_string(),
        input_schema: Value::Null,
    }];
    let a = anthropic().request("sys", &messages, Some(&tools));
    assert_eq!(a.system, "sys");
    assert_eq!(a.model, "haiku");
    assert_eq!(a.max_tokens, 100);
    assert_eq!(a.tools.unwrap().len(), 1);
    assert!(anthropic().request("sys", &messages, None).tools.is_none());
    let o = ollama(None).request("sys", &messages, Some(&tools));
    assert_eq!(o.messages.len(), 2);
    assert_eq!(o.messages[0].role, "system");
    assert_eq!(o.messages[0].content, "sys");
    assert_eq!(o.options.num_predict, 4096);
    assert!(!o.stream);
    assert_eq!(o.tools.unwrap()[0].function.name, "n");
}

#[test]
fn errors_name_the_product_and_the_status() {
    assert_eq!(
        api_error("Anthropic", "401 Unauthorized", "no key"),
        "Anthropic API error (401 Unauthorized): no key"
    );
    assert_eq!(
        fluux_agent::llm::ollama::api_error("500", "oops"),
        "Ollama API error (500): oops"
    );
}

#[test]
fn an_ollama_response_is_sent_back_as_it_came() {
    let client = ollama(None);
    let call = |name: &str| OllamaToolCall {
        function: OllamaFunctionCall { name: name.to_string(), arguments: Value::Null },
    };
    let response = client.complete(OllamaChatResponse {
        message: OllamaResponseMessage {
            content: "Let me look.".to_string(),
            tool_calls: Some(vec![call("a"), call("b")]),
        },
        done_reason: Some("stop".to_string()),
        prompt_eval_count: None,
        eval_count: None,
    });
    assert_ne!(response.tool_calls[0].id, response.tool_calls[1].id);
    let mut out = vec![];
    let said = Message {
        role: "assistant".to_string(),
        content: MessageContent::Blocks(response.content_blocks),
    };
    translate_message(&said, &mut out);
    assert_eq!(out.len(), 1);
    assert_eq!(out[0].content, "Let me look.");
    let names: Vec<&str> =
        out[0].tool_calls.as_ref().unwrap().iter().map(|c| c.function.name.as_str()).collect();
    assert_eq!(names, vec!["a", "b"]);
}

#[test]
fn a_response_that_did_not_stop_for_tools_calls_none() {
    let response = anthropic().complete(MessagesResponse {
        content: vec![ResponseContentBlock::ToolUse {
            id: "t1".to_string(),
            name: "search".to_string(),
            input: string("q"),
        }],
        stop_reason: Some("max_tokens".to_string()),
        usage: None,
    });
    assert!(matches!(response.stop_reason, StopReason::MaxTokens));
    assert!(response.tool_calls.is_empty());
    assert_eq!(response.content_blocks.len(), 1);
}

#[test]
fn an_image_beside_a_tool_result_leaves_a_note() {
    let msg = blocks(
        "user",
        vec![
            InputContentBlock::ToolResult {
                tool_use_id: "tool_1".to_string(),
                content: "Found it.".to_string(),
            },
            InputContentBlock::Text { text: "And this:".to_string() },
            InputContentBlock::Image {
                source: ImageSource {
                    source_type: "base64".to_string(),
                    media_type: "image/png".to_string(),
                    data: "AAAA".to_string(),
                },
            },
        ],
    );
    let mut out = Vec::new();
    translate_message(&msg, &mut out);
    assert_eq!(out.len(), 2);
    assert_eq!((out[0].role.as_str(), out[0].content.as_str()), ("tool", "Found it."));
    assert_eq!(out[1].role, "user");
    assert_eq!(out[1].content, "And this:\n[Unsupported: image/document content omitted]");
    assert!(out[1].tool_calls.is_none());
}
