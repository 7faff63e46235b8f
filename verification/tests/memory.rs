//! Tests of what the agent keeps.

use fluux_agent::agent::entries::{
    build_display_content, build_message_for_llm, parse_session, session_lines, Attachment,
    Reaction, SessionEntry, SessionLine,
};
use fluux_agent::agent::memory::{KnowledgeLine, Memory};
use fluux_agent::llm::types::MessageContent;
use fluux_agent::time::Duration;
use serde_json::Value;

fn text(content: &MessageContent) -> &str {
    match content {
        MessageContent::Text(s) => s.as_str(),
        MessageContent::Blocks(_) => panic!("Expected Text, got Blocks"),
    }
}

fn field(v: &Value, name: &str) -> Option<String> {
    v.get(name).and_then(|f| f.as_str()).map(|s| s.to_string())
}

fn entry(line: &str) -> Option<SessionEntry> {
    let v: Value = serde_json::from_str(line).ok()?;
    match v.get("type")?.as_str()? {
        "session" => Some(SessionEntry::Header {
            version: v.get("version")?.as_u64()? as u32,
            created: field(&v, "created")?,
            jid: field(&v, "jid")?,
        }),
        "message" => Some(SessionEntry::Message {
            role: field(&v, "role")?,
            content: field(&v, "content")?,
            msg_id: field(&v, "msg_id"),
            sender: field(&v, "sender"),
            ts: field(&v, "ts"),
            attachments: None,
            reaction: None,
        }),
        _ => None,
    }
}

fn lines(content: &str) -> Vec<SessionLine> {
    session_lines(content)
        .iter()
        .map(|l| match entry(l) {
            Some(e) => SessionLine::Entry(e),
            None => SessionLine::Unreadable(l.clone()),
        })
        .collect()
}

fn stored<'a>(memory: &'a Memory, jid: &str) -> &'a Vec<SessionLine> {
    memory.users.get(jid).unwrap().history.as_ref().unwrap()
}

fn add_files(memory: &mut Memory, jid: &str, names: &[&str]) {
    let mut user = memory.users.remove(jid).unwrap();
    let files = user.files.as_mut().unwrap();
    for n in names {
        files.push(n.to_string());
    }
    memory.users.insert(jid.to_string(), user);
}

#[test]
fn test_store_and_retrieve() {
    let mut memory = Memory::open("memory".to_string());

    memory.store_message("user@test", "user", "Hello!");
    memory.store_message("user@test", "assistant", "Hi there!");

    let history = memory.get_history("user@test", 10);
    assert_eq!(history.len(), 2);
    assert_eq!(history[0].role, "user");
    // 1:1 sender is not prefixed (not MUC)
    assert_eq!(text(&history[0].content), "Hello!");
    assert_eq!(history[1].role, "assistant");
    assert_eq!(text(&history[1].content), "Hi there!");
}

#[test]
fn test_history_limit() {
    let mut memory = Memory::open("memory".to_string());

    for i in 0..10 {
        memory.store_message("user@test", "user", &format!("Message {i}"));
    }

    let history = memory.get_history("user@test", 3);
    assert_eq!(history.len(), 3);
    // 1:1 sender not prefixed
    assert_eq!(text(&history[0].content), "Message 7");
    assert_eq!(text(&history[2].content), "Message 9");
}

#[test]
fn test_user_context() {
    let mut memory = Memory::open("memory".to_string());

    assert!(memory.get_user_context("user@test").is_none());

    memory.set_user_context("user@test", "Prefers concise answers.");
    let ctx = memory.get_user_context("user@test");
    assert_eq!(ctx.unwrap(), "Prefers concise answers.");

    // Update overwrites
    memory.set_user_context("user@test", "Prefers detailed answers.");
    let ctx = memory.get_user_context("user@test");
    assert_eq!(ctx.unwrap(), "Prefers detailed answers.");
}

#[test]
fn test_user_profile_fallback_from_context_md() {
    let mut memory = Memory::open("memory".to_string());

    // Write a legacy context.md directly
    let jid = "user@test";
    memory.set_user_file(jid, "context.md", "Legacy context data");

    // get_user_profile should find it via fallback
    let profile = memory.get_user_profile("user@test");
    assert_eq!(profile.unwrap(), "Legacy context data");
}

#[test]
fn test_user_profile_prefers_user_md_over_context_md() {
    let mut memory = Memory::open("memory".to_string());

    // Write both user.md and context.md
    let jid = "user@test";
    memory.set_user_file(jid, "context.md", "Old context");
    memory.set_user_file(jid, "user.md", "New user profile");

    // user.md should take precedence
    let profile = memory.get_user_profile("user@test");
    assert_eq!(profile.unwrap(), "New user profile");
}

#[test]
fn test_has_user_profile() {
    let mut memory = Memory::open("memory".to_string());

    assert!(!memory.has_user_profile("user@test"));

    memory.set_user_profile("user@test", "Something");
    assert!(memory.has_user_profile("user@test"));
}

#[test]
fn test_set_and_get_user_memory() {
    let mut memory = Memory::open("memory".to_string());

    assert!(memory.get_user_memory("user@test").is_none());

    memory.set_user_memory("user@test", "Likes Rust and coffee");

    let mem = memory.get_user_memory("user@test");
    assert_eq!(mem.unwrap(), "Likes Rust and coffee");
}

#[test]
fn test_get_global_file_exists() {
    let mut memory = Memory::open("memory".to_string());

    memory.set_global_file("instructions.md", "Be helpful and concise.");

    let content = memory.get_global_file("instructions.md");
    assert_eq!(content.unwrap(), "Be helpful and concise.");
}

#[test]
fn test_get_global_file_missing() {
    let memory = Memory::open("memory".to_string());

    assert!(memory.get_global_file("instructions.md").is_none());
}

#[test]
fn test_get_global_file_empty() {
    let mut memory = Memory::open("memory".to_string());

    memory.set_global_file("instructions.md", "  \n  ");

    assert!(memory.get_global_file("instructions.md").is_none());
}

#[test]
fn test_workspace_context_all_files() {
    let mut memory = Memory::open("memory".to_string());

    // Create global files
    memory.set_global_file("instructions.md", "Be concise");
    memory.set_global_file("identity.md", "I am Fluux Agent");
    memory.set_global_file("personality.md", "Friendly and direct");

    // Create per-JID files
    memory.set_user_profile("user@test", "Developer at Acme");
    memory.set_user_memory("user@test", "Prefers Rust over Go");

    let ctx = memory.get_workspace_context("user@test");
    assert_eq!(ctx.instructions.unwrap(), "Be concise");
    assert_eq!(ctx.identity.unwrap(), "I am Fluux Agent");
    assert_eq!(ctx.personality.unwrap(), "Friendly and direct");
    assert_eq!(ctx.user_profile.unwrap(), "Developer at Acme");
    assert_eq!(ctx.user_memory.unwrap(), "Prefers Rust over Go");
}

#[test]
fn test_workspace_context_no_files() {
    let memory = Memory::open("memory".to_string());

    let ctx = memory.get_workspace_context("user@test");
    assert!(ctx.instructions.is_none());
    assert!(ctx.identity.is_none());
    assert!(ctx.personality.is_none());
    assert!(ctx.user_profile.is_none());
    assert!(ctx.user_memory.is_none());
}

#[test]
fn test_message_count() {
    let mut memory = Memory::open("memory".to_string());

    assert_eq!(memory.message_count("user@test"), 0);

    memory.store_message("user@test", "user", "One");
    memory.store_message("user@test", "assistant", "Two");
    memory.store_message("user@test", "user", "Three");

    assert_eq!(memory.message_count("user@test"), 3);
}

#[test]
fn test_new_session_archives_history() {
    let mut memory = Memory::open("memory".to_string());

    // Build a conversation
    memory.store_message("user@test", "user", "Hello!");
    memory.store_message("user@test", "assistant", "Hi!");
    assert_eq!(memory.message_count("user@test"), 2);

    // Start new session
    let result = memory.new_session("user@test");
    assert!(result.contains("2 messages"));
    assert!(result.contains("archived"));

    // Current history is now empty
    assert_eq!(memory.message_count("user@test"), 0);
    let history = memory.get_history("user@test", 10);
    assert!(history.is_empty());

    // Archived session exists
    assert_eq!(memory.session_count("user@test"), 1);

    // Can start a new conversation
    memory.store_message("user@test", "user", "Fresh start!");
    let history = memory.get_history("user@test", 10);
    assert_eq!(history.len(), 1);
    assert_eq!(text(&history[0].content), "Fresh start!");
}

#[test]
fn test_new_session_empty_noop() {
    let mut memory = Memory::open("memory".to_string());

    // No history at all
    let result = memory.new_session("user@test");
    assert!(result.contains("No active session"));

    // Create and immediately archive
    memory.store_message("user@test", "user", "Hi");
    memory.new_session("user@test");

    // Second archive with empty session
    let result = memory.new_session("user@test");
    assert!(result.contains("No active session") || result.contains("already empty"));
}

#[test]
fn test_forget_erases_active_memory() {
    let mut memory = Memory::open("memory".to_string());

    memory.store_message("user@test", "user", "Hello!");
    memory.set_user_context("user@test", "Likes coffee");

    let result = memory.forget("user@test");
    assert!(result.contains("1 messages"));
    assert!(result.contains("profile") || result.contains("context"));

    // History and context are gone
    assert_eq!(memory.message_count("user@test"), 0);
    assert!(memory.get_user_context("user@test").is_none());
}

#[test]
fn test_forget_erases_user_md_and_memory_md() {
    let mut memory = Memory::open("memory".to_string());

    memory.store_message("user@test", "user", "Hello!");
    memory.set_user_profile("user@test", "Developer");
    memory.set_user_memory("user@test", "Likes Rust");

    let result = memory.forget("user@test");
    assert!(result.contains("1 messages"));
    assert!(result.contains("user profile"));
    assert!(result.contains("memory"));

    // All active memory is gone
    assert_eq!(memory.message_count("user@test"), 0);
    assert!(memory.get_user_profile("user@test").is_none());
    assert!(memory.get_user_memory("user@test").is_none());
}

#[test]
fn test_forget_preserves_archives() {
    let mut memory = Memory::open("memory".to_string());

    // Create and archive a session
    memory.store_message("user@test", "user", "Old");
    memory.new_session("user@test");
    assert_eq!(memory.session_count("user@test"), 1);

    // New session + context
    memory.store_message("user@test", "user", "New");
    memory.set_user_context("user@test", "Some context");

    // Forget
    memory.forget("user@test");

    // Archives still exist
    assert_eq!(memory.session_count("user@test"), 1);
}

#[test]
fn test_forget_nothing() {
    let mut memory = Memory::open("memory".to_string());

    let result = memory.forget("nobody@test");
    assert!(result.contains("No memory"));
}

#[test]
fn test_jid_isolation() {
    let mut memory = Memory::open("memory".to_string());

    memory.store_message("alice@test", "user", "Alice's message");
    memory.set_user_profile("alice@test", "Alice's profile");

    memory.store_message("bob@test", "user", "Bob's message");
    memory.set_user_profile("bob@test", "Bob's profile");

    // Each JID sees only their own data
    let alice_history = memory.get_history("alice@test", 10);
    assert_eq!(alice_history.len(), 1);
    assert_eq!(text(&alice_history[0].content), "Alice's message");

    let bob_history = memory.get_history("bob@test", 10);
    assert_eq!(bob_history.len(), 1);
    assert_eq!(text(&bob_history[0].content), "Bob's message");

    assert_eq!(
        memory.get_user_profile("alice@test").unwrap(),
        "Alice's profile"
    );
    assert_eq!(
        memory.get_user_profile("bob@test").unwrap(),
        "Bob's profile"
    );
}

#[test]
fn test_muc_history_multiple_participants() {
    let mut memory = Memory::open("memory".to_string());

    let room = "dev@conference.localhost";
    memory.store_message_with_jid(room, "user", "Anyone around?", Some("alice@muc"));
    memory.store_message_with_jid(room, "user", "I'm here", Some("bob@muc"));
    memory.store_message_with_jid(room, "user", "@bot help us", Some("alice@muc"));
    memory.store_message(room, "assistant", "How can I help?");

    let history = memory.get_history(room, 20);
    assert_eq!(history.len(), 4);
    // All participant messages are role "user" (labels stripped)
    assert_eq!(history[0].role, "user");
    assert_eq!(history[1].role, "user");
    assert_eq!(history[2].role, "user");
    assert_eq!(history[3].role, "assistant");
}

#[test]
fn test_workspace_context_per_jid_override_all() {
    let mut memory = Memory::open("memory".to_string());

    // Create global files
    memory.set_global_file("instructions.md", "Global instructions");
    memory.set_global_file("identity.md", "Global identity");
    memory.set_global_file("personality.md", "Global personality");

    // Create per-room overrides
    let room = "lobby@conference.localhost";
    memory.set_user_file(room, "instructions.md", "Room instructions");
    memory.set_user_file(room, "identity.md", "Room identity");
    memory.set_user_file(room, "personality.md", "Room personality");

    // Room context should use per-room files
    let ctx = memory.get_workspace_context(room);
    assert_eq!(ctx.instructions.unwrap(), "Room instructions");
    assert_eq!(ctx.identity.unwrap(), "Room identity");
    assert_eq!(ctx.personality.unwrap(), "Room personality");

    // Other JID should still get global files
    let ctx2 = memory.get_workspace_context("user@localhost");
    assert_eq!(ctx2.instructions.unwrap(), "Global instructions");
    assert_eq!(ctx2.identity.unwrap(), "Global identity");
    assert_eq!(ctx2.personality.unwrap(), "Global personality");
}

#[test]
fn test_workspace_context_partial_override() {
    let mut memory = Memory::open("memory".to_string());

    // Create global files
    memory.set_global_file("instructions.md", "Global instructions");
    memory.set_global_file("identity.md", "Global identity");
    memory.set_global_file("personality.md", "Global personality");

    // Override only instructions for a room
    let room = "support@conference.localhost";
    memory.set_user_file(room, "instructions.md", "Support room rules");

    let ctx = memory.get_workspace_context(room);
    assert_eq!(ctx.instructions.unwrap(), "Support room rules");
    assert_eq!(ctx.identity.unwrap(), "Global identity");
    assert_eq!(ctx.personality.unwrap(), "Global personality");
}

#[test]
fn test_workspace_context_empty_override_falls_back_to_global() {
    let mut memory = Memory::open("memory".to_string());

    // Create global file
    memory.set_global_file("identity.md", "Global identity");

    // Create empty per-room override (should be ignored)
    let room = "dev@conference.localhost";
    memory.set_user_file(room, "identity.md", "   \n  ");

    let ctx = memory.get_workspace_context(room);
    assert_eq!(ctx.identity.unwrap(), "Global identity");
}

#[test]
fn test_workspace_context_per_user_override() {
    let mut memory = Memory::open("memory".to_string());

    // Create global identity
    memory.set_global_file("identity.md", "I am a helpful assistant");

    // Per-user identity override for a specific JID
    let jid = "vip@localhost";
    memory.set_user_file(jid, "identity.md", "I am your personal concierge");

    let ctx = memory.get_workspace_context(jid);
    assert_eq!(ctx.identity.unwrap(), "I am your personal concierge");

    // Other user still gets global
    let ctx2 = memory.get_workspace_context("other@localhost");
    assert_eq!(ctx2.identity.unwrap(), "I am a helpful assistant");
}

#[test]
fn test_workspace_context_override_with_no_global() {
    let mut memory = Memory::open("memory".to_string());

    // No global files at all — per-room file still works
    let room = "lab@conference.localhost";
    memory.set_user_file(room, "instructions.md", "Lab-specific rules");

    let ctx = memory.get_workspace_context(room);
    assert_eq!(ctx.instructions.unwrap(), "Lab-specific rules");
    assert!(ctx.identity.is_none());
    assert!(ctx.personality.is_none());
}

#[test]
fn test_file_count_empty() {
    let memory = Memory::open("memory".to_string());

    assert_eq!(memory.file_count("user@test"), 0);
}

#[test]
fn test_room_jid_uses_same_structure() {
    let mut memory = Memory::open("memory".to_string());

    let room_jid = "devroom@conference.example.com";

    // store_message uses jid as sender for user messages
    memory.store_message(room_jid, "user", "Hello room!");
    memory.set_user_profile(room_jid, "Development discussion room");
    memory.set_user_memory(room_jid, "Active project: Fluux Agent");

    let history = memory.get_history(room_jid, 10);
    assert_eq!(history.len(), 1);
    // store_message uses room JID as sender, but it's not a MUC nick
    // (no @muc suffix), so no prefix is added for the LLM
    assert_eq!(text(&history[0].content), "Hello room!");

    assert_eq!(
        memory.get_user_profile(room_jid).unwrap(),
        "Development discussion room"
    );
    assert_eq!(
        memory.get_user_memory(room_jid).unwrap(),
        "Active project: Fluux Agent"
    );
}

#[test]
fn test_parse_session_basic() {
    let content = r#"{"type":"session","version":1,"created":"2025-02-08T19:00:00Z","jid":"alice@example.com"}
{"type":"message","role":"user","content":"Hello!","sender":"alice@example.com","ts":"2025-02-08T19:00:01Z"}
{"type":"message","role":"assistant","content":"Hi there!","ts":"2025-02-08T19:00:02Z"}"#;

    let messages = parse_session(&lines(content));
    assert_eq!(messages.len(), 2);
    assert_eq!(messages[0].role, "user");
    // 1:1 sender not prefixed (not @muc)
    assert_eq!(text(&messages[0].content), "Hello!");
    assert_eq!(messages[1].role, "assistant");
    assert_eq!(text(&messages[1].content), "Hi there!");
}

#[test]
fn test_parse_session_with_msg_id() {
    let content = r#"{"type":"session","version":1,"created":"2025-02-08T19:00:00Z","jid":"alice@example.com"}
{"type":"message","role":"user","content":"Hello!","msg_id":"abc-123","sender":"alice@example.com"}
{"type":"message","role":"assistant","content":"Hi there!","msg_id":"def-456"}"#;

    let messages = parse_session(&lines(content));
    assert_eq!(messages.len(), 2);
    // msg_id is runtime metadata — not visible to LLM
    // 1:1 sender not prefixed
    assert_eq!(text(&messages[0].content), "Hello!");
    assert_eq!(text(&messages[1].content), "Hi there!");
}

#[test]
fn test_parse_session_reaction() {
    let content = r#"{"type":"message","role":"user","content":"Hello!","msg_id":"abc-123","sender":"alice@example.com"}
{"type":"message","role":"assistant","content":"Hi there!","msg_id":"def-456"}
{"type":"message","role":"user","content":"[Reacted to msg_id: def-456 with 👍]","sender":"alice@example.com"}"#;

    let messages = parse_session(&lines(content));
    assert_eq!(messages.len(), 3);
    // Reaction text contains the target msg_id naturally
    assert_eq!(
        text(&messages[2].content),
        "[Reacted to msg_id: def-456 with 👍]"
    );
}

#[test]
fn test_parse_session_muc_multiple_senders() {
    let content = r#"{"type":"session","version":1,"created":"2025-02-08T19:00:00Z","jid":"room@conference.localhost"}
{"type":"message","role":"user","content":"Anyone around?","sender":"alice@muc"}
{"type":"message","role":"user","content":"I'm here","sender":"bob@muc"}
{"type":"message","role":"assistant","content":"Hi everyone!"}"#;

    let messages = parse_session(&lines(content));
    assert_eq!(messages.len(), 3);
    // MUC senders get text prefix for participant attribution
    assert_eq!(text(&messages[0].content), "alice@muc: Anyone around?");
    assert_eq!(text(&messages[1].content), "bob@muc: I'm here");
    assert_eq!(text(&messages[2].content), "Hi everyone!");
}

#[test]
fn test_parse_session_empty_content_skipped() {
    let content = r#"{"type":"message","role":"user","content":"Hello!"}
{"type":"message","role":"user","content":""}
{"type":"message","role":"assistant","content":"Hi!"}"#;

    let messages = parse_session(&lines(content));
    assert_eq!(messages.len(), 2);
    assert_eq!(text(&messages[0].content), "Hello!");
    assert_eq!(text(&messages[1].content), "Hi!");
}

#[test]
fn test_parse_session_empty_input() {
    let messages = parse_session(&lines(""));
    assert!(messages.is_empty());
}

#[test]
fn test_parse_session_malformed_lines_ignored() {
    let content = r#"{"type":"message","role":"user","content":"Hello!"}
not valid json
{"type":"message","role":"assistant","content":"Hi!"}"#;

    let messages = parse_session(&lines(content));
    assert_eq!(messages.len(), 2);
}

#[test]
fn test_parse_session_no_optional_fields() {
    let content =
        r#"{"type":"message","role":"user","content":"Hello!"}"#;

    let messages = parse_session(&lines(content));
    assert_eq!(messages.len(), 1);
    assert_eq!(messages[0].role, "user");
    assert_eq!(text(&messages[0].content), "Hello!");
}

#[test]
fn test_get_history_reconstructs_attachment_labels() {
    let mut memory = Memory::open("memory".to_string());

    let atts = vec![Attachment {
        filename: "photo.png".to_string(),
        mime_type: "image/png".to_string(),
        size: "926KB".to_string(),
    }];

    memory.store_message_full(
            "user@test",
            "user",
            "What is this?",
            None,
            Some("user@test"),
            Some(atts),
            None,
        );

    let history = memory.get_history("user@test", 10);
    assert_eq!(history.len(), 1);
    // LLM sees attachment as JSON metadata + text content
    let msg_text = text(&history[0].content);
    assert!(msg_text.contains(r#""filename":"photo.png""#));
    assert!(msg_text.contains(r#""mime_type":"image/png""#));
    assert!(msg_text.contains("What is this?"));
}

#[test]
fn test_get_history_attachment_only_no_body() {
    let mut memory = Memory::open("memory".to_string());

    let atts = vec![Attachment {
        filename: "photo.png".to_string(),
        mime_type: "image/png".to_string(),
        size: "500KB".to_string(),
    }];

    memory.store_message_full("user@test", "user", "", None, Some("user@test"), Some(atts), None);

    let history = memory.get_history("user@test", 10);
    assert_eq!(history.len(), 1);
    let msg_text = text(&history[0].content);
    assert!(msg_text.contains(r#""filename":"photo.png""#));
    assert!(msg_text.contains(r#""size":"500KB""#));
}

#[test]
fn test_build_display_content_no_metadata() {
    let result = build_display_content("Hello!", &None, &None);
    assert_eq!(result, "Hello!");
}

#[test]
fn test_build_display_content_with_attachments_and_text() {
    let atts = Some(vec![
        Attachment {
            filename: "a.jpg".to_string(),
            mime_type: "image/jpeg".to_string(),
            size: "200KB".to_string(),
        },
        Attachment {
            filename: "b.pdf".to_string(),
            mime_type: "application/pdf".to_string(),
            size: "1MB".to_string(),
        },
    ]);
    let result = build_display_content("Check these", &atts, &None);
    // Attachments serialized as JSON, then text content
    assert!(result.contains(r#""filename":"a.jpg""#));
    assert!(result.contains(r#""filename":"b.pdf""#));
    assert!(result.ends_with("Check these"));
}

#[test]
fn test_build_display_content_reaction() {
    let reaction = Some(Reaction {
        message_id: "msg-001".to_string(),
        emojis: vec!["👍".to_string()],
    });
    let result = build_display_content("", &None, &reaction);
    assert!(result.contains(r#""message_id":"msg-001""#));
    assert!(result.contains(r#""emojis":["👍"]"#));
}

#[test]
fn test_build_display_content_empty() {
    let result = build_display_content("", &None, &None);
    assert_eq!(result, "");
}

#[test]
fn test_store_message_structured_with_msg_id() {
    let mut memory = Memory::open("memory".to_string());

    memory.store_message_structured(
            "user@test",
            "user",
            "Hello!",
            Some("abc-123"),
            Some("user@test"),
        );
    memory.store_message_structured(
            "user@test",
            "assistant",
            "Hi there!",
            Some("def-456"),
            None,
        );

    let history = memory.get_history("user@test", 10);
    assert_eq!(history.len(), 2);
    // msg_id not visible to LLM; 1:1 sender not prefixed
    assert_eq!(text(&history[0].content), "Hello!");
    assert_eq!(text(&history[1].content), "Hi there!");
}

#[test]
fn test_store_message_structured_reaction_roundtrip() {
    let mut memory = Memory::open("memory".to_string());

    // Store original message with msg_id
    memory.store_message_structured(
            "user@test",
            "user",
            "Hello!",
            Some("msg-001"),
            Some("alice@test"),
        );

    // Store reaction as structured metadata (empty content)
    let reaction = Reaction {
        message_id: "msg-001".to_string(),
        emojis: vec!["👍".to_string()],
    };
    memory.store_message_full(
            "user@test",
            "user",
            "",
            None,
            Some("alice@test"),
            None,
            Some(reaction),
        );

    let history = memory.get_history("user@test", 10);
    assert_eq!(history.len(), 2);
    assert_eq!(text(&history[0].content), "Hello!");
    // Reaction reconstructed from structured metadata as JSON
    let reaction_text = text(&history[1].content);
    assert!(reaction_text.contains(r#""message_id":"msg-001""#));
    assert!(reaction_text.contains(r#""emojis":["👍"]"#));
}

#[test]
fn test_build_message_for_llm_no_sender() {
    let msg = build_message_for_llm("user".to_string(), "Hello!".to_string(), None);
    assert_eq!(msg.role, "user");
    assert_eq!(text(&msg.content), "Hello!");
}

#[test]
fn test_build_message_for_llm_with_muc_sender() {
    let msg = build_message_for_llm(
        "user".to_string(),
        "Hello!".to_string(),
        Some("alice@muc"),
    );
    assert_eq!(msg.role, "user");
    assert_eq!(text(&msg.content), "alice@muc: Hello!");
}

#[test]
fn test_build_message_for_llm_assistant_no_sender() {
    let msg = build_message_for_llm("assistant".to_string(), "Hi there!".to_string(), None);
    assert_eq!(msg.role, "assistant");
    assert_eq!(text(&msg.content), "Hi there!");
}

#[test]
fn test_build_message_for_llm_empty_content_with_sender() {
    let msg = build_message_for_llm("user".to_string(), "".to_string(), Some("nick@muc"));
    assert_eq!(text(&msg.content), "nick@muc: ");
}

#[test]
fn test_build_message_for_llm_content_with_colon() {
    // Content that itself contains "sender: " pattern should not be confused
    let msg = build_message_for_llm(
        "user".to_string(),
        "alice@muc: says hello".to_string(),
        Some("bob@muc"),
    );
    assert_eq!(text(&msg.content), "bob@muc: alice@muc: says hello");
}

#[test]
fn test_parse_session_muc_sender_prefixed() {
    let content = r#"{"type":"message","role":"user","content":"Hey","sender":"nick@muc"}"#;
    let messages = parse_session(&lines(content));
    assert_eq!(text(&messages[0].content), "nick@muc: Hey");
}

#[test]
fn test_parse_session_non_muc_sender_not_prefixed() {
    let content =
        r#"{"type":"message","role":"user","content":"Hey","sender":"alice@example.com"}"#;
    let messages = parse_session(&lines(content));
    assert_eq!(text(&messages[0].content), "Hey");
}

#[test]
fn test_parse_session_sender_containing_muc_but_not_ending() {
    // "alice@muc.server" should NOT be treated as a MUC sender
    let content =
        r#"{"type":"message","role":"user","content":"Hey","sender":"alice@muc.server"}"#;
    let messages = parse_session(&lines(content));
    assert_eq!(text(&messages[0].content), "Hey");
}

#[test]
fn test_parse_session_no_sender_field() {
    let content = r#"{"type":"message","role":"user","content":"Hey"}"#;
    let messages = parse_session(&lines(content));
    assert_eq!(text(&messages[0].content), "Hey");
}

#[test]
fn test_parse_session_assistant_with_msg_id_no_prefix() {
    // Assistant messages never get sender prefix
    let content = r#"{"type":"message","role":"assistant","content":"Reply","msg_id":"out-001"}"#;
    let messages = parse_session(&lines(content));
    assert_eq!(text(&messages[0].content), "Reply");
}

#[test]
fn test_parse_session_whitespace_lines_skipped() {
    let content = "  \n\t\n{\"type\":\"message\",\"role\":\"user\",\"content\":\"Hey\"}\n  \n";
    let messages = parse_session(&lines(content));
    assert_eq!(messages.len(), 1);
    assert_eq!(text(&messages[0].content), "Hey");
}

#[test]
fn test_parse_session_mixed_muc_and_non_muc() {
    // Realistic MUC session: participants have @muc, assistant does not
    let content = r#"{"type":"session","version":1,"created":"2025-02-08T19:00:00Z","jid":"room@conference.localhost"}
{"type":"message","role":"user","content":"Question?","sender":"alice@muc"}
{"type":"message","role":"assistant","content":"Answer!","msg_id":"out-001"}
{"type":"message","role":"user","content":"Thanks","sender":"bob@muc"}
{"type":"message","role":"user","content":"[Reacted to msg_id: out-001 with 👍]","sender":"alice@muc"}"#;

    let messages = parse_session(&lines(content));
    assert_eq!(messages.len(), 4);
    assert_eq!(text(&messages[0].content), "alice@muc: Question?");
    assert_eq!(text(&messages[1].content), "Answer!");
    assert_eq!(text(&messages[2].content), "bob@muc: Thanks");
    assert_eq!(
        text(&messages[3].content),
        "alice@muc: [Reacted to msg_id: out-001 with 👍]"
    );
}

#[test]
fn test_knowledge_store_and_get() {
    let mut memory = Memory::open("memory".to_string());
    let jid = "alice@example.com";

    memory.knowledge_store(jid, "language", "Rust");
    let result = memory.knowledge_get(jid, "language");
    assert_eq!(result, Some("Rust".to_string()));
}

#[test]
fn test_knowledge_store_overwrites() {
    let mut memory = Memory::open("memory".to_string());
    let jid = "alice@example.com";

    memory.knowledge_store(jid, "language", "Python");
    memory.knowledge_store(jid, "language", "Rust");

    let result = memory.knowledge_get(jid, "language");
    assert_eq!(result, Some("Rust".to_string()));

    // File should have only one entry (not two)
    assert_eq!(memory.knowledge_count(jid), 1);
}

#[test]
fn test_knowledge_get_nonexistent() {
    let memory = Memory::open("memory".to_string());
    let jid = "alice@example.com";

    let result = memory.knowledge_get(jid, "missing");
    assert_eq!(result, None);
}

#[test]
fn test_knowledge_search_by_keyword() {
    let mut memory = Memory::open("memory".to_string());
    let jid = "alice@example.com";

    memory.knowledge_store(jid, "language", "Prefers Rust over Go");
    memory.knowledge_store(jid, "timezone", "Europe/Paris");
    memory.knowledge_store(jid, "project", "Building a web server");

    let result = memory.knowledge_search(jid, "Rust");
    assert!(result.contains("language"));
    assert!(result.contains("Prefers Rust over Go"));
    assert!(!result.contains("timezone"));
}

#[test]
fn test_knowledge_search_case_insensitive() {
    let mut memory = Memory::open("memory".to_string());
    let jid = "alice@example.com";

    memory.knowledge_store(jid, "language", "Prefers Rust");

    let result = memory.knowledge_search(jid, "rust");
    assert!(result.contains("language"));
    assert!(result.contains("Prefers Rust"));

    let result = memory.knowledge_search(jid, "RUST");
    assert!(result.contains("language"));
}

#[test]
fn test_knowledge_search_empty_query_lists_all() {
    let mut memory = Memory::open("memory".to_string());
    let jid = "alice@example.com";

    memory.knowledge_store(jid, "language", "Rust");
    memory.knowledge_store(jid, "timezone", "UTC");

    let result = memory.knowledge_search(jid, "");
    assert!(result.contains("language"));
    assert!(result.contains("timezone"));
    assert!(result.contains("2 knowledge entries"));
}

#[test]
fn test_knowledge_search_no_results() {
    let mut memory = Memory::open("memory".to_string());
    let jid = "alice@example.com";

    memory.knowledge_store(jid, "language", "Rust");

    let result = memory.knowledge_search(jid, "python");
    assert!(result.contains("No knowledge entries found matching: python"));
}

#[test]
fn test_knowledge_jid_isolation() {
    let mut memory = Memory::open("memory".to_string());

    memory.knowledge_store("alice@example.com", "color", "blue");
    memory.knowledge_store("bob@example.com", "color", "red");

    let alice = memory.knowledge_get("alice@example.com", "color");
    let bob = memory.knowledge_get("bob@example.com", "color");

    assert_eq!(alice, Some("blue".to_string()));
    assert_eq!(bob, Some("red".to_string()));
}

#[test]
fn test_knowledge_room_jid_works() {
    let mut memory = Memory::open("memory".to_string());
    let room_jid = "room@conference.example.com";

    memory.knowledge_store(room_jid, "topic", "Rust development");
    let result = memory.knowledge_get(room_jid, "topic");
    assert_eq!(result, Some("Rust development".to_string()));
}

#[test]
fn test_forget_erases_knowledge() {
    let mut memory = Memory::open("memory".to_string());
    let jid = "alice@example.com";

    memory.knowledge_store(jid, "language", "Rust");
    assert_eq!(memory.knowledge_count(jid), 1);

    let result = memory.forget(jid);
    assert!(result.contains("knowledge"));

    assert_eq!(memory.knowledge_count(jid), 0);
    assert_eq!(memory.knowledge_get(jid, "language"), None);
}

#[test]
fn test_knowledge_count() {
    let mut memory = Memory::open("memory".to_string());
    let jid = "alice@example.com";

    assert_eq!(memory.knowledge_count(jid), 0);

    memory.knowledge_store(jid, "a", "1");
    assert_eq!(memory.knowledge_count(jid), 1);

    memory.knowledge_store(jid, "b", "2");
    assert_eq!(memory.knowledge_count(jid), 2);

    // Overwrite doesn't increase count
    memory.knowledge_store(jid, "a", "updated");
    assert_eq!(memory.knowledge_count(jid), 2);
}

#[test]
fn test_knowledge_search_no_entries() {
    let memory = Memory::open("memory".to_string());
    let jid = "alice@example.com";

    let result = memory.knowledge_search(jid, "anything");
    assert!(result.contains("No knowledge entries stored yet"));
}

#[test]
fn test_check_freshness_disabled_when_zero() {
    let mut memory = Memory::open("memory".to_string());

    memory.store_message("user@test", "user", "Hello");

    // Timeout of 0 means disabled — never archives
    let rotated = memory.check_session_freshness("user@test", 0, Duration::from_secs(0));
    assert!(!rotated);

    // Session still intact
    assert_eq!(memory.message_count("user@test"), 1);
}

#[test]
fn test_check_freshness_no_session() {
    let mut memory = Memory::open("memory".to_string());

    // No history file at all — should return false (no rotation)
    let rotated = memory.check_session_freshness("user@test", 60, Duration::from_secs(0));
    assert!(!rotated);
}

#[test]
fn test_check_freshness_fresh_session() {
    let mut memory = Memory::open("memory".to_string());

    memory.store_message("user@test", "user", "Hello");

    // Just created — should be fresh with a 60-minute timeout
    let rotated = memory.check_session_freshness("user@test", 60, Duration::from_secs(0));
    assert!(!rotated);

    // Session still intact
    assert_eq!(memory.message_count("user@test"), 1);
}

#[test]
fn test_check_freshness_stale_session_archives() {
    let mut memory = Memory::open("memory".to_string());

    memory.store_message("user@test", "user", "Hello");
    memory.store_message("user@test", "assistant", "Hi!");

    // With a 60-minute timeout, the session should be stale
    let rotated = memory.check_session_freshness("user@test", 60, Duration::from_secs(7200));
    assert!(rotated);

    // History should be empty (archived)
    assert_eq!(memory.message_count("user@test"), 0);

    // Archived session should exist
    assert_eq!(memory.session_count("user@test"), 1);
}

#[test]
fn test_check_freshness_not_stale_within_timeout() {
    let mut memory = Memory::open("memory".to_string());

    memory.store_message("user@test", "user", "Hello");

    // With a 60-minute timeout, 30 minutes of idle is still fresh
    let rotated = memory.check_session_freshness("user@test", 60, Duration::from_secs(1800));
    assert!(!rotated);

    // Session still intact
    assert_eq!(memory.message_count("user@test"), 1);
}

#[test]
fn test_check_freshness_new_session_works_after_archive() {
    let mut memory = Memory::open("memory".to_string());

    memory.store_message("user@test", "user", "Old message");

    // Auto-archive
    memory.check_session_freshness("user@test", 60, Duration::from_secs(7200));

    // Now store a new message — should start a fresh session
    memory.store_message("user@test", "user", "New message");

    let history = memory.get_history("user@test", 10);
    assert_eq!(history.len(), 1);
    assert_eq!(text(&history[0].content), "New message");

    // One archived session
    assert_eq!(memory.session_count("user@test"), 1);
}

#[test]
fn test_store_message_jsonl_format() {
    let mut memory = Memory::open("memory".to_string());

    memory.store_message("alice@example.com", "user", "Hello!");
    memory.store_message("alice@example.com", "assistant", "Hi!");

    let lines = stored(&memory, "alice@example.com");
    assert_eq!(lines.len(), 3);
    match &lines[0] {
        SessionLine::Entry(SessionEntry::Header { version, jid, .. }) => {
            assert_eq!(*version, 1);
            assert_eq!(jid, "alice@example.com");
        }
        _ => panic!("Expected a header"),
    }
    match &lines[1] {
        SessionLine::Entry(SessionEntry::Message { role, content, sender, .. }) => {
            assert_eq!(role, "user");
            assert_eq!(content, "Hello!");
            assert_eq!(sender.as_deref(), Some("alice@example.com"));
        }
        _ => panic!("Expected a message"),
    }
    match &lines[2] {
        SessionLine::Entry(SessionEntry::Message { role, sender, .. }) => {
            assert_eq!(role, "assistant");
            assert!(sender.is_none());
        }
        _ => panic!("Expected a message"),
    }

    let history = memory.get_history("alice@example.com", 10);
    assert_eq!(history[0].role, "user");
    assert_eq!(history[1].role, "assistant");
}

#[test]
fn test_set_user_profile_writes_user_md() {
    let mut memory = Memory::open("memory".to_string());

    memory.set_user_profile("user@test", "Profile content");

    let user = memory.users.get("user@test").unwrap();
    assert_eq!(user.texts.get("user.md").unwrap(), "Profile content");

    let profile = memory.get_user_profile("user@test");
    assert_eq!(profile.unwrap(), "Profile content");
}

#[test]
fn test_new_session_multiple_archives() {
    let mut memory = Memory::open("memory".to_string());

    memory.store_message("user@test", "user", "Session 1");
    memory.new_session_at("user@test", "20250601-143022");

    memory.store_message("user@test", "user", "Session 2");
    memory.new_session_at("user@test", "20250602-091500");

    assert_eq!(memory.session_count("user@test"), 2);
}

#[test]
fn test_store_message_with_muc_nick_label() {
    let mut memory = Memory::open("memory".to_string());

    let room_jid = "lobby@conference.localhost";
    memory.store_message_with_jid(room_jid, "user", "Hello everyone!", Some("alice@muc"));
    memory.store_message(room_jid, "assistant", "Hi Alice!");

    match &stored(&memory, room_jid)[1] {
        SessionLine::Entry(SessionEntry::Message { sender, .. }) => {
            assert_eq!(sender.as_deref(), Some("alice@muc"));
        }
        _ => panic!("Expected a message"),
    }

    let history = memory.get_history(room_jid, 10);
    assert_eq!(history.len(), 2);
    assert_eq!(history[0].role, "user");
    assert_eq!(text(&history[0].content), "alice@muc: Hello everyone!");
    assert_eq!(history[1].role, "assistant");
    assert_eq!(text(&history[1].content), "Hi Alice!");
}

#[test]
fn test_store_message_with_jid_none_label() {
    let mut memory = Memory::open("memory".to_string());

    memory.store_message_with_jid("test@localhost", "user", "No label", None);

    match &stored(&memory, "test@localhost")[1] {
        SessionLine::Entry(SessionEntry::Message { sender, .. }) => assert!(sender.is_none()),
        _ => panic!("Expected a message"),
    }

    let history = memory.get_history("test@localhost", 10);
    assert_eq!(text(&history[0].content), "No label");
}

#[test]
fn test_files_dir_creates_directory() {
    let mut memory = Memory::open("memory".to_string());

    let files_dir = memory.files_dir("user@test");
    assert!(memory.users.get("user@test").unwrap().files.is_some());
    assert!(files_dir.ends_with("user@test/files"));
    assert_eq!(files_dir, "memory/user@test/files");
    assert_eq!(Memory::open("m/".to_string()).files_dir("a@b"), "m/a@b/files");
    assert_eq!(Memory::open("m".to_string()).files_dir(""), "m/files");
}

#[test]
fn test_file_count_with_files() {
    let mut memory = Memory::open("memory".to_string());

    memory.files_dir("user@test");
    add_files(&mut memory, "user@test", &["abc_photo.jpg", "def_doc.pdf"]);

    assert_eq!(memory.file_count("user@test"), 2);
}

#[test]
fn test_forget_erases_files() {
    let mut memory = Memory::open("memory".to_string());

    memory.store_message("user@test", "user", "Hello!");
    memory.files_dir("user@test");
    add_files(&mut memory, "user@test", &["abc_photo.jpg", "def_doc.pdf"]);

    let result = memory.forget("user@test");
    assert!(result.contains("2 files"));

    assert_eq!(memory.file_count("user@test"), 0);
}

#[test]
fn test_store_message_full_with_attachments() {
    let mut memory = Memory::open("memory".to_string());

    let atts = vec![
        Attachment {
            filename: "photo.png".to_string(),
            mime_type: "image/png".to_string(),
            size: "926KB".to_string(),
        },
        Attachment {
            filename: "doc.pdf".to_string(),
            mime_type: "application/pdf".to_string(),
            size: "1.2MB".to_string(),
        },
    ];

    memory.store_message_full(
        "user@test",
        "user",
        "Check these files",
        Some("msg-1"),
        Some("user@test"),
        Some(atts),
        None,
    );

    let lines = stored(&memory, "user@test");
    assert_eq!(lines.len(), 2);
    match &lines[1] {
        SessionLine::Entry(SessionEntry::Message { content, attachments, msg_id, .. }) => {
            let attachments = attachments.as_ref().unwrap();
            assert_eq!(attachments[0].filename, "photo.png");
            assert_eq!(attachments[1].filename, "doc.pdf");
            assert_eq!(content, "Check these files");
            assert_eq!(msg_id.as_deref(), Some("msg-1"));
        }
        _ => panic!("Expected a message"),
    }
}

#[test]
fn test_store_message_structured_creates_session_header() {
    let mut memory = Memory::open("memory".to_string());

    memory.store_message_structured("alice@test", "user", "Hi", None, Some("alice@test"));

    match &stored(&memory, "alice@test")[0] {
        SessionLine::Entry(SessionEntry::Header { version, jid, .. }) => {
            assert_eq!(*version, 1);
            assert_eq!(jid, "alice@test");
        }
        _ => panic!("Expected session header as first line"),
    }
}

#[test]
fn test_store_message_structured_no_duplicate_header() {
    let mut memory = Memory::open("memory".to_string());

    memory.store_message_structured("user@test", "user", "One", None, None);
    memory.store_message_structured("user@test", "user", "Two", None, None);

    let header_count = stored(&memory, "user@test")
        .iter()
        .filter(|l| matches!(l, SessionLine::Entry(SessionEntry::Header { .. })))
        .count();
    assert_eq!(header_count, 1);
}

#[test]
fn test_knowledge_store_jsonl_format() {
    let mut memory = Memory::open("memory".to_string());
    let jid = "alice@example.com";

    memory.knowledge_store(jid, "lang", "Rust");
    memory.knowledge_store(jid, "tz", "UTC");

    let user = memory.users.get(jid).unwrap();
    let lines = user.knowledge.as_ref().unwrap();
    assert_eq!(lines.len(), 2);
    match &lines[0] {
        KnowledgeLine::Entry(e) => {
            assert_eq!(e.key, "lang");
            assert_eq!(e.content, "Rust");
            assert!(!e.ts.is_empty());
        }
        _ => panic!("Expected an entry"),
    }
    match &lines[1] {
        KnowledgeLine::Entry(e) => {
            assert_eq!(e.key, "tz");
            assert_eq!(e.content, "UTC");
        }
        _ => panic!("Expected an entry"),
    }
}

// ---- more ---------------------------------------------------------------

#[test]
fn archiving_keeps_every_line() {
    let mut memory = Memory::open("memory".to_string());
    memory.store_message("user@test", "user", "One");
    memory.store_message("user@test", "assistant", "Two");
    let said = memory.new_session_at("user@test", "20250601-143022");
    assert_eq!(said, "Session archived (2 messages). Starting fresh.");
    let user = memory.users.get("user@test").unwrap();
    assert!(user.history.is_none());
    assert_eq!(user.archives.get("20250601-143022.jsonl").unwrap().len(), 3);
}

#[test]
fn a_session_with_only_a_header_is_not_archived() {
    let mut memory = Memory::open("memory".to_string());
    memory.store_message_structured("user@test", "user", "", None, None);
    assert_eq!(memory.new_session("user@test"), "Session is already empty.");
    assert!(memory.users.get("user@test").unwrap().history.is_some());
    assert_eq!(memory.session_count("user@test"), 0);
}

#[test]
fn forgetting_says_what_is_gone() {
    let mut memory = Memory::open("memory".to_string());
    memory.store_message("user@test", "user", "Hello!");
    memory.set_user_file("user@test", "context.md", "Old notes");
    memory.set_user_memory("user@test", "Likes Rust");
    memory.knowledge_store("user@test", "lang", "Rust");
    assert_eq!(
        memory.forget("user@test"),
        "Erased: 1 messages, context, memory, 1 knowledge entries. Archived sessions preserved."
    );
    assert_eq!(
        memory.forget("user@test"),
        "No active memory to erase (archived sessions preserved)."
    );
}

#[test]
fn legacy_history_is_erased_too() {
    let mut memory = Memory::open("memory".to_string());
    memory.set_user_file("user@test", "history.md", "### user");
    assert_eq!(
        memory.forget("user@test"),
        "Erased: legacy history. Archived sessions preserved."
    );
}

#[test]
fn an_empty_list_of_attachments_is_none() {
    let mut memory = Memory::open("memory".to_string());
    memory.store_message_full("user@test", "user", "Hi", None, None, Some(vec![]), None);
    match &stored(&memory, "user@test")[1] {
        SessionLine::Entry(SessionEntry::Message { attachments, .. }) => {
            assert!(attachments.is_none())
        }
        _ => panic!("Expected a message"),
    }
}

#[test]
fn displayed_metadata_is_json() {
    let atts = Some(vec![Attachment {
        filename: "a \"b\"\n.jpg".to_string(),
        mime_type: "image/jpeg".to_string(),
        size: "200KB".to_string(),
    }]);
    let reaction = Some(Reaction {
        message_id: "m\u{1}".to_string(),
        emojis: vec!["👍".to_string(), "\u{7f}".to_string()],
    });
    let shown = build_display_content("Look", &atts, &reaction);
    let lines: Vec<&str> = shown.split('\n').collect();
    assert_eq!(lines.len(), 3);
    let r: Value = serde_json::from_str(lines[0]).unwrap();
    assert_eq!(r["message_id"], "m\u{1}");
    assert_eq!(r["emojis"][1], "\u{7f}");
    assert_eq!(
        lines[1],
        r#"{"filename":"a \"b\"\n.jpg","mime_type":"image/jpeg","size":"200KB"}"#
    );
    assert_eq!(lines[2], "Look");
}

#[test]
fn knowledge_is_listed_with_numbers() {
    let mut memory = Memory::open("memory".to_string());
    memory.knowledge_store_at("user@test", "lang", "Rust", "t1".to_string());
    memory.knowledge_store_at("user@test", "tz", "UTC", "t2".to_string());
    let all = memory.knowledge_search("user@test", "");
    assert_eq!(all, "Found 2 knowledge entries:\n1. [lang] Rust\n2. [tz] UTC\n");
    assert_eq!(memory.knowledge_get("user@test", "tz"), Some("UTC".to_string()));
}

#[test]
fn non_ascii_knowledge_is_found_in_any_case() {
    let mut memory = Memory::open("memory".to_string());
    memory.knowledge_store("user@test", "STRASSE", "ÉCOLE");
    assert!(memory.knowledge_search("user@test", "école").contains("STRASSE"));
}

#[test]
fn a_stale_session_without_a_message_is_not_rotated() {
    let mut memory = Memory::open("memory".to_string());
    memory.store_message_structured("user@test", "user", "", None, None);
    assert!(!memory.check_session_freshness("user@test", 60, Duration::from_secs(7200)));
    assert!(memory.users.get("user@test").unwrap().history.is_some());
    assert_eq!(memory.session_count("user@test"), 0);
}

#[test]
fn archives_are_named_after_the_time() {
    let mut memory = Memory::open("memory".to_string());
    memory.new_session_at("user@test", "20250601-143022");
    memory.store_message("user@test", "user", "Hello");
    memory.new_session("user@test");
    assert_eq!(memory.session_count("user@test"), 1);
    let names = memory.users.get("user@test").unwrap().archives.keys();
    assert_eq!(names.len(), 1);
    let time = names[0].strip_suffix(".jsonl").unwrap();
    assert!(chrono::NaiveDateTime::parse_from_str(time, "%Y%m%d-%H%M%S").is_ok());
}

#[test]
fn times_are_written_as_rfc_3339() {
    let mut memory = Memory::open("memory".to_string());
    memory.store_message("user@test", "user", "Hello");
    memory.knowledge_store("user@test", "lang", "Rust");
    let user = memory.users.get("user@test").unwrap();
    match &user.history.as_ref().unwrap()[1] {
        SessionLine::Entry(SessionEntry::Message { ts: Some(ts), .. }) => {
            assert!(ts.ends_with("+00:00"));
            assert!(chrono::DateTime::parse_from_rfc3339(ts).is_ok());
        }
        other => panic!("expected a message, got {other:?}"),
    }
    match &user.knowledge.as_ref().unwrap()[0] {
        KnowledgeLine::Entry(entry) => {
            assert!(chrono::DateTime::parse_from_rfc3339(&entry.ts).is_ok());
        }
        other => panic!("expected an entry, got {other:?}"),
    }
}
