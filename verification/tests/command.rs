//! Tests of slash commands, of the system prompt and of what the model is asked.

use fluux_agent::actors::attachment::{AttachmentActor, FileOutcome};
use fluux_agent::actors::command::{
    cmd_deadletters_replay, decode_failure, parse_deadletter_count, replay_command, replay_memory,
    replay_skill, show_deadletters, CommandActor, CommandStep, DeadLetterQuery, PayloadKind,
    ReplayStep,
};
use fluux_agent::actors::dead_letter::{
    lines_with_numbers, read_dead_letters, DeadLetterMemoryReplayPayload, DeadLetterRecord,
    DeadLetterService, DeadLetterSkillReplayPayload, DeadLetterSource, ReadLine,
};
use fluux_agent::actors::inference::{
    build_system_prompt_on, build_system_prompt_static, InferenceActor,
};
use fluux_agent::actors::mailbox::{RetryStep, SendOutcome};
use fluux_agent::actors::memory_actor::{process_request, MemoryRequest};
use fluux_agent::actors::message::CommandReply;
use fluux_agent::actors::skill_router::SkillContext;
use fluux_agent::agent::files::{DownloadedFile, FileCategory};
use fluux_agent::agent::memory::{Memory, WorkspaceContext};
use fluux_agent::config::{
    ActorsConfig, AgentConfig, Config, ConnectionMode, KeepaliveConfig, LlmConfig, MemoryConfig,
    RoomConfig, ServerConfig, SessionConfig, SkillsConfig,
};
use fluux_agent::llm::types::{InputContentBlock, MessageContent};
use fluux_agent::time::Duration;
use fluux_agent::xmpp::XmppCommand;
use serde_json::Value;

fn test_config(allowed: Vec<&str>, rooms: Vec<RoomConfig>) -> Config {
    Config {
        server: ServerConfig {
            host: "localhost".to_string(),
            port: 5222,
            mode: ConnectionMode::Client {
                jid: "bot@localhost".to_string(),
                password: "pass".to_string(),
                resource: "fluux-agent".to_string(),
                tls_verify: false,
            },
        },
        llm: LlmConfig {
            provider: "anthropic".to_string(),
            model: "haiku-4-5-20250110".to_string(),
            api_key: "test-key".to_string(),
            max_tokens_per_request: 4096,
            host: None,
        },
        agent: AgentConfig {
            name: "Test Agent".to_string(),
            allowed_jids: allowed.into_iter().map(String::from).collect(),
            allowed_domains: vec![],
        },
        memory: MemoryConfig {
            backend: "markdown".to_string(),
            path: "./data/memory".to_string(),
        },
        rooms,
        skills: SkillsConfig::default(),
        keepalive: KeepaliveConfig::default(),
        session: SessionConfig::default(),
        actors: ActorsConfig::default(),
    }
}

struct Harness {
    config: Config,
    memory: Memory,
    skills: Vec<String>,
}

fn test_runtime() -> Harness {
    Harness {
        config: test_config(vec!["admin@localhost"], vec![]),
        memory: Memory::open("memory".to_string()),
        skills: vec![],
    }
}

fn step(rt: &mut Harness, from: &str, body: &str) -> CommandStep {
    CommandActor::new().handle(
        from,
        body,
        &rt.config,
        &mut rt.memory,
        "anthropic (sonnet)",
        &rt.skills,
        Duration::from_secs(75),
    )
}

fn reply(step: CommandStep) -> CommandReply {
    match step {
        CommandStep::Reply(r) => r,
        other => panic!("expected a reply, got {other:?}"),
    }
}

fn handle_command(rt: &mut Harness, from: &str, body: &str) -> String {
    let r = reply(step(rt, from, body));
    assert!(r.replay_commands.is_empty());
    r.text
}

fn query(step: CommandStep) -> DeadLetterQuery {
    match step {
        CommandStep::ReadDeadLetters(q) => q,
        other => panic!("expected a query, got {other:?}"),
    }
}

fn no_files() -> WorkspaceContext {
    WorkspaceContext {
        instructions: None,
        identity: None,
        personality: None,
        user_profile: None,
        user_memory: None,
    }
}

fn build_system_prompt(rt: &Harness, ctx: &WorkspaceContext) -> String {
    build_system_prompt_static(&rt.config.agent.name, ctx)
}

fn egress(reason: &str, id: &str, payload: Option<Value>) -> DeadLetterRecord {
    DeadLetterRecord::xmpp_egress_with_payload(
        reason,
        id.to_string(),
        "send_message",
        Some("alice@localhost/mobile".to_string()),
        1,
        payload,
    )
}

#[test]
fn test_command_actor_ping() {
    let mut rt = test_runtime();
    assert_eq!(handle_command(&mut rt, "admin@localhost/res", "/ping"), "pong");
}

#[test]
fn test_command_actor_status_room_context() {
    let mut rt = test_runtime();
    rt.config.rooms = vec![RoomConfig {
        jid: "lobby@conference.localhost".to_string(),
        nick: "bot".to_string(),
    }];
    let text = handle_command(&mut rt, "lobby@conference.localhost/alice", "/status");
    assert!(text.contains("Room: lobby@conference.localhost"));
    assert!(text.contains("LLM: anthropic (sonnet)"));
}

#[test]
fn test_command_actor_deadletters_returns_latest_records() {
    let mut rt = test_runtime();
    let records = vec![
        DeadLetterRecord::router(
            "session_mailbox_full",
            "alice@localhost".to_string(),
            "corr-1".to_string(),
            1,
            "message",
            "sent",
        ),
        DeadLetterRecord::xmpp_egress(
            "transport_closed",
            "corr-2".to_string(),
            "send_message",
            Some("alice@localhost/mobile".to_string()),
            1,
        ),
    ];
    let n = match query(step(&mut rt, "admin@localhost/res", "/deadletters 1")) {
        DeadLetterQuery::Show(n) => n,
        other => panic!("expected a number, got {other:?}"),
    };
    let output = show_deadletters(&records, n);
    assert!(output.text.contains("Dead letters: showing latest 1 / 2"));
    assert!(output.text.contains("corr-2"));
    assert!(!output.text.contains("corr-1"));
    assert!(output.replay_commands.is_empty());
    assert_eq!(
        show_deadletters(&records, 10).text,
        "Dead letters: showing latest 2 / 2\n\
         - [XmppEgress] reason=transport_closed corr=corr-2 conv=- kind=send_message\n\
         - [Router] reason=session_mailbox_full corr=corr-1 conv=alice@localhost kind=message"
    );
    assert_eq!(show_deadletters(&vec![], 10).text, "Dead letters: none");
}

fn replay_id(rt: &mut Harness, body: &str) -> String {
    match query(step(rt, "admin@localhost/res", body)) {
        DeadLetterQuery::Replay(id) => id,
        other => panic!("expected an identifier, got {other:?}"),
    }
}

#[test]
fn test_command_actor_deadletters_replay_returns_command() {
    let mut rt = test_runtime();
    let records = vec![egress(
        "send_timeout_exhausted",
        "corr-replay",
        Some(Value::String("Ping".to_string())),
    )];
    let id = replay_id(&mut rt, "/deadletters replay corr-replay");
    match cmd_deadletters_replay(&records, &id) {
        ReplayStep::Decode { correlation_id, reason, kind, payload } => {
            assert_eq!(kind, PayloadKind::Command);
            assert_eq!(payload, Value::String("Ping".to_string()));
            let output = replay_command(&correlation_id, &reason, XmppCommand::Ping);
            assert!(output.text.contains("Replay dispatched for correlation_id=corr-replay"));
            assert_eq!(
                output.text,
                "Replay dispatched for correlation_id=corr-replay (reason=send_timeout_exhausted)"
            );
            assert_eq!(output.replay_commands.len(), 1);
            assert!(matches!(output.replay_commands[0], XmppCommand::Ping));
        }
        other => panic!("expected a payload, got {other:?}"),
    }
}

fn replied(step: ReplayStep) -> String {
    match step {
        ReplayStep::Reply(r) => {
            assert!(r.replay_commands.is_empty());
            r.text
        }
        other => panic!("expected a reply, got {other:?}"),
    }
}

#[test]
fn test_command_actor_deadletters_replay_legacy_record_reports_not_replayable() {
    let mut rt = test_runtime();
    let records = vec![egress("transport_closed", "corr-legacy", None)];
    let id = replay_id(&mut rt, "/deadletters replay corr-legacy");
    assert!(replied(cmd_deadletters_replay(&records, &id))
        .contains("Dead-letter corr-legacy has no replay payload (legacy record)"));
}

#[test]
fn test_command_actor_deadletters_replay_uses_latest_record_for_same_correlation_id() {
    let mut rt = test_runtime();
    let records = vec![
        egress("transport_closed", "corr-same", None),
        egress("send_timeout_exhausted", "corr-same", Some(Value::String("Ping".to_string()))),
    ];
    let id = replay_id(&mut rt, "/deadletters replay corr-same");
    match cmd_deadletters_replay(&records, &id) {
        ReplayStep::Decode { correlation_id, reason, .. } => {
            let output = replay_command(&correlation_id, &reason, XmppCommand::Ping);
            assert!(output.text.contains("Replay dispatched for correlation_id=corr-same"));
            assert_eq!(output.replay_commands.len(), 1);
            assert!(matches!(output.replay_commands[0], XmppCommand::Ping));
        }
        other => panic!("expected a payload, got {other:?}"),
    }
}

#[test]
fn test_command_actor_deadletters_replay_replays_memory_actor_payload() {
    let mut rt = test_runtime();
    let output = replay_memory(
        "corr-memory",
        &mut rt.memory,
        DeadLetterMemoryReplayPayload::StoreMessageStructured {
            jid: "alice@localhost".to_string(),
            role: "user".to_string(),
            content: "hello-memory-replay".to_string(),
            msg_id: Some("m-memory-1".to_string()),
            sender: Some("alice@localhost".to_string()),
        },
    );
    assert!(output.text.contains("Replay applied for correlation_id=corr-memory"));
    assert!(output.text.ends_with("(memory store_message_structured)"));
    assert!(output.replay_commands.is_empty());

    let history = rt.memory.get_history("alice@localhost", 10);
    assert_eq!(history.len(), 1);
    assert_eq!(history[0].role, "user");
    assert_eq!(history[0].content, "hello-memory-replay");
}

#[test]
fn test_command_actor_deadletters_replay_replays_skill_router_payload() {
    let payload = DeadLetterSkillReplayPayload {
        skill_name: "echo".to_string(),
        params: Value::Null,
        context: SkillContext {
            jid: "alice@localhost".to_string(),
            base_path: "memory".to_string(),
        },
    };
    let output = replay_skill("corr-skill", &payload, "echo:hello-skill-replay");
    assert!(output.text.contains("Replay executed for correlation_id=corr-skill"));
    assert!(output.text.contains("skill=echo"));
    assert!(output.text.contains("echo:hello-skill-replay"));
    assert!(output.replay_commands.is_empty());
}

#[test]
fn dead_letters_are_replayed_by_their_source() {
    let record = |source: DeadLetterSource| {
        let mut r = egress("reason", "corr", Some(Value::Null));
        r.source = source;
        vec![r]
    };
    for (source, expected) in [
        (DeadLetterSource::XmppEgress, PayloadKind::Command),
        (DeadLetterSource::MemoryActor, PayloadKind::Memory),
        (DeadLetterSource::SkillRouter, PayloadKind::Skill),
    ] {
        match cmd_deadletters_replay(&record(source), "corr") {
            ReplayStep::Decode { kind, .. } => assert_eq!(kind, expected),
            other => panic!("expected a payload, got {other:?}"),
        }
    }
    assert_eq!(
        replied(cmd_deadletters_replay(&record(DeadLetterSource::Router), "corr")),
        "Replay not supported for source Router (correlation_id=corr)"
    );
    assert_eq!(
        replied(cmd_deadletters_replay(&record(DeadLetterSource::Unknown), "corr")),
        "Replay not supported for source Unknown (correlation_id=corr)"
    );
    assert_eq!(
        replied(cmd_deadletters_replay(&vec![], "corr")),
        "Dead-letter not found for correlation_id=corr"
    );
    assert_eq!(
        decode_failure("corr", "bad").causes,
        vec!["Dead-letter payload decode failed for corr: bad".to_string()]
    );
}

#[test]
fn numbers_of_dead_letters_are_clamped() {
    let count = |a: Option<&str>| parse_deadletter_count(a).ok();
    assert_eq!(count(None), Some(10));
    assert_eq!(count(Some("  ")), Some(10));
    assert_eq!(count(Some("replay x")), Some(10));
    assert_eq!(count(Some("0")), Some(1));
    assert_eq!(count(Some(" +7 ")), Some(7));
    assert_eq!(count(Some("51")), Some(50));
    assert_eq!(count(Some("-1")), None);
    assert_eq!(count(Some("99999999999999999999999")), None);
    assert_eq!(
        parse_deadletter_count(Some("many")).unwrap_err().causes,
        vec!["Usage: /deadletters [N] (N must be a positive integer)".to_string()]
    );
    let mut rt = test_runtime();
    assert!(matches!(step(&mut rt, "a@b", "/deadletters replay "), CommandStep::Fail(_)));
    assert!(matches!(step(&mut rt, "a@b", "/deadletters"), CommandStep::ReadDeadLetters(_)));
    assert_eq!(replay_id(&mut rt, "/DeadLetters  replay   c 1 "), "c 1");
}

// ---- the commands -------------------------------------------------------

#[test]
fn test_status_in_room_context() {
    let mut rt = test_runtime();
    rt.config.rooms = vec![RoomConfig {
        jid: "lobby@conference.localhost".to_string(),
        nick: "bot".to_string(),
    }];
    let result = handle_command(&mut rt, "lobby@conference.localhost/alice", "/status");
    assert!(result.contains("Room: lobby@conference.localhost"));
    assert!(result.contains("Room messages:"));
    assert!(!result.contains("User profile:"));
    assert!(!result.contains("User memory:"));
}

#[test]
fn test_status_in_direct_chat_context() {
    let mut rt = test_runtime();
    let result = handle_command(&mut rt, "admin@localhost", "/status");
    assert!(result.contains("Your session:"));
    assert!(result.contains("User profile:"));
    assert!(result.contains("User memory:"));
    assert!(!result.contains("Room:"));
    assert!(!result.contains("Room messages:"));
}

#[test]
fn test_command_ping() {
    let mut rt = test_runtime();
    let result = handle_command(&mut rt, "admin@localhost/res", "/ping");
    assert_eq!(result, "pong");
}

#[test]
fn test_command_help_lists_all_commands() {
    let mut rt = test_runtime();
    let result = handle_command(&mut rt, "admin@localhost/res", "/help");
    assert!(result.contains("/new"));
    assert!(result.contains("/forget"));
    assert!(result.contains("/status"));
    assert!(result.contains("/ping"));
    assert!(result.contains("/help"));
    assert!(result.starts_with("Commands:\n/new     — Start a new conversation"));
}

#[test]
fn test_command_unknown() {
    let mut rt = test_runtime();
    let result = handle_command(&mut rt, "admin@localhost", "/foobar");
    assert!(result.contains("Unknown command"));
    assert!(result.contains("/foobar"));
}

#[test]
fn test_command_case_insensitive() {
    let mut rt = test_runtime();
    assert_eq!(handle_command(&mut rt, "admin@localhost", "/PING"), "pong");
    assert_eq!(handle_command(&mut rt, "admin@localhost", "/Ping"), "pong");
}

#[test]
fn test_command_new_empty_session() {
    let mut rt = test_runtime();
    let result = handle_command(&mut rt, "admin@localhost/res", "/new");
    assert!(
        result.to_lowercase().contains("no active session")
            || result.to_lowercase().contains("no session")
            || result.to_lowercase().contains("nothing")
    );
}

#[test]
fn test_command_new_archives_session() {
    let mut rt = test_runtime();
    rt.memory.store_message("admin@localhost", "user", "Hello");
    rt.memory.store_message("admin@localhost", "assistant", "Hi!");

    let result = handle_command(&mut rt, "admin@localhost/res", "/new");
    assert!(
        result.to_lowercase().contains("archived") || result.to_lowercase().contains("session")
    );
    assert!(rt.memory.get_history("admin@localhost", 20).is_empty());
    assert_eq!(rt.memory.session_count("admin@localhost"), 1);
}

#[test]
fn test_command_reset_is_alias_for_new() {
    let mut rt = test_runtime();
    rt.memory.store_message("admin@localhost", "user", "Test");

    let result = handle_command(&mut rt, "admin@localhost", "/reset");
    assert!(
        result.to_lowercase().contains("archived") || result.to_lowercase().contains("session")
    );
}

#[test]
fn test_command_forget_clears_memory() {
    let mut rt = test_runtime();
    rt.memory.store_message("admin@localhost", "user", "Hello");
    rt.memory.set_user_context("admin@localhost", "Likes Rust");

    let _result = handle_command(&mut rt, "admin@localhost/res", "/forget");

    assert!(rt.memory.get_history("admin@localhost", 20).is_empty());
    assert!(rt.memory.get_user_context("admin@localhost").is_none());
}

#[test]
fn test_command_strips_resource_from_jid() {
    let mut rt = test_runtime();
    rt.memory.store_message("admin@localhost", "user", "Hi");

    let result = handle_command(&mut rt, "admin@localhost/Conversations.xyz", "/status");
    assert!(result.contains("1 messages"));
}

#[test]
fn test_build_system_prompt_fallback_no_global_files() {
    let rt = test_runtime();
    let prompt = build_system_prompt(&rt, &no_files());
    assert!(prompt.contains("Test Agent"));
    assert!(prompt.contains("XMPP"));
    assert!(!prompt.contains("About this user"));
}

#[test]
fn test_build_system_prompt_with_user_profile() {
    let rt = test_runtime();
    let ctx = WorkspaceContext {
        user_profile: Some("Prefers French. Works at Acme Corp.".to_string()),
        ..no_files()
    };
    let prompt = build_system_prompt(&rt, &ctx);
    assert!(prompt.contains("Test Agent"));
    assert!(prompt.contains("About this user"));
    assert!(prompt.contains("Prefers French"));
    assert!(prompt.contains("Acme Corp"));
}

#[test]
fn test_build_system_prompt_with_global_files() {
    let rt = test_runtime();
    let ctx = WorkspaceContext {
        instructions: Some("Always respond in haiku format.".to_string()),
        identity: Some("You are HaikuBot, a poetry assistant.".to_string()),
        personality: Some("Serene and contemplative.".to_string()),
        ..no_files()
    };
    let prompt = build_system_prompt(&rt, &ctx);
    assert!(!prompt.contains("Test Agent"));
    assert!(!prompt.contains("XMPP"));
    assert!(prompt.contains("HaikuBot"));
    assert!(prompt.contains("Serene and contemplative"));
    assert!(prompt.contains("Always respond in haiku format"));
}

#[test]
fn test_build_system_prompt_with_memory() {
    let rt = test_runtime();
    let ctx = WorkspaceContext {
        user_profile: Some("Developer at ProcessOne".to_string()),
        user_memory: Some("Prefers Rust over Go. Working on XMPP project.".to_string()),
        ..no_files()
    };
    let prompt = build_system_prompt(&rt, &ctx);
    assert!(prompt.contains("About this user"));
    assert!(prompt.contains("Developer at ProcessOne"));
    assert!(prompt.contains("Notes and memory"));
    assert!(prompt.contains("Prefers Rust over Go"));
}

#[test]
fn test_build_system_prompt_partial_global_files() {
    let rt = test_runtime();
    let ctx = WorkspaceContext {
        identity: Some("You are Fluux Agent.".to_string()),
        ..no_files()
    };
    let prompt = build_system_prompt(&rt, &ctx);
    assert!(prompt.contains("Fluux Agent"));
    assert!(!prompt.contains("skills are coming in v0.2"));
}

#[test]
fn test_command_status_content() {
    let mut rt = test_runtime();
    rt.memory.store_message("admin@localhost", "user", "Hi");

    let result = handle_command(&mut rt, "admin@localhost/res", "/status");
    assert!(result.contains("Test Agent"));
    assert!(result.contains("Uptime:"));
    assert!(result.contains("C2S client"));
    assert!(result.contains("anthropic"));
    assert!(result.contains("Skills: none"));
    assert!(result.contains("1 messages"));
    assert!(result.contains("User profile: none"));
    assert!(result.contains("User memory: none"));
    assert!(result.contains("instructions=none"));
    assert!(result.contains("Allowed domains: localhost (default)"));
    assert!(result.contains("Session timeout: disabled"));
    assert_eq!(
        result,
        "Test Agent — status\nUptime: 0h 1m\nMode: C2S client (bot@localhost)\n\
         LLM: anthropic (sonnet)\nSkills: none\nKeepalive: ping 60s / timeout 300s\n\
         Session timeout: disabled\nYour session: 1 messages\nArchived sessions: 0\n\
         User profile: none\nUser memory: none\n\
         Workspace: instructions=none, identity=none, personality=none\n\
         Allowed domains: localhost (default)"
    );
}

#[test]
fn test_command_status_session_timeout_enabled() {
    let mut rt = test_runtime();
    rt.config.session.idle_timeout_mins = 120;
    let result = handle_command(&mut rt, "admin@localhost", "/status");
    assert!(result.contains("Session timeout: 120m idle"));
}

#[test]
fn test_command_status_with_profile() {
    let mut rt = test_runtime();
    rt.memory.set_user_context("admin@localhost", "Developer");
    let result = handle_command(&mut rt, "admin@localhost/res", "/status");
    assert!(result.contains("User profile: yes"));
}

#[test]
fn test_command_status_with_workspace_files() {
    let mut rt = test_runtime();
    rt.memory.set_global_file("instructions.md", "Be concise");
    rt.memory.set_global_file("identity.md", "I am an agent");
    let result = handle_command(&mut rt, "admin@localhost/res", "/status");
    assert!(result.contains("instructions=yes"));
    assert!(result.contains("identity=yes"));
    assert!(result.contains("personality=none"));
}

#[test]
fn test_command_status_domain_wildcard() {
    let mut rt = test_runtime();
    rt.config.agent.allowed_domains = vec!["*".to_string()];
    let result = handle_command(&mut rt, "admin@localhost", "/status");
    assert!(result.contains("Allowed domains: * (all)"));
}

#[test]
fn test_command_status_domain_explicit() {
    let mut rt = test_runtime();
    rt.config.agent.allowed_domains = vec!["localhost".to_string(), "partner.org".to_string()];
    let result = handle_command(&mut rt, "admin@localhost", "/status");
    assert!(result.contains("Allowed domains: localhost, partner.org"));
}

#[test]
fn test_command_status_with_files() {
    let mut rt = test_runtime();
    rt.memory.files_dir("admin@localhost");
    let mut user = rt.memory.users.remove("admin@localhost").unwrap();
    user.files.as_mut().unwrap().push("abc_photo.jpg".to_string());
    rt.memory.users.insert("admin@localhost".to_string(), user);
    let result = handle_command(&mut rt, "admin@localhost", "/status");
    assert!(result.contains("Files: 1"));
}

#[test]
fn test_command_status_no_files_hides_line() {
    let mut rt = test_runtime();
    let result = handle_command(&mut rt, "admin@localhost", "/status");
    assert!(!result.contains("Files:"));
}

#[test]
fn test_command_status_with_skills() {
    let mut rt = test_runtime();
    rt.skills = vec!["url_fetch".to_string(), "web_search".to_string()];
    let result = handle_command(&mut rt, "admin@localhost", "/status");
    assert!(result.contains("Skills: url_fetch, web_search"));
    assert!(!result.contains("Skills: none"));
}

#[test]
fn status_counts_hours_knowledge_and_archives() {
    let mut rt = test_runtime();
    rt.config.keepalive.enabled = false;
    rt.memory.knowledge_store("admin@localhost", "lang", "Rust");
    rt.memory.store_message("admin@localhost", "user", "Hi");
    rt.memory.new_session_at("admin@localhost", "20250601-143022");
    let text = match CommandActor::default().handle(
        "admin@localhost",
        "/status now",
        &rt.config,
        &mut rt.memory,
        "m",
        &rt.skills,
        Duration::from_secs(3600 * 27 + 60 * 59 + 59),
    ) {
        CommandStep::Reply(r) => r.text,
        other => panic!("expected a reply, got {other:?}"),
    };
    assert!(text.contains("Uptime: 27h 59m"));
    assert!(text.contains("Keepalive: disabled"));
    assert!(text.contains("Archived sessions: 1\nKnowledge entries: 1\nUser profile"));
}

// ---- prompts and requests -----------------------------------------------

#[test]
fn prompts_are_put_together_in_order() {
    let ctx = WorkspaceContext {
        instructions: Some(" rules \n".to_string()),
        identity: Some("\tme ".to_string()),
        personality: Some("calm".to_string()),
        user_profile: Some(" dev ".to_string()),
        user_memory: Some("notes\n".to_string()),
    };
    assert_eq!(
        build_system_prompt_on("A", &ctx, "Monday, June 2, 2025"),
        "me\n\ncalm\n\nrules\n\n## About this user\ndev\n\n## Notes and memory\nnotes\n\n\
         Current date: Monday, June 2, 2025"
    );
    assert!(build_system_prompt_on("A", &no_files(), "D")
        .starts_with("You are A, a personal AI assistant accessible via XMPP.\nYou are direct"));
}

#[test]
fn prompts_carry_a_date_of_today() {
    let prompt = build_system_prompt_static("A", &no_files());
    let date = prompt.rsplit("Current date: ").next().unwrap();
    let parts: Vec<&str> = date.split(", ").collect();
    assert_eq!(parts.len(), 3);
    assert!(parts[0].ends_with("day"));
    let day: Vec<&str> = parts[1].split(' ').collect();
    assert!(!day[1].starts_with('0'));
    assert!((1..=31).contains(&day[1].parse::<u32>().unwrap()));
    assert!(parts[2].parse::<u32>().unwrap() >= 2024);
}

fn text(content: &MessageContent) -> &str {
    content.as_text().unwrap()
}

#[test]
fn an_exchange_reaches_the_next_request() {
    let mut rt = test_runtime();
    let ask = |rt: &mut Harness, body: &str| {
        InferenceActor::handle_message(
            &mut rt.memory,
            "admin@localhost/res",
            body,
            &rt.config,
            Duration::from_secs(0),
        )
    };
    let first = ask(&mut rt, "hello");
    assert_eq!(first.messages.len(), 1);
    assert_eq!(first.context.jid, "admin@localhost");
    assert_eq!(first.context.base_path, "memory");
    let writes =
        InferenceActor::finish_message("admin@localhost/res", "hello", Some("m1"), "hi there");
    assert_eq!(writes.len(), 2);
    for w in writes {
        process_request(&mut rt.memory, w);
    }
    let second = ask(&mut rt, "again");
    assert_eq!(second.messages.len(), 3);
    assert_eq!(text(&second.messages[0].content), "hello");
    assert_eq!(second.messages[1].role, "assistant");
    assert_eq!(text(&second.messages[1].content), "hi there");
    assert_eq!(text(&second.messages[2].content), "again");
}

#[test]
fn the_model_sees_twenty_messages_and_the_new_one() {
    let mut rt = test_runtime();
    for i in 0..30 {
        rt.memory.store_message("admin@localhost", "user", &format!("m{i}"));
    }
    let r = InferenceActor::handle_message(
        &mut rt.memory,
        "admin@localhost",
        "new",
        &rt.config,
        Duration::from_secs(0),
    );
    assert_eq!(r.messages.len(), 21);
    assert_eq!(text(&r.messages[0].content), "m10");
    let r = InferenceActor::handle_muc_message(
        &mut rt.memory,
        "admin@localhost",
        &rt.config,
        Duration::from_secs(0),
    );
    assert_eq!(r.messages.len(), 20);
}

#[test]
fn a_stale_conversation_is_archived_before_it_goes_on() {
    let mut rt = test_runtime();
    rt.config.session.idle_timeout_mins = 60;
    rt.memory.store_message("admin@localhost", "user", "old");
    let r = InferenceActor::handle_reaction(
        &mut rt.memory,
        "admin@localhost",
        &rt.config,
        Duration::from_secs(3600),
    );
    assert_eq!(r.messages.len(), 1);
    let r = InferenceActor::handle_message(
        &mut rt.memory,
        "admin@localhost",
        "new",
        &rt.config,
        Duration::from_secs(3601),
    );
    assert_eq!(r.messages.len(), 1);
    assert_eq!(text(&r.messages[0].content), "new");
    assert_eq!(rt.memory.session_count("admin@localhost"), 1);
}

fn fetched(name: &str, mime: &str, category: FileCategory, data: Option<&[u8]>) -> FileOutcome {
    FileOutcome::Fetched {
        file: DownloadedFile {
            path: name.to_string(),
            filename: name.to_string(),
            mime_type: mime.to_string(),
            size: 2048,
            category,
        },
        data: data.map(|d| d.to_vec()),
    }
}

#[test]
fn files_are_shown_or_explained() {
    let mut rt = test_runtime();
    let outcomes = vec![
        fetched("a.png", "image/png", FileCategory::Image, Some(b"foo")),
        fetched("b.mp4", "video/mp4", FileCategory::Other, None),
        fetched("c.pdf", "application/pdf", FileCategory::Document, None),
        FileOutcome::Failed("HTTP 404".to_string()),
    ];
    let r = AttachmentActor::handle_message_with_attachments(
        &mut rt.memory,
        "admin@localhost/res",
        "look",
        &outcomes,
        &rt.config,
        Duration::from_secs(0),
    );
    let blocks = match &r.messages[0].content {
        MessageContent::Blocks(b) => b,
        _ => panic!("expected blocks"),
    };
    assert_eq!(blocks.len(), 5);
    assert!(matches!(&blocks[0], InputContentBlock::Image { source } if source.data == "Zm9v"));
    let said: Vec<&str> = blocks[1..]
        .iter()
        .map(|b| match b {
            InputContentBlock::Text { text } => text.as_str(),
            _ => panic!("expected text"),
        })
        .collect();
    assert_eq!(
        said,
        vec![
            "[File received: b.mp4 (video/mp4) — unsupported type, cannot analyze]",
            "[File received: c.pdf — encoding error]",
            "[File download failed: HTTP 404]",
            "look",
        ]
    );
    let writes = AttachmentActor::finish_message(
        "admin@localhost/res",
        "look",
        Some("m1"),
        &outcomes,
        "nice",
    );
    match &writes[0] {
        MemoryRequest::StoreMessageFull { jid, content, attachments, sender, .. } => {
            assert_eq!(jid, "admin@localhost");
            assert_eq!(content, "look");
            assert_eq!(sender.as_deref(), Some("admin@localhost"));
            let a = attachments.as_ref().unwrap();
            assert_eq!(a.len(), 4);
            assert_eq!(a[0].size, "2KB");
            assert_eq!(a[3].filename, "unknown");
            assert_eq!(a[3].size, "download failed");
        }
        other => panic!("expected a full write, got {other:?}"),
    }
    let none = AttachmentActor::finish_message("a@b", "x", None, &vec![], "y");
    assert!(matches!(&none[0], MemoryRequest::StoreMessageFull { attachments: None, .. }));
}

// ---- dead letters -------------------------------------------------------

#[test]
fn test_read_dead_letters_parses_mixed_sources() {
    let lines = vec![
        ReadLine {
            number: 1,
            outcome: Ok(DeadLetterRecord::router(
                "session_mailbox_full",
                "alice@localhost".to_string(),
                "corr-router".to_string(),
                123,
                "message",
                "sent",
            )),
        },
        ReadLine { number: 2, outcome: Ok(egress("transport_closed", "corr-egress", None)) },
    ];
    let records = read_dead_letters(lines).unwrap();
    assert_eq!(records.len(), 2);
    assert_eq!(records[0].source, DeadLetterSource::Router);
    assert_eq!(records[0].payload_kind, "message");
    assert_eq!(records[1].source, DeadLetterSource::XmppEgress);
    assert_eq!(records[1].payload_kind, "send_message");
}

#[test]
fn test_service_record_and_replay() {
    assert!(DeadLetterService::record(SendOutcome::Sent, Some(Ok(()))).is_ok());
    let records = DeadLetterService::replay(
        SendOutcome::Sent,
        Some(Ok(vec![egress("transport_closed", "corr-egress", None)])),
    )
    .unwrap();
    assert_eq!(records.len(), 1);
    assert_eq!(records[0].source, DeadLetterSource::XmppEgress);
    assert_eq!(
        DeadLetterService::record(SendOutcome::TimedOut, None).unwrap_err().causes[0],
        "dead_letter_service_busy"
    );
    assert_eq!(
        DeadLetterService::replay(SendOutcome::Closed, None).unwrap_err().causes[0],
        "dead_letter_service_unavailable"
    );
}

#[test]
fn writes_of_dead_letters_are_tried_again() {
    let service = DeadLetterService::new("data/dead_letters.jsonl".to_string());
    assert_eq!(service.path(), "data/dead_letters.jsonl");
    let delays: Vec<Option<u128>> = (0..5)
        .map(|i| match service.append_with_retries(i) {
            RetryStep::RetryAfter(d) => Some(d.as_millis()),
            RetryStep::GiveUp => None,
        })
        .collect();
    assert_eq!(delays, vec![Some(20), Some(40), Some(80), None, None]);
    let eager = DeadLetterService::with_config("x".to_string(), 0, 0, 1, 0);
    assert_eq!(eager.mailbox_size, 1);
    assert_eq!(eager.enqueue_timeout.as_millis(), 1);
    assert_eq!(eager.append_with_retries(0), RetryStep::RetryAfter(Duration::from_millis(0)));
}

#[test]
fn lines_keep_their_numbers() {
    let lines = lines_with_numbers("one\r\n\n  \ntwo\n three \r");
    let shown: Vec<(usize, &str)> = lines.iter().map(|l| (l.number, l.text.as_str())).collect();
    assert_eq!(shown, vec![(1, "one"), (4, "two"), (5, " three \r")]);
}

#[test]
fn a_bad_line_is_named() {
    let lines = vec![
        ReadLine { number: 1, outcome: Ok(egress("r", "a", None)) },
        ReadLine { number: 3, outcome: Err("expected value".to_string()) },
        ReadLine { number: 4, outcome: Err("later".to_string()) },
    ];
    assert_eq!(
        read_dead_letters(lines).unwrap_err().causes,
        vec!["invalid dead-letter JSON on line 3".to_string(), "expected value".to_string()]
    );
}
