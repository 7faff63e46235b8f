//! Tests of what happens to messages, reactions and presences.

use fluux_agent::actors::control::{ControlActor, SessionControlActor};
use fluux_agent::actors::mailbox::SendOutcome;
use fluux_agent::actors::memory_actor::MemoryRequest;
use fluux_agent::actors::mention::{checked_strip_mention, is_mentioned, strip_mention};
use fluux_agent::actors::message::{
    build_oob_attachments, Ask, CommandReply, MessageActor, MessageEffect, SessionMessageActor,
};
use fluux_agent::actors::presence::{PresenceActor, SessionPresenceActor};
use fluux_agent::actors::reaction::{ReactionActor, SessionReactionActor};
use fluux_agent::actors::session_responder::SessionResponderActor;
use fluux_agent::actors::user_error::Failure;
use fluux_agent::config::{
    ActorsConfig, AgentConfig, Config, ConnectionMode, KeepaliveConfig, LlmConfig, MemoryConfig,
    RoomConfig, ServerConfig, SessionConfig, SkillsConfig,
};
use fluux_agent::xmpp::{
    ChatState, DisconnectReason, IncomingMessage, IncomingPresence, IncomingReaction, MessageType,
    OobData, PresenceType, XmppCommand,
};

fn test_config(allowed: Vec<&str>, rooms: Vec<RoomConfig>) -> Config {
    Config {
        server: ServerConfig {
            host: "localhost".to_string(),
            port: 5222,
            mode: ConnectionMode::Client {
                jid: "bot@localhost".to_string(),
                password: "pass".to_string(),
                resource: "fluux-agent".to_string(),
                tls_verify: false,
            },
        },
        llm: LlmConfig {
            provider: "anthropic".to_string(),
            model: "haiku-4-5-20250110".to_string(),
            api_key: "test-key".to_string(),
            max_tokens_per_request: 4096,
            host: None,
        },
        agent: AgentConfig {
            name: "Test Agent".to_string(),
            allowed_jids: allowed.into_iter().map(String::from).collect(),
            allowed_domains: vec![],
        },
        memory: MemoryConfig {
            backend: "markdown".to_string(),
            path: "./data/memory".to_string(),
        },
        rooms,
        skills: SkillsConfig::default(),
        keepalive: KeepaliveConfig::default(),
        session: SessionConfig::default(),
        actors: ActorsConfig::default(),
    }
}

fn make_message(
    from: &str,
    to: &str,
    body: &str,
    message_type: MessageType,
    id: Option<&str>,
) -> IncomingMessage {
    IncomingMessage {
        from: from.to_string(),
        to: to.to_string(),
        body: body.to_string(),
        id: id.map(ToString::to_string),
        message_type,
        oob: vec![],
    }
}

fn room(jid: &str, nick: &str) -> RoomConfig {
    RoomConfig { jid: jid.to_string(), nick: nick.to_string() }
}

fn sends(effects: Vec<MessageEffect>) -> Vec<XmppCommand> {
    effects
        .into_iter()
        .filter_map(|e| match e {
            MessageEffect::Send(c) => Some(c),
            MessageEffect::Store(_) => None,
        })
        .collect()
}

fn stores(effects: &[MessageEffect]) -> (usize, usize) {
    let mut counts = (0, 0);
    for e in effects {
        match e {
            MessageEffect::Store(MemoryRequest::StoreMessageStructured { .. }) => counts.0 += 1,
            MessageEffect::Store(MemoryRequest::StoreMessageFull { .. }) => counts.1 += 1,
            MessageEffect::Send(_) => {}
        }
    }
    counts
}

#[test]
fn test_is_mentioned_at_prefix() {
    assert!(is_mentioned("bot", "@bot what's up?"));
    assert!(is_mentioned("bot", "hey @bot help"));
    assert!(is_mentioned("FluuxBot", "@fluuxbot hello"));
}

#[test]
fn test_is_mentioned_colon_prefix() {
    assert!(is_mentioned("bot", "bot: what's up?"));
    assert!(is_mentioned("FluuxBot", "FluuxBot: help"));
}

#[test]
fn test_is_mentioned_space_prefix() {
    assert!(is_mentioned("bot", "bot what's up?"));
}

#[test]
fn test_is_mentioned_not_mentioned() {
    assert!(!is_mentioned("bot", "hello everyone"));
    assert!(!is_mentioned("bot", "robotics are cool"));
}

#[test]
fn test_strip_mention_at_prefix() {
    assert_eq!(strip_mention("bot", "@bot what's up?"), "what's up?");
    assert_eq!(strip_mention("bot", "@bot: help me"), "help me");
    assert_eq!(strip_mention("FluuxBot", "@FluuxBot hello"), "hello");
}

#[test]
fn test_strip_mention_colon_prefix() {
    assert_eq!(strip_mention("bot", "bot: what's up?"), "what's up?");
    assert_eq!(strip_mention("FluuxBot", "FluuxBot: help"), "help");
}

#[test]
fn test_strip_mention_middle_keeps_body() {
    // "@nick" in the middle — no stripping
    assert_eq!(strip_mention("bot", "hey @bot help me"), "hey @bot help me");
}

#[test]
fn test_is_mentioned_case_insensitive() {
    assert!(is_mentioned("FluuxBot", "@fluuxbot help"));
    assert!(is_mentioned("bot", "@BOT help"));
    assert!(is_mentioned("Bot", "bot: hello"));
    assert!(is_mentioned("BOT", "Bot: hello"));
}

#[test]
fn test_is_mentioned_with_punctuation() {
    // "@bot!" — the @bot substring is found
    assert!(is_mentioned("bot", "@bot! help me"));
    assert!(is_mentioned("bot", "@bot, please help"));
    assert!(is_mentioned("bot", "@bot? are you there"));
}

#[test]
fn test_is_mentioned_at_end_of_message() {
    assert!(is_mentioned("bot", "hey @bot"));
}

#[test]
fn test_strip_mention_comma_after_at() {
    assert_eq!(strip_mention("bot", "@bot, help me"), "help me");
}

#[test]
fn test_strip_mention_only_mention_returns_full_body() {
    // "@bot" with nothing after → returns full body (no stripping)
    assert_eq!(strip_mention("bot", "@bot"), "@bot");
}

#[test]
fn test_strip_mention_case_insensitive() {
    assert_eq!(strip_mention("FluuxBot", "@fluuxbot hello"), "hello");
    assert_eq!(strip_mention("BOT", "bot: hello"), "hello");
}

#[test]
fn test_build_oob_attachments_empty() {
    assert!(build_oob_attachments(&vec![]).is_none());
}

#[test]
fn test_build_oob_attachments_single() {
    let oob = vec![OobData {
        url: "https://upload.example.com/abc/photo.jpg".to_string(),
        desc: None,
    }];
    let atts = build_oob_attachments(&oob).unwrap();
    assert_eq!(atts.len(), 1);
    assert_eq!(atts[0].filename, "photo.jpg");
    assert_eq!(atts[0].mime_type, "unknown");
    assert_eq!(atts[0].size, "unknown");
}

#[test]
fn test_build_oob_attachments_multiple() {
    let oob = vec![
        OobData {
            url: "https://upload.example.com/a.jpg".to_string(),
            desc: None,
        },
        OobData {
            url: "https://upload.example.com/b.pdf".to_string(),
            desc: None,
        },
    ];
    let atts = build_oob_attachments(&oob).unwrap();
    assert_eq!(atts.len(), 2);
    assert_eq!(atts[0].filename, "a.jpg");
    assert_eq!(atts[1].filename, "b.pdf");
}

#[test]
fn test_build_oob_attachments_trailing_slash_fallback() {
    let oob = vec![OobData {
        url: "https://example.com/files/".to_string(),
        desc: None,
    }];
    let atts = build_oob_attachments(&oob).unwrap();
    // Trailing slash: rsplit('/').next() yields "", filter(non-empty) → fallback "file"
    assert_eq!(atts[0].filename, "file");
}

#[test]
fn test_chat_command_replay_dispatches_command_before_reply() {
    let actor = MessageActor::new();
    let config = test_config(vec!["alice@localhost"], vec![]);
    let msg = make_message(
        "alice@localhost/mobile",
        "bot@localhost",
        "/deadletters replay corr-chat",
        MessageType::Chat,
        Some("in-chat-1"),
    );

    let plan = actor.handle(&msg, &config);
    assert!(plan.effects.is_empty());
    assert!(matches!(plan.ask, Ask::Command { .. }));
    assert!(plan.ask.is_command());
    let effects = actor.finish(
        &msg,
        plan.ask.is_command(),
        Ok(CommandReply {
            text: "Replay enqueued".to_string(),
            replay_commands: vec![XmppCommand::Ping],
        }),
    );
    assert_eq!(stores(&effects), (0, 0));
    let sent = sends(effects);
    assert_eq!(sent.len(), 2);
    assert!(matches!(sent[0], XmppCommand::Ping));
    match &sent[1] {
        XmppCommand::SendMessage { to, body, id } => {
            assert_eq!(to, "alice@localhost/mobile");
            assert_eq!(body, "Replay enqueued");
            assert!(id.is_none());
        }
        other => panic!("expected SendMessage, got {other:?}"),
    }
}

#[test]
fn test_muc_command_replay_dispatches_command_before_room_reply() {
    let actor = MessageActor::new();
    let config = test_config(
        vec!["alice@localhost"],
        vec![room("lobby@conference.localhost", "bot")],
    );
    let msg = make_message(
        "lobby@conference.localhost/alice",
        "bot@localhost",
        "@bot /deadletters replay corr-room",
        MessageType::GroupChat,
        Some("in-room-1"),
    );

    let plan = actor.handle(&msg, &config);
    match &plan.ask {
        Ask::Command { body, .. } => assert_eq!(body, "/deadletters replay corr-room"),
        other => panic!("expected a command, got {other:?}"),
    }
    let mut effects = plan.effects;
    effects.extend(actor.finish(
        &msg,
        true,
        Ok(CommandReply {
            text: "Replay enqueued in room".to_string(),
            replay_commands: vec![XmppCommand::Ping],
        }),
    ));
    assert_eq!(stores(&effects), (1, 1));
    let sent = sends(effects);
    assert_eq!(sent.len(), 2);
    assert!(matches!(sent[0], XmppCommand::Ping));
    match &sent[1] {
        XmppCommand::SendMucMessage { to, body, id } => {
            assert_eq!(to, "lobby@conference.localhost");
            assert_eq!(body, "Replay enqueued in room");
            assert!(id.is_some());
        }
        other => panic!("expected SendMucMessage, got {other:?}"),
    }
}

#[test]
fn test_control_actor_connected_joins_rooms() {
    let actor = ControlActor::new();
    let config = test_config(vec![], vec![room("room@conference.localhost", "bot")]);

    let commands = actor.on_connected(&config);

    assert_eq!(commands.len(), 1);
    match &commands[0] {
        XmppCommand::JoinMuc { room, nick } => {
            assert_eq!(room, "room@conference.localhost");
            assert_eq!(nick, "bot");
        }
        other => panic!("expected JoinMuc command, got {other:?}"),
    }
}

#[test]
fn test_control_actor_stream_error_conflict_maps_reason() {
    let actor = ControlActor::new();
    let reason = actor.on_stream_error("conflict".to_string());
    assert!(matches!(reason, DisconnectReason::Conflict));
}

#[test]
fn test_control_actor_read_timeout_returns_disconnect_when_channel_closed() {
    let actor = ControlActor::new();
    assert!(matches!(actor.on_read_timeout(), XmppCommand::Ping));
    let reason = actor.after_probe(false);
    assert!(matches!(reason, Some(DisconnectReason::ConnectionLost)));
    assert!(actor.after_probe(true).is_none());
}

fn subscription(from: &str) -> IncomingPresence {
    IncomingPresence { from: from.to_string(), presence_type: PresenceType::Subscribe }
}

#[test]
fn test_presence_actor_accepts_allowed_subscription() {
    let actor = PresenceActor::new();
    let config = test_config(vec!["*"], vec![]);
    let cmd = actor.handle(&subscription("alice@localhost/phone"), &config).unwrap();
    match cmd {
        XmppCommand::SendRaw(raw) => {
            assert!(raw.contains("subscribed"));
            assert!(raw.contains("alice@localhost"));
            assert_eq!(raw, "<presence to='alice@localhost' type='subscribed'/>");
        }
        other => panic!("expected SendRaw subscribed stanza, got {other:?}"),
    }
}

#[test]
fn test_presence_actor_rejects_cross_domain_subscription() {
    let actor = PresenceActor::new();
    let config = test_config(vec!["*"], vec![]);
    assert!(
        actor.handle(&subscription("alice@example.com/phone"), &config).is_none(),
        "expected no outbound command for cross-domain subscription"
    );
}

fn reaction(from: &str, message_id: &str, emoji: &str, kind: MessageType) -> IncomingReaction {
    IncomingReaction {
        from: from.to_string(),
        to: "bot@localhost".to_string(),
        message_id: message_id.to_string(),
        emojis: vec![emoji.to_string()],
        message_type: kind,
    }
}

#[test]
fn test_reaction_actor_emits_composing_and_reply_for_chat() {
    let config = test_config(vec!["*"], vec![]);
    let actor = ReactionActor::new();
    let reaction = reaction("alice@localhost/phone", "msg-1", "👍", MessageType::Chat);

    let plan = actor.handle(&reaction, &config);
    assert_eq!(plan.ask.as_deref(), Some("alice@localhost"));
    let mut effects = plan.effects;
    effects.extend(actor.finish(&reaction, Some("thanks".to_string())));
    assert_eq!(stores(&effects), (1, 1));
    let sent = sends(effects);
    match &sent[0] {
        XmppCommand::SendChatState { to, msg_type, .. } => {
            assert_eq!(to, "alice@localhost/phone");
            assert_eq!(msg_type, "chat");
        }
        other => panic!("expected chat state, got {other:?}"),
    }
    match &sent[1] {
        XmppCommand::SendMessage { to, body, .. } => {
            assert_eq!(to, "alice@localhost/phone");
            assert_eq!(body, "thanks");
        }
        other => panic!("expected message, got {other:?}"),
    }
}

#[test]
fn test_reaction_actor_ignores_unauthorized_chat_reaction() {
    let config = test_config(vec!["admin@localhost"], vec![]);
    let actor = ReactionActor::new();
    let reaction = reaction("alice@localhost/phone", "msg-2", "🔥", MessageType::Chat);

    let plan = actor.handle(&reaction, &config);
    assert!(plan.effects.is_empty(), "expected no outbound commands for unauthorized reaction");
    assert!(plan.ask.is_none());
}

// ---- more ---------------------------------------------------------------

#[test]
fn strangers_get_no_answer() {
    let actor = MessageActor::new();
    let config = test_config(vec!["alice@localhost"], vec![]);
    for from in ["mallory@localhost/x", "alice@evil.com/x"] {
        let msg = make_message(from, "bot@localhost", "hi", MessageType::Chat, None);
        let plan = actor.handle(&msg, &config);
        assert!(plan.effects.is_empty());
        assert!(matches!(plan.ask, Ask::Nobody));
    }
}

#[test]
fn room_messages_are_kept_and_answered_only_when_mentioned() {
    let actor = MessageActor::new();
    let config = test_config(vec![], vec![room("lobby@conference.localhost", "bot")]);
    let say = |from: &str, body: &str| {
        let msg = make_message(from, "bot@localhost", body, MessageType::GroupChat, Some("m1"));
        actor.handle(&msg, &config)
    };
    let quiet = say("lobby@conference.localhost/alice", "hello everyone");
    assert_eq!(stores(&quiet.effects), (0, 1));
    assert!(matches!(quiet.ask, Ask::Nobody));

    let asked = say("lobby@conference.localhost/alice", "bot: what's up?");
    assert_eq!(stores(&asked.effects), (0, 1));
    match &asked.ask {
        Ask::Room { room, body } => {
            assert_eq!(room, "lobby@conference.localhost");
            assert_eq!(body, "what's up?");
        }
        other => panic!("expected a question, got {other:?}"),
    }

    let own = say("lobby@conference.localhost/bot", "@bot talking to myself");
    assert!(own.effects.is_empty());
    assert!(matches!(own.ask, Ask::Nobody));

    let elsewhere = say("other@conference.localhost/alice", "@bot hi");
    assert!(elsewhere.effects.is_empty());
    assert!(matches!(elsewhere.ask, Ask::Nobody));
}

#[test]
fn room_messages_are_stored_under_the_nick() {
    let actor = MessageActor::new();
    let config = test_config(vec![], vec![room("lobby@conference.localhost", "bot")]);
    let mut msg = make_message(
        "lobby@conference.localhost/alice",
        "bot@localhost",
        "look",
        MessageType::GroupChat,
        Some("m1"),
    );
    msg.oob.push(OobData { url: "https://example.com/a.png".to_string(), desc: None });
    match &actor.handle(&msg, &config).effects[0] {
        MessageEffect::Store(MemoryRequest::StoreMessageFull {
            jid, role, content, msg_id, sender, attachments, reaction,
        }) => {
            assert_eq!(jid, "lobby@conference.localhost");
            assert_eq!(role, "user");
            assert_eq!(content, "look");
            assert_eq!(msg_id.as_deref(), Some("m1"));
            assert_eq!(sender.as_deref(), Some("alice@muc"));
            assert_eq!(attachments.as_ref().unwrap()[0].filename, "a.png");
            assert!(reaction.is_none());
        }
        other => panic!("expected a write, got {other:?}"),
    }
}

#[test]
fn chats_with_files_go_to_the_attachment_pipeline() {
    let actor = MessageActor::new();
    let config = test_config(vec!["*"], vec![]);
    let mut msg =
        make_message("alice@localhost/x", "bot@localhost", "look", MessageType::Chat, Some("m1"));
    msg.oob.push(OobData { url: "https://example.com/a.png".to_string(), desc: None });
    assert!(matches!(actor.handle(&msg, &config).ask, Ask::Attachments));
    msg.body = "/ping".to_string();
    assert!(matches!(actor.handle(&msg, &config).ask, Ask::Command { .. }));
    let told = sends(actor.finish_attachments(&msg, Some(Failure::new("attachment_pipeline_busy"))));
    assert!(matches!(&told[0], XmppCommand::SendChatState { state: ChatState::Paused, .. }));
    match &told[1] {
        XmppCommand::SendMessage { body, .. } => assert!(body.contains("(ref: m1)")),
        other => panic!("expected SendMessage, got {other:?}"),
    }
    assert!(actor.finish_attachments(&msg, None).is_empty());
}

#[test]
fn failures_are_told_without_their_causes() {
    let actor = MessageActor::new();
    let msg =
        make_message("alice@localhost/x", "bot@localhost", "hi", MessageType::Chat, Some("m7"));
    let effects = actor.finish(&msg, false, Err(Failure::new("db password is hunter2")));
    let sent = sends(effects);
    assert!(matches!(&sent[0], XmppCommand::SendChatState { state: ChatState::Paused, .. }));
    match &sent[1] {
        XmppCommand::SendMessage { body, id, .. } => {
            assert!(!body.contains("hunter2"));
            assert!(body.contains("m7"));
            assert!(id.is_none());
        }
        other => panic!("expected SendMessage, got {other:?}"),
    }
}

#[test]
fn chat_answers_carry_fresh_identifiers() {
    let actor = MessageActor::new();
    let msg = make_message("alice@localhost/x", "bot@localhost", "hi", MessageType::Chat, None);
    let answer = || {
        let effects = actor.finish(&msg, false, Ok(CommandReply::text_only("hello".to_string())));
        match &sends(effects)[..] {
            [XmppCommand::SendMessage { to, body, id: Some(id) }] => {
                assert_eq!(to, "alice@localhost/x");
                assert_eq!(body, "hello");
                id.clone()
            }
            other => panic!("expected one message, got {other:?}"),
        }
    };
    let (a, b) = (answer(), answer());
    assert_eq!(a.len(), 36);
    assert_ne!(a, b);
}

#[test]
fn reactions_in_rooms_go_to_the_room() {
    let config = test_config(vec![], vec![]);
    let actor = ReactionActor::new();
    let r = reaction("room@conference.localhost/bob", "m", "👍", MessageType::GroupChat);
    let plan = actor.handle(&r, &config);
    match &plan.effects[0] {
        MessageEffect::Store(MemoryRequest::StoreMessageFull { jid, sender, reaction, .. }) => {
            assert_eq!(jid, "room@conference.localhost");
            assert_eq!(sender.as_deref(), Some("bob@muc"));
            assert_eq!(reaction.as_ref().unwrap().emojis, vec!["👍".to_string()]);
        }
        other => panic!("expected a write, got {other:?}"),
    }
    let quiet = sends(actor.finish(&r, None));
    assert_eq!(quiet.len(), 1);
    assert!(matches!(
        &quiet[0],
        XmppCommand::SendChatState { to, state: ChatState::Paused, msg_type }
            if to == "room@conference.localhost" && msg_type == "groupchat"
    ));
}

#[test]
fn mentions_that_change_length_cannot_be_cut() {
    assert_eq!(checked_strip_mention("bot", "@BOT hello"), Some("hello".to_string()));
    assert_eq!(checked_strip_mention("élan", "@ÉLAN: bonjour"), Some("bonjour".to_string()));
    // 'İ' takes two bytes, its small form three.
    assert!(is_mentioned("İ", "@İé"));
    assert_eq!(checked_strip_mention("İ", "@İé"), None);
}

#[test]
fn lanes_report_their_own_failures() {
    let code = |r: Result<(), Failure>| r.unwrap_err().causes[0].clone();
    assert_eq!(code(SessionMessageActor::handle(SendOutcome::TimedOut, None)), "session_message_busy");
    assert_eq!(
        code(SessionReactionActor::handle(SendOutcome::Closed, None)),
        "session_reaction_unavailable"
    );
    assert_eq!(
        code(SessionPresenceActor::handle(SendOutcome::Sent, None)),
        "session_presence_unavailable"
    );
    assert!(SessionPresenceActor::handle(SendOutcome::Sent, Some(Ok(()))).is_ok());
    assert_eq!(
        code(SessionMessageActor::handle(SendOutcome::Sent, Some(Err(Failure::new("own"))))),
        "own"
    );
    assert_eq!(
        code(SessionControlActor::on_connected(SendOutcome::TimedOut, None)),
        "session_control_busy"
    );
    assert!(matches!(
        SessionControlActor::on_stream_error(SendOutcome::Sent, Some(Ok(None))),
        Ok(DisconnectReason::ConnectionLost)
    ));
    assert!(matches!(
        SessionControlActor::on_stream_error(
            SendOutcome::Sent,
            Some(Ok(Some(DisconnectReason::Conflict)))
        ),
        Ok(DisconnectReason::Conflict)
    ));
    assert!(SessionControlActor::on_error(SendOutcome::Sent, Some(Ok(None))).is_ok());
    assert!(matches!(
        SessionControlActor::on_read_timeout(SendOutcome::Sent, Some(Ok(None))),
        Ok(None)
    ));
}

#[test]
fn lanes_have_room_for_one_at_least() {
    let mut config = test_config(vec![], vec![]);
    assert_eq!(SessionMessageActor::new(&config).lane.mailbox_size, 256);
    config.actors.session_mailbox = 0;
    config.actors.tooling.skill_queue_timeout_ms = 0;
    for lane in [
        SessionMessageActor::new(&config).lane,
        SessionReactionActor::new(&config).lane,
        SessionPresenceActor::new(&config).lane,
        SessionControlActor::new(&config).lane,
    ] {
        assert_eq!(lane.mailbox_size, 1);
        assert_eq!(lane.enqueue_timeout.as_millis(), 1);
    }
}

#[test]
fn answers_about_files_are_sent_or_explained() {
    let ok = SessionResponderActor::spawn_attachment_message_task("a@b/c", Ok("nice".to_string()));
    match &ok[..] {
        [XmppCommand::SendMessage { to, body, id: Some(id) }] => {
            assert_eq!(to, "a@b/c");
            assert_eq!(body, "nice");
            assert_eq!(id.len(), 36);
        }
        other => panic!("expected one message, got {other:?}"),
    }
    let bad =
        SessionResponderActor::spawn_attachment_message_task("a@b/c", Err(Failure::new("planner_busy")));
    assert_eq!(bad.len(), 2);
    assert!(matches!(&bad[0], XmppCommand::SendChatState { state: ChatState::Paused, .. }));
    match &bad[1] {
        XmppCommand::SendMessage { body, id, .. } => {
            assert_eq!(body, "Sorry, an error occurred: planner_busy");
            assert!(id.is_none());
        }
        other => panic!("expected SendMessage, got {other:?}"),
    }
}

#[test]
fn a_slash_in_a_room_is_a_command() {
    let actor = MessageActor::new();
    let config = test_config(
        vec!["alice@localhost"],
        vec![room("lobby@conference.localhost", "bot")],
    );
    let ask = |body: &str| {
        let msg = make_message(
            "lobby@conference.localhost/alice",
            "bot@localhost",
            body,
            MessageType::GroupChat,
            Some("m1"),
        );
        actor.handle(&msg, &config).ask
    };
    match ask("/ping @bot") {
        Ask::Command { body, .. } => assert_eq!(body, "/ping @bot"),
        other => panic!("expected a command, got {other:?}"),
    }
    match ask("bot: /status") {
        Ask::Command { body, .. } => assert_eq!(body, "/status"),
        other => panic!("expected a command, got {other:?}"),
    }
    assert!(matches!(ask("/ping"), Ask::Nobody));
}

#[test]
fn an_answer_of_the_model_has_an_identifier() {
    let actor = MessageActor::new();
    let config = test_config(vec!["alice@localhost"], vec![]);
    let msg = make_message(
        "alice@localhost/mobile",
        "bot@localhost",
        "hello",
        MessageType::Chat,
        Some("in-1"),
    );
    let ask = actor.handle(&msg, &config).ask;
    assert!(matches!(ask, Ask::Chat { .. }));
    let reply = Ok(CommandReply::text_only("hi".to_string()));
    let sent = sends(actor.finish(&msg, ask.is_command(), reply));
    match &sent[0] {
        XmppCommand::SendMessage { id: Some(id), .. } => assert_eq!(id.len(), 36),
        other => panic!("expected a message with an identifier, got {other:?}"),
    }
}
