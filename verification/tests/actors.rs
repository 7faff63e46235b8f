//! Tests of the router, of the ways in and out, of the skills and of the
//! writers of memory.

use fluux_agent::actors::dead_letter::DeadLetterSource;
use fluux_agent::actors::mailbox::SendOutcome;
use fluux_agent::actors::memory_actor::{
    process_request, MemoryActor, MemoryRequest, ShardedMemoryWriter,
};
use fluux_agent::actors::router::{
    build_busy_response_command, busy_outcome, event_kind, overflow_counter, OfferOutcome,
    RouterAction, RouterActor, RouterEvent, RouterState,
};
use fluux_agent::actors::session::{lane_of, Lane, SessionActor, SessionStep};
use fluux_agent::actors::skill_router::{
    capability_matches_rule, classify_skill_error, PermitOutcome, SkillActor, SkillContext,
    SkillErrorClass, SkillEvent, SkillExecution, SkillRouterActor, SkillStep,
};
use fluux_agent::actors::tool_executor::{ToolExecutorActor, ToolStep, ToolTurn};
use fluux_agent::actors::types::{Envelope, SYSTEM_CONVERSATION_ID};
use fluux_agent::actors::user_error::{correlation_id_or_new, to_user_safe_message, Failure};
use fluux_agent::actors::xmpp_egress::{
    correlation_id_for_command, extract_ref_correlation_id, EgressFailureReason, ForwardStep,
    XmppEgressActor,
};
use fluux_agent::actors::xmpp_ingress::XmppIngressActor;
use fluux_agent::agent::memory::Memory;
use fluux_agent::config::ActorToolingConfig;
use fluux_agent::llm::types::{
    InputContentBlock, LlmResponse, Message, MessageContent, StopReason, ToolCall, ToolDefinition,
};
use fluux_agent::text_map::TextMap;
use fluux_agent::time::Duration;
use fluux_agent::xmpp::{
    DisconnectReason, IncomingMessage, IncomingPresence, IncomingReaction, MessageType,
    PresenceType, XmppCommand, XmppEvent,
};
use serde_json::Value;

fn message(from: &str, id: Option<&str>, body: &str, message_type: MessageType) -> XmppEvent {
    XmppEvent::Message(IncomingMessage {
        from: from.to_string(),
        to: "bot@localhost".to_string(),
        body: body.to_string(),
        id: id.map(ToString::to_string),
        message_type,
        oob: vec![],
    })
}

fn secs(n: u64) -> Duration {
    Duration::from_secs(n)
}

// ---- envelopes and failures ---------------------------------------------

#[test]
fn test_envelope_from_message_uses_bare_jid() {
    let event = XmppEvent::Message(IncomingMessage {
        from: "alice@example.com/mobile".to_string(),
        to: "bot@example.com".to_string(),
        body: "hello".to_string(),
        id: Some("msg-123".to_string()),
        message_type: MessageType::Chat,
        oob: vec![],
    });

    let envelope = Envelope::from_xmpp_event(event);
    assert_eq!(envelope.conversation_id, "alice@example.com");
    assert_eq!(envelope.correlation_id, "msg-123");
    assert!(envelope.received_at_ms > 0);
}

#[test]
fn test_envelope_from_connected_is_system_scoped() {
    let envelope = Envelope::from_xmpp_event(XmppEvent::Connected);
    assert_eq!(envelope.conversation_id, SYSTEM_CONVERSATION_ID);
    assert!(!envelope.correlation_id.is_empty());
}

#[test]
fn fresh_identifiers_are_hyphenated_and_differ() {
    let a = Envelope::from_xmpp_event(XmppEvent::Connected).correlation_id;
    let b = correlation_id_or_new(Some(""));
    let c = correlation_id_or_new(None);
    assert_ne!(a, b);
    assert_ne!(b, c);
    for id in [a, b, c] {
        assert_eq!(id.len(), 36);
        assert_eq!(id.chars().filter(|c| *c == '-').count(), 4);
        assert!(id.chars().all(|c| c == '-' || c.is_ascii_hexdigit()));
    }
}

#[test]
fn test_correlation_id_or_new_keeps_non_empty_id() {
    assert_eq!(correlation_id_or_new(Some("msg-123")), "msg-123");
}

#[test]
fn test_to_user_safe_message_maps_busy_errors() {
    let error = Failure::new("session_message_busy");
    let rendered = to_user_safe_message(&error, "corr-1");
    assert!(rendered.contains("System busy. Please retry in a few seconds."));
    assert!(rendered.contains("(ref: corr-1)"));
}

#[test]
fn test_to_user_safe_message_maps_unavailable_errors() {
    let error = Failure::new("tool_executor_unavailable");
    let rendered = to_user_safe_message(&error, "corr-2");
    assert!(rendered.contains("Service temporarily unavailable."));
    assert!(rendered.contains("(ref: corr-2)"));
}

#[test]
fn test_to_user_safe_message_hides_internal_details() {
    let error = Failure::new("database error: permission denied on /private/path");
    let rendered = to_user_safe_message(&error, "corr-3");
    assert!(rendered.contains("Sorry, an internal error occurred."));
    assert!(!rendered.contains("/private/path"));
}

#[test]
fn any_cause_decides_and_busy_goes_first() {
    let failure = Failure {
        causes: vec![
            "tool_executor_unavailable".to_string(),
            "after: session_message_busy".to_string(),
        ],
    };
    assert_eq!(
        to_user_safe_message(&failure, "c"),
        "System busy. Please retry in a few seconds. (ref: c)"
    );
}

// ---- the router ---------------------------------------------------------

#[test]
fn test_router_restart_backoff_is_exponential_and_capped() {
    let router = RouterActor::with_supervision(8, 8, 3600, 5, 50, 120, 10);
    let mut restart_state = TextMap::new();

    let first = router
        .next_restart_delay("alice@localhost", &mut restart_state, secs(1))
        .expect("first restart delay");
    let second = router
        .next_restart_delay("alice@localhost", &mut restart_state, secs(1))
        .expect("second restart delay");
    let third = router
        .next_restart_delay("alice@localhost", &mut restart_state, secs(1))
        .expect("third restart delay");

    assert_eq!(first, Duration::from_millis(50));
    assert_eq!(second, Duration::from_millis(100));
    assert_eq!(third, Duration::from_millis(120));
}

#[test]
fn test_router_restart_budget_limits_restarts_per_minute() {
    let router = RouterActor::with_supervision(8, 8, 3600, 5, 50, 200, 2);
    let mut restart_state = TextMap::new();

    assert!(router
        .next_restart_delay("alice@localhost", &mut restart_state, secs(1))
        .is_some());
    assert!(router
        .next_restart_delay("alice@localhost", &mut restart_state, secs(1))
        .is_some());
    assert!(router
        .next_restart_delay("alice@localhost", &mut restart_state, secs(1))
        .is_none());
}

#[test]
fn test_router_restart_budget_zero_disables_auto_restart() {
    let router = RouterActor::with_supervision(8, 8, 3600, 5, 50, 200, 0);
    let mut restart_state = TextMap::new();

    assert!(router
        .next_restart_delay("alice@localhost", &mut restart_state, secs(1))
        .is_none());
}

#[test]
fn the_restart_budget_comes_back_after_a_minute() {
    let router = RouterActor::with_supervision(8, 8, 3600, 5, 50, 200, 1);
    let mut state = TextMap::new();
    assert!(router.next_restart_delay("a", &mut state, secs(100)).is_some());
    assert!(router.next_restart_delay("a", &mut state, secs(159)).is_none());
    assert!(router.next_restart_delay("b", &mut state, secs(159)).is_some());
    assert_eq!(
        router.next_restart_delay("a", &mut state, secs(161)),
        Some(Duration::from_millis(100))
    );
}

#[test]
fn test_build_busy_response_for_chat_message() {
    let envelope = Envelope {
        conversation_id: "alice@example.com".to_string(),
        correlation_id: "corr-123".to_string(),
        received_at_ms: 0,
        event: XmppEvent::Message(IncomingMessage {
            from: "alice@example.com/mobile".to_string(),
            to: "bot@example.com".to_string(),
            body: "hello".to_string(),
            id: Some("m1".to_string()),
            message_type: MessageType::Chat,
            oob: vec![],
        }),
    };

    let cmd = build_busy_response_command(&envelope, 5).expect("busy response expected");
    match cmd {
        XmppCommand::SendMessage { to, body, id } => {
            assert_eq!(to, "alice@example.com/mobile");
            assert!(body.contains("System busy. Please retry in 5s."));
            assert!(body.contains("(ref: corr-123)"));
            assert!(id.is_none());
        }
        _ => panic!("expected SendMessage"),
    }
}

#[test]
fn test_build_busy_response_for_groupchat_message() {
    let envelope = Envelope {
        conversation_id: "room@conference.example.com".to_string(),
        correlation_id: "corr-room".to_string(),
        received_at_ms: 0,
        event: XmppEvent::Message(IncomingMessage {
            from: "room@conference.example.com/alice".to_string(),
            to: "bot@example.com".to_string(),
            body: "@bot hello".to_string(),
            id: Some("m2".to_string()),
            message_type: MessageType::GroupChat,
            oob: vec![],
        }),
    };

    let cmd = build_busy_response_command(&envelope, 7).expect("busy response expected");
    match cmd {
        XmppCommand::SendMucMessage { to, body, id } => {
            assert_eq!(to, "room@conference.example.com");
            assert!(body.contains("System busy. Please retry in 7s."));
            assert!(body.contains("(ref: corr-room)"));
            assert!(id.is_none());
        }
        _ => panic!("expected SendMucMessage"),
    }
}

#[test]
fn test_build_busy_response_non_message_event_returns_none() {
    let envelope = Envelope {
        conversation_id: "__system__".to_string(),
        correlation_id: "corr-sys".to_string(),
        received_at_ms: 0,
        event: XmppEvent::Connected,
    };

    assert!(build_busy_response_command(&envelope, 5).is_none());
}

fn arrive(router: &RouterActor, state: &mut RouterState, id: &str, now: u64) -> RouterAction {
    router.run(state, RouterEvent::Arrived { conversation_id: id.to_string() }, secs(now))
}

fn offer(
    router: &RouterActor,
    state: &mut RouterState,
    id: &str,
    outcome: OfferOutcome,
    now: u64,
) -> RouterAction {
    router.run(state, RouterEvent::Offered { conversation_id: id.to_string(), outcome }, secs(now))
}

#[test]
fn test_router_emits_busy_when_max_active_sessions_reached() {
    let router = RouterActor::new(8, 1, 3600, 5);
    let mut state = RouterActor::start();
    assert!(matches!(
        arrive(&router, &mut state, "alice@localhost", 1),
        RouterAction::StartAndOffer
    ));
    offer(&router, &mut state, "alice@localhost", OfferOutcome::Taken, 1);
    let reason = match arrive(&router, &mut state, "bob@localhost", 1) {
        RouterAction::TurnAway { reason } => reason,
        other => panic!("expected a refusal, got {other:?}"),
    };
    let envelope = Envelope {
        conversation_id: "bob@localhost".to_string(),
        correlation_id: "msg-2".to_string(),
        received_at_ms: 7,
        event: message("bob@localhost/laptop", Some("msg-2"), "hello", MessageType::Chat),
    };
    match build_busy_response_command(&envelope, router.busy_retry_after_secs) {
        Some(XmppCommand::SendMessage { to, body, .. }) => {
            assert_eq!(to, "bob@localhost/laptop");
            assert!(body.contains("System busy. Please retry in 5s."));
            assert!(body.contains("(ref: msg-2)"));
        }
        other => panic!("expected a message, got {other:?}"),
    }
    let record = RouterActor::record_dead_letter(
        reason,
        &envelope,
        busy_outcome(Some(OfferOutcome::Taken)),
    );
    assert_eq!(record.reason, "max_active_sessions_reached");
    assert_eq!(record.correlation_id, "msg-2");
    assert_eq!(record.source, DeadLetterSource::Router);
    assert_eq!(record.busy_response.as_deref(), Some("sent"));
    assert_eq!(record.conversation_id.as_deref(), Some("bob@localhost"));
    assert_eq!(record.received_at_ms, Some(7));
    assert_eq!(record.payload_kind, "message");
    assert!(matches!(
        router.run(&mut state, RouterEvent::IngressClosed, secs(2)),
        RouterAction::Stop { reason: DisconnectReason::ConnectionLost }
    ));
}

#[test]
fn test_router_emits_busy_when_session_mailbox_is_saturated() {
    let router = RouterActor::new(1, 8, 3600, 9);
    let mut state = RouterActor::start();
    arrive(&router, &mut state, "alice@localhost", 1);
    offer(&router, &mut state, "alice@localhost", OfferOutcome::Taken, 1);
    assert!(matches!(arrive(&router, &mut state, "alice@localhost", 1), RouterAction::Offer));
    let reason = match offer(&router, &mut state, "alice@localhost", OfferOutcome::Full, 1) {
        RouterAction::TurnAway { reason } => reason,
        other => panic!("expected a refusal, got {other:?}"),
    };
    let event = message("alice@localhost/phone", Some("sat-1"), "flood", MessageType::Chat);
    let envelope = Envelope::from_xmpp_event(event);
    match build_busy_response_command(&envelope, router.busy_retry_after_secs) {
        Some(XmppCommand::SendMessage { to, body, .. }) => {
            assert_eq!(to, "alice@localhost/phone");
            assert!(body.contains("System busy. Please retry in 9s."));
            assert!(body.contains("(ref: sat-1)"));
        }
        other => panic!("expected a message, got {other:?}"),
    }
    let record = RouterActor::record_dead_letter(
        reason,
        &envelope,
        busy_outcome(Some(OfferOutcome::Taken)),
    );
    assert_eq!(record.reason, "session_mailbox_full");
    assert_eq!(record.source, DeadLetterSource::Router);
    assert_eq!(record.busy_response.as_deref(), Some("sent"));
    assert!(matches!(arrive(&router, &mut state, "alice@localhost", 2), RouterAction::Offer));
    assert_eq!(busy_outcome(None).as_str(), "not_applicable");
    assert_eq!(busy_outcome(Some(OfferOutcome::Full)).as_str(), "egress_full");
    assert_eq!(busy_outcome(Some(OfferOutcome::Closed)).as_str(), "egress_closed");
    assert!(matches!(
        router.run(&mut state, RouterEvent::IngressClosed, secs(3)),
        RouterAction::Stop { reason: DisconnectReason::ConnectionLost }
    ));
}

#[test]
fn test_router_evicts_idle_session_after_ttl() {
    let router = RouterActor::new(16, 1, 1, 5);
    let mut state = RouterActor::start();
    arrive(&router, &mut state, "alice@localhost", 10);
    offer(&router, &mut state, "alice@localhost", OfferOutcome::Taken, 10);
    match router.run(&mut state, RouterEvent::Sweep, secs(12)) {
        RouterAction::End { conversations } => {
            assert_eq!(conversations, vec!["alice@localhost".to_string()])
        }
        other => panic!("expected an end, got {other:?}"),
    }
    assert!(matches!(
        arrive(&router, &mut state, "bob@localhost", 12),
        RouterAction::StartAndOffer
    ));
}

#[test]
fn test_router_recovers_conversation_after_injected_session_termination() {
    let router = RouterActor::new(16, 8, 3600, 5);
    let mut state = RouterActor::start();
    arrive(&router, &mut state, "alice@localhost", 1);
    offer(&router, &mut state, "alice@localhost", OfferOutcome::Taken, 1);
    let session = SessionActor::new("alice@localhost".to_string());
    let event = XmppEvent::StreamError("injected-test-failure".to_string());
    let step = session.run(
        &event,
        Ok(Some(DisconnectReason::StreamError("injected-test-failure".to_string()))),
    );
    let reason = match step {
        SessionStep::Exit(reason) => reason,
        other => panic!("expected an end, got {other:?}"),
    };
    let action = router.run(
        &mut state,
        RouterEvent::Exited { conversation_id: "alice@localhost".to_string(), reason },
        secs(1),
    );
    assert!(matches!(action, RouterAction::Nothing));
    assert!(matches!(
        arrive(&router, &mut state, "alice@localhost", 2),
        RouterAction::StartAndOffer
    ));
}

#[test]
fn a_lost_session_is_started_again() {
    let router = RouterActor::new(16, 8, 3600, 5);
    let mut state = RouterActor::start();
    let id = "alice@localhost".to_string();
    arrive(&router, &mut state, &id, 1);
    offer(&router, &mut state, &id, OfferOutcome::Taken, 1);
    let exited = RouterEvent::Exited {
        conversation_id: id.clone(),
        reason: DisconnectReason::ConnectionLost,
    };
    assert!(matches!(
        router.run(&mut state, exited, secs(1)),
        RouterAction::RestartAfter { .. }
    ));
    let due = RouterEvent::RestartDue { conversation_id: id.clone() };
    assert!(matches!(router.run(&mut state, due, secs(2)), RouterAction::Start));
    assert!(matches!(arrive(&router, &mut state, &id, 2), RouterAction::Offer));
}

#[test]
fn the_end_of_the_system_session_ends_the_router() {
    let router = RouterActor::new(8, 1, 3600, 5);
    let mut state = RouterActor::start();
    arrive(&router, &mut state, "alice@localhost", 1);
    assert!(matches!(
        arrive(&router, &mut state, SYSTEM_CONVERSATION_ID, 1),
        RouterAction::StartAndOffer
    ));
    assert!(matches!(
        router.run(
            &mut state,
            RouterEvent::Exited {
                conversation_id: SYSTEM_CONVERSATION_ID.to_string(),
                reason: DisconnectReason::Conflict
            },
            secs(1)
        ),
        RouterAction::Stop { reason: DisconnectReason::Conflict }
    ));
}

#[test]
fn events_have_kinds_and_lanes() {
    let presence = XmppEvent::Presence(IncomingPresence {
        from: "a@b".to_string(),
        presence_type: PresenceType::Subscribe,
    });
    let reaction = XmppEvent::Reaction(IncomingReaction {
        from: "a@b".to_string(),
        to: "c@d".to_string(),
        message_id: "m".to_string(),
        emojis: vec![],
        message_type: MessageType::Chat,
    });
    let chat = message("a@b", None, "x", MessageType::Chat);
    assert_eq!(event_kind(&XmppEvent::Connected), "connected");
    assert_eq!(event_kind(&chat), "message");
    assert_eq!(event_kind(&presence), "presence");
    assert_eq!(event_kind(&reaction), "reaction");
    assert_eq!(event_kind(&XmppEvent::StreamError("x".to_string())), "stream_error");
    assert_eq!(event_kind(&XmppEvent::Error("x".to_string())), "error");
    assert_eq!(event_kind(&XmppEvent::ReadTimeout), "read_timeout");
    assert_eq!(lane_of(&XmppEvent::ReadTimeout), Lane::Control);
    assert_eq!(lane_of(&chat), Lane::Message);
    assert_eq!(lane_of(&presence), Lane::Presence);
    assert_eq!(lane_of(&reaction), Lane::Reaction);
}

// ---- the ways in and out ------------------------------------------------

#[test]
fn test_ingress_dedupes_same_conversation_msg_id() {
    let actor = XmppIngressActor::new(60);
    let mut recent = vec![];
    let first = actor
        .run(
            message("alice@localhost/phone", Some("dup-1"), "hello", MessageType::Chat),
            &mut recent,
            secs(1),
        )
        .unwrap();
    assert_eq!(first.conversation_id, "alice@localhost");
    assert_eq!(first.correlation_id, "dup-1");
    let second = actor.run(
        message("alice@localhost/laptop", Some("dup-1"), "hello again", MessageType::Chat),
        &mut recent,
        secs(1),
    );
    assert!(second.is_none(), "duplicate should be dropped");
}

#[test]
fn test_ingress_allows_same_msg_id_across_conversations() {
    let actor = XmppIngressActor::new(60);
    let mut recent = vec![];
    let mut send = |from: &str| {
        actor
            .run(message(from, Some("shared"), "hello", MessageType::Chat), &mut recent, secs(1))
            .unwrap()
    };
    let first = send("alice@localhost/phone");
    let second = send("bob@localhost/laptop");
    assert_eq!(first.correlation_id, "shared");
    assert_eq!(second.correlation_id, "shared");
    assert_eq!(first.conversation_id, "alice@localhost");
    assert_eq!(second.conversation_id, "bob@localhost");
}

#[test]
fn test_ingress_accepts_replay_after_ttl_expiry() {
    let actor = XmppIngressActor::new(1);
    let mut recent = vec![];
    let mut send = |from: &str, ms: u64| {
        actor.run(
            message(from, Some("replay"), "hello", MessageType::Chat),
            &mut recent,
            Duration::from_millis(ms),
        )
    };
    assert_eq!(send("alice@localhost/phone", 1000).unwrap().correlation_id, "replay");
    assert!(
        send("alice@localhost/laptop", 1150).is_none(),
        "duplicate inside ttl should be dropped"
    );
    assert_eq!(send("alice@localhost/tablet", 2350).unwrap().correlation_id, "replay");
}

#[test]
fn test_ingress_does_not_dedupe_messages_without_id() {
    let actor = XmppIngressActor::new(60);
    let mut recent = vec![];
    let mut send = |body: &str| {
        actor
            .run(
                message("alice@localhost/phone", None, body, MessageType::Chat),
                &mut recent,
                secs(1),
            )
            .unwrap()
    };
    assert_eq!(send("hello").conversation_id, "alice@localhost");
    assert_eq!(send("hello-again").conversation_id, "alice@localhost");
}

#[test]
fn test_egress_forwards_command_successfully() {
    let actor = XmppEgressActor::new(50, 5, 2);
    assert_eq!(actor.forward_with_retries(0, SendOutcome::Sent), ForwardStep::Sent);
    assert_eq!(actor.send_timeout, Duration::from_millis(50));
}

#[test]
fn test_egress_records_dead_letter_after_timeout_exhaustion() {
    let actor = XmppEgressActor::new(20, 5, 2);
    let mut attempt = 0;
    let mut delays = vec![];
    let (reason, attempts) = loop {
        match actor.forward_with_retries(attempt, SendOutcome::TimedOut) {
            ForwardStep::RetryAfter(delay) => delays.push(delay.as_millis()),
            ForwardStep::Failed { reason, attempts } => break (reason, attempts),
            ForwardStep::Sent => panic!("nothing was sent"),
        }
        attempt += 1;
    };
    assert_eq!(delays, vec![5, 10]);
    assert!(!XmppEgressActor::stops(reason));
    let record = XmppEgressActor::record_dead_letter(&XmppCommand::Ping, reason, attempts, None);
    assert_eq!(record.reason, "send_timeout_exhausted");
    assert_eq!(record.source, DeadLetterSource::XmppEgress);
    assert_eq!(record.attempts, Some(3));
    assert_eq!(record.payload_kind, "ping");
    assert_eq!(record.destination, None);
}

#[test]
fn test_egress_records_dead_letter_when_transport_is_closed() {
    let actor = XmppEgressActor::new(50, 5, 3);
    let cmd = XmppCommand::SendMessage {
        to: "alice@localhost/mobile".to_string(),
        body: "System busy. Please retry in 5s. (ref: corr-123)".to_string(),
        id: None,
    };
    let (reason, attempts) = match actor.forward_with_retries(0, SendOutcome::Closed) {
        ForwardStep::Failed { reason, attempts } => (reason, attempts),
        other => panic!("expected a failure, got {other:?}"),
    };
    assert_eq!(reason, EgressFailureReason::TransportClosed);
    assert!(XmppEgressActor::stops(reason));
    let record = XmppEgressActor::record_dead_letter(&cmd, reason, attempts, Some(Value::Null));
    assert_eq!(record.reason, "transport_closed");
    assert_eq!(record.source, DeadLetterSource::XmppEgress);
    assert_eq!(record.attempts, Some(1));
    assert_eq!(record.payload_kind, "send_message");
    assert_eq!(record.correlation_id, "corr-123");
    assert_eq!(record.destination.as_deref(), Some("alice@localhost/mobile"));
    assert_eq!(record.payload, Some(Value::Null));
}

#[test]
fn references_are_read_from_the_first_mark() {
    let read = |s: &str| extract_ref_correlation_id(s);
    assert_eq!(read("x (ref:  a ) y (ref: b) z").as_deref(), Some("a"));
    assert_eq!(read("x (ref: a"), None);
    assert_eq!(read("x (ref: )"), None);
    assert_eq!(read("plain"), None);
    let named = XmppCommand::SendMucMessage {
        to: "r@c".to_string(),
        body: "(ref: b)".to_string(),
        id: Some("own".to_string()),
    };
    assert_eq!(correlation_id_for_command(&named), "own");
    assert_eq!(correlation_id_for_command(&XmppCommand::Ping), "unknown");
}

// ---- skills -------------------------------------------------------------

fn tooling_config(skill_timeout_secs: u64) -> ActorToolingConfig {
    ActorToolingConfig {
        max_tool_rounds: 5,
        skill_timeout_secs,
        max_parallel_skills: 8,
        skill_queue_timeout_ms: 5000,
        allowed_capabilities: vec!["*".to_string()],
    }
}

fn skill_router(name: &str, needs: &[&str], config: &ActorToolingConfig) -> SkillRouterActor {
    let mut required = TextMap::new();
    required.insert(name.to_string(), needs.iter().map(|s| s.to_string()).collect());
    let tools = vec![ToolDefinition {
        name: name.to_string(),
        description: "d".to_string(),
        input_schema: Value::Null,
    }];
    SkillRouterActor::new(tools, required, config)
}

fn finished(step: SkillStep) -> (SkillExecution, Option<&'static str>, Vec<&'static str>) {
    match step {
        SkillStep::Finished { execution, dead_letter_reason, counted } => {
            (execution, dead_letter_reason, counted)
        }
        other => panic!("expected an end, got {other:?}"),
    }
}

fn answer(router: &SkillRouterActor, name: &str, reply: Result<&str, &str>) -> SkillExecution {
    assert!(matches!(router.execute(name, SkillEvent::Called), SkillStep::AwaitTurn));
    let turn = SkillEvent::Turn(PermitOutcome::Granted);
    assert!(matches!(router.execute(name, turn), SkillStep::Ask));
    let reply = Some(reply.map(str::to_string).map_err(str::to_string));
    let event = SkillEvent::Asked { outcome: SendOutcome::Sent, reply };
    finished(router.execute(name, event)).0
}

#[test]
fn test_router_executes_skill_successfully() {
    let router = skill_router("echo", &[], &tooling_config(10));
    let result = answer(&router, "echo", Ok("echo: hello"));
    assert_eq!(result.content, "echo: hello");
    assert_eq!(result.error_class, None);
}

#[test]
fn test_router_returns_unknown_tool_error() {
    let router = SkillRouterActor::new(vec![], TextMap::new(), &tooling_config(10));
    let (result, dead_letter, counted) = finished(router.execute("missing", SkillEvent::Called));
    assert_eq!(dead_letter, None);
    assert_eq!(counted, vec!["error.skill.unknown_tool"]);
    assert_eq!(result.content, "Error: unknown tool 'missing'");
    assert_eq!(result.error_class, Some(SkillErrorClass::UnknownTool));
}

#[test]
fn test_router_classifies_policy_denied_errors() {
    let router = skill_router("policy", &[], &tooling_config(10));
    let result = answer(&router, "policy", Err("policy_denied: blocked by test"));
    assert!(result.content.contains("policy_denied: blocked by test"));
    assert_eq!(result.error_class, Some(SkillErrorClass::PolicyDenied));
}

#[test]
fn test_router_applies_timeout() {
    let router = skill_router("slow", &[], &tooling_config(1));
    assert_eq!(router.skill_timeout, Some(secs(1)));
    let result = answer(&router, "slow", Err("timeout"));
    assert_eq!(result.content, "Error: timeout");
    assert_eq!(result.error_class, Some(SkillErrorClass::Timeout));
}

#[test]
fn test_router_returns_timeout_when_skill_queue_wait_expires() {
    let router = skill_router("blocking", &[], &tooling_config(10));
    let turn = SkillEvent::Turn(PermitOutcome::TimedOut);
    let (result, dead_letter, counted) = finished(router.execute("blocking", turn));
    assert_eq!(result.content, "Error: timeout");
    assert_eq!(result.error_class, Some(SkillErrorClass::Timeout));
    assert_eq!(counted, vec!["overflow.skill.queue_timeout"]);
    let context =
        SkillContext { jid: "alice@localhost".to_string(), base_path: ".".to_string() };
    let record = SkillRouterActor::record_dead_letter(
        dead_letter.unwrap(),
        "blocking",
        &context,
        Some(Value::Bool(true)),
    );
    assert_eq!(record.source, DeadLetterSource::SkillRouter);
    assert_eq!(record.reason, "skill_queue_timeout");
    assert_eq!(record.conversation_id.as_deref(), Some("alice@localhost"));
    assert_eq!(record.payload_kind, "blocking");
    assert_eq!(record.payload, Some(Value::Bool(true)));
    assert_eq!(record.correlation_id.len(), 36);
}

#[test]
fn test_router_denies_skill_when_capability_not_allowed() {
    let mut config = tooling_config(10);
    config.allowed_capabilities = vec!["filesystem:*".to_string()];
    let router = skill_router("network_tool", &["network:api.example.com:443"], &config);
    let (result, _, counted) = finished(router.execute("network_tool", SkillEvent::Called));
    assert_eq!(counted, vec!["error.skill.policy_denied"]);
    assert!(result.content.contains("Error: policy_denied (missing capability"));
    assert_eq!(result.error_class, Some(SkillErrorClass::PolicyDenied));
}

#[test]
fn test_router_allows_skill_when_capability_matches_prefix_rule() {
    let mut config = tooling_config(10);
    config.allowed_capabilities = vec!["network:*".to_string()];
    let router = skill_router("network_tool", &["network:api.example.com:443"], &config);
    let result = answer(&router, "network_tool", Ok("network-ok"));
    assert_eq!(result.content, "network-ok");
    assert_eq!(result.error_class, None);
}

#[test]
fn rules_and_failures_are_classified() {
    assert!(capability_matches_rule("network:x", "*"));
    assert!(capability_matches_rule("network:x", "network:x"));
    assert!(!capability_matches_rule("network:x", "network:"));
    assert!(!capability_matches_rule("filesystem:x", "network:*"));
    assert_eq!(classify_skill_error("request TIMEOUT"), SkillErrorClass::Timeout);
    assert_eq!(classify_skill_error("boom"), SkillErrorClass::ExecutionError);
    let closed = SkillActor::execute(SendOutcome::Closed).unwrap();
    assert_eq!(closed.message, "execution_error");
    assert_eq!(closed.dead_letter_reason, "skill_mailbox_closed");
    assert_eq!(closed.counter, "overflow.skill.unavailable");
    assert!(SkillActor::execute(SendOutcome::Sent).is_none());
}

#[test]
fn a_skill_that_is_not_reached_is_a_dead_letter() {
    let router = skill_router("echo", &[], &tooling_config(10));
    let lost = |outcome| finished(router.execute("echo", SkillEvent::Asked { outcome, reply: None }));

    let (result, dead_letter, counted) = lost(SendOutcome::TimedOut);
    assert_eq!(result.content, "Error: timeout");
    assert_eq!(result.error_class, Some(SkillErrorClass::Timeout));
    assert_eq!(dead_letter, Some("skill_enqueue_timeout"));
    assert_eq!(counted, vec!["overflow.skill.enqueue_timeout", "error.skill.execution"]);

    let (result, dead_letter, _) = lost(SendOutcome::Sent);
    assert_eq!(result.content, "Error: execution_error");
    assert_eq!(result.error_class, Some(SkillErrorClass::ExecutionError));
    assert_eq!(dead_letter, None);

    let closed = SkillEvent::Turn(PermitOutcome::Closed);
    let (result, dead_letter, counted) = finished(router.execute("echo", closed));
    assert_eq!(result.content, "Error: execution_error");
    assert_eq!(dead_letter, Some("skill_permit_closed"));
    assert_eq!(counted, vec!["overflow.skill.permit_closed"]);
}

#[test]
fn test_empty_skills_produces_none_tools() {
    let router = SkillRouterActor::new(vec![], TextMap::new(), &tooling_config(10));
    let defs = router.tool_definitions();
    assert!(defs.is_empty());
    let turn = ToolTurn::begin(&tooling_config(10), vec![]);
    let tools: Option<Vec<ToolDefinition>> =
        if turn.offers_tools(!router.is_empty()) { Some(defs) } else { None };
    assert!(tools.is_none());
}

// ---- rounds of tools ----------------------------------------------------

fn end_turn_response(text: &str, in_tokens: u32, out_tokens: u32) -> LlmResponse {
    LlmResponse {
        text: text.to_string(),
        tool_calls: vec![],
        stop_reason: StopReason::EndTurn,
        input_tokens: in_tokens,
        output_tokens: out_tokens,
        content_blocks: vec![InputContentBlock::Text { text: text.to_string() }],
    }
}

fn tool_use_response(tool_name: &str, tool_id: &str) -> LlmResponse {
    LlmResponse {
        text: String::new(),
        tool_calls: vec![ToolCall {
            id: tool_id.to_string(),
            name: tool_name.to_string(),
            input: Value::Null,
        }],
        stop_reason: StopReason::ToolUse,
        input_tokens: 5,
        output_tokens: 7,
        content_blocks: vec![InputContentBlock::ToolUse {
            id: tool_id.to_string(),
            name: tool_name.to_string(),
            input: Value::Null,
        }],
    }
}

fn user_message(text: &str) -> Vec<Message> {
    vec![Message { role: "user".to_string(), content: MessageContent::Text(text.to_string()) }]
}

fn three_rounds() -> ActorToolingConfig {
    ActorToolingConfig {
        max_tool_rounds: 3,
        skill_timeout_secs: 30,
        max_parallel_skills: 1,
        skill_queue_timeout_ms: 100,
        allowed_capabilities: vec!["*".to_string()],
    }
}

#[test]
fn test_tool_executor_returns_end_turn_without_tools() {
    let turn = ToolTurn::begin(&three_rounds(), user_message("hello"));
    let reply = match turn.on_response(end_turn_response("done", 11, 13)) {
        ToolStep::Done(reply) => reply,
        other => panic!("expected an end, got {other:?}"),
    };
    let mut messages = user_message("hello");
    let (text, in_tokens, out_tokens) =
        ToolExecutorActor::execute(SendOutcome::Sent, Some(Ok(reply)), &mut messages).unwrap();
    assert_eq!(text, "done");
    assert_eq!(in_tokens, 11);
    assert_eq!(out_tokens, 13);
    assert_eq!(messages.len(), 1, "no tool rounds should mutate messages");
}

#[test]
fn test_tool_executor_unknown_tool_inserts_error_and_completes() {
    let skills = SkillRouterActor::new(vec![], TextMap::new(), &three_rounds());
    let turn = ToolTurn::begin(&three_rounds(), user_message("do something"));
    let (turn, calls) = match turn.on_response(tool_use_response("missing_tool", "toolu-1")) {
        ToolStep::RunTools { turn, calls } => (turn, calls),
        other => panic!("expected tools, got {other:?}"),
    };
    let results = calls
        .iter()
        .map(|c| finished(skills.execute(&c.name, SkillEvent::Called)).0.content)
        .collect();
    let turn = turn.on_results(&calls, results);
    let reply = match turn.on_response(end_turn_response("final", 3, 4)) {
        ToolStep::Done(reply) => reply,
        other => panic!("expected an end, got {other:?}"),
    };
    let mut messages = user_message("do something");
    let (text, in_tokens, out_tokens) =
        ToolExecutorActor::execute(SendOutcome::Sent, Some(Ok(reply)), &mut messages).unwrap();
    assert_eq!(text, "final");
    assert_eq!(in_tokens, 8);
    assert_eq!(out_tokens, 11);
    assert_eq!(messages.len(), 3);
    match &messages[2].content {
        MessageContent::Blocks(blocks) => match &blocks[0] {
            InputContentBlock::ToolResult { tool_use_id, content } => {
                assert_eq!(tool_use_id, "toolu-1");
                assert!(content.contains("unknown tool"));
            }
            _ => panic!("expected tool_result block"),
        },
        _ => panic!("expected structured blocks"),
    }
}

#[test]
fn rounds_are_bounded() {
    let mut turn = ToolTurn::begin(&three_rounds(), user_message("again"));
    let mut rounds = 0;
    let reply = loop {
        match turn.on_response(tool_use_response("t", "id")) {
            ToolStep::Done(reply) => break reply,
            ToolStep::RunTools { turn: next, calls } => {
                rounds += 1;
                turn = next.on_results(&calls, vec!["ok".to_string()]);
            }
        }
    };
    assert_eq!(rounds, 3);
    assert_eq!(reply.messages.len(), 7);
    assert_eq!(reply.input_tokens, 20);
}

#[test]
fn failures_of_the_executor_keep_the_messages() {
    let mut messages = user_message("hello");
    let busy = ToolExecutorActor::execute(SendOutcome::TimedOut, None, &mut messages);
    assert_eq!(busy.unwrap_err().causes[0], "tool_executor_busy");
    let gone = ToolExecutorActor::execute(SendOutcome::Closed, None, &mut messages);
    assert_eq!(gone.unwrap_err().causes[0], "tool_executor_unavailable");
    assert_eq!(messages.len(), 1);
}

// ---- writers of memory --------------------------------------------------

fn store(jid: &str, content: &str, id: Option<&str>) -> MemoryRequest {
    MemoryRequest::StoreMessageStructured {
        jid: jid.to_string(),
        role: "user".to_string(),
        content: content.to_string(),
        msg_id: id.map(ToString::to_string),
        sender: None,
    }
}

#[test]
fn test_memory_actor_store_message_structured_success() {
    let mut memory = Memory::open("memory".to_string());
    let request = MemoryRequest::StoreMessageStructured {
        jid: "alice@test".to_string(),
        role: "user".to_string(),
        content: "hello".to_string(),
        msg_id: Some("m1".to_string()),
        sender: Some("alice@test".to_string()),
    };
    assert!(MemoryActor::dispatch(SendOutcome::Sent).failure.is_none());
    process_request(&mut memory, request);
    let history = memory.get_history("alice@test", 10);
    assert_eq!(history.len(), 1);
    assert_eq!(history[0].role, "user");
}

#[test]
fn test_memory_actor_returns_busy_when_mailbox_saturated() {
    let outcome = MemoryActor::dispatch(SendOutcome::TimedOut);
    assert_eq!(outcome.failure.unwrap().causes[0], "memory_busy");
    let request = store("alice@test", "busy", None);
    let record = MemoryActor::record_dead_letter(
        outcome.dead_letter_reason.unwrap(),
        &request,
        Some(Value::Null),
    );
    assert_eq!(record.source, DeadLetterSource::MemoryActor);
    assert_eq!(record.reason, "memory_enqueue_timeout");
    assert_eq!(record.conversation_id.as_deref(), Some("alice@test"));
    assert_eq!(record.payload_kind, "store_message_structured");
    assert_eq!(record.correlation_id.len(), 36);
    let named = MemoryActor::record_dead_letter("r", &store("a@t", "x", Some("m9")), None);
    assert_eq!(named.correlation_id, "m9");
}

#[test]
fn test_memory_actor_returns_unavailable_when_mailbox_closed() {
    let outcome = MemoryActor::dispatch(SendOutcome::Closed);
    assert_eq!(outcome.failure.unwrap().causes[0], "memory_unavailable");
    assert_eq!(outcome.dead_letter_reason, Some("memory_mailbox_closed"));
}

#[test]
fn test_sharded_memory_writer_writes_across_conversations() {
    let mut memory = Memory::open("memory".to_string());
    process_request(&mut memory, store("alice@test", "hello-a", Some("a1")));
    process_request(&mut memory, store("bob@test", "hello-b", Some("b1")));
    let alice_history = memory.get_history("alice@test", 10);
    let bob_history = memory.get_history("bob@test", 10);
    assert_eq!(alice_history.len(), 1);
    assert_eq!(bob_history.len(), 1);
    assert_eq!(alice_history[0].content, "hello-a");
    assert_eq!(bob_history[0].content, "hello-b");
}

#[test]
fn test_sharded_memory_writer_consistent_hashing_for_same_jid() {
    let sharded = ShardedMemoryWriter::new(8);
    let idx_a_1 = sharded.shard_index_for("alice@test");
    let idx_a_2 = sharded.shard_index_for("alice@test");
    let idx_b = sharded.shard_index_for("bob@test");

    assert_eq!(idx_a_1, idx_a_2, "same jid must map to same shard");
    assert!(idx_a_1 < 8);
    assert!(idx_b < 8);
}

#[test]
fn conversations_spread_over_the_writers() {
    let sharded = ShardedMemoryWriter::new(8);
    let mut used = [false; 8];
    for i in 0..200 {
        used[sharded.shard_index_for(&format!("user{i}@test"))] = true;
    }
    assert!(used.iter().all(|u| *u));
}

#[test]
fn batches_are_filled_or_closed() {
    let actor = MemoryActor::new(20, 4, 3, 10);
    assert_eq!(actor.wait_for_more(1, Duration::from_millis(0)), Some(Duration::from_millis(10)));
    assert_eq!(actor.wait_for_more(2, Duration::from_millis(4)), Some(Duration::from_millis(6)));
    assert_eq!(actor.wait_for_more(1, Duration::from_millis(10)), None);
    assert_eq!(actor.wait_for_more(3, Duration::from_millis(0)), None);
    assert_eq!(MemoryActor::new(0, 0, 0, 0).write_batch_max, 1);
}

#[test]
fn references_in_failure_messages_are_found_again() {
    let text = to_user_safe_message(&Failure::new("planner_busy"), "corr-17");
    assert_eq!(extract_ref_correlation_id(&text), Some("corr-17".to_string()));
    let command = XmppCommand::SendMessage {
        to: "alice@localhost".to_string(),
        body: text,
        id: None,
    };
    assert_eq!(correlation_id_for_command(&command), "corr-17");
}

#[test]
fn what_is_turned_away_is_counted() {
    assert_eq!(
        overflow_counter("max_active_sessions_reached"),
        Some("overflow.router.max_active_sessions")
    );
    assert_eq!(overflow_counter("session_mailbox_full"), Some("overflow.session.mailbox_full"));
    assert_eq!(overflow_counter("session_mailbox_closed"), Some("overflow.session.mailbox_closed"));
    assert_eq!(overflow_counter("session_missing"), None);
    assert_eq!(busy_outcome(Some(OfferOutcome::Full)).counter(), Some("busy_response.egress_full"));
    assert_eq!(busy_outcome(None).counter(), None);
}

#[test]
fn a_busy_answer_is_followed_under_its_event() {
    let event = message("alice@localhost/phone", Some("m-5"), "hi", MessageType::Chat);
    let envelope = Envelope::from_xmpp_event(event);
    let command = build_busy_response_command(&envelope, 12).unwrap();
    assert_eq!(correlation_id_for_command(&command), "m-5");
}

#[test]
fn events_of_a_conversation_are_offered_in_order() {
    let router = RouterActor::new(16, 8, 3600, 5);
    let mut state = RouterActor::start();
    let mut offered: Vec<(&str, u64)> = vec![];
    for i in 0..6u64 {
        for id in ["alice@localhost", "bob@localhost"] {
            match arrive(&router, &mut state, id, i) {
                RouterAction::StartAndOffer => assert_eq!(i, 0),
                RouterAction::Offer => assert!(i > 0),
                other => panic!("expected an offer, got {other:?}"),
            }
            offered.push((id, i));
            offer(&router, &mut state, id, OfferOutcome::Taken, i);
        }
    }
    let alice: Vec<u64> =
        offered.iter().filter(|(id, _)| *id == "alice@localhost").map(|(_, i)| *i).collect();
    assert_eq!(alice, vec![0, 1, 2, 3, 4, 5]);
}
