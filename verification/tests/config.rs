//! Tests of the configuration.

use fluux_agent::config::{
    ActorsConfig, AgentConfig, Config, ConnectionMode, KeepaliveConfig, LlmConfig, MemoryConfig,
    RoomConfig, ServerConfig, SessionConfig, SkillsConfig,
};

fn test_config(allowed: Vec<&str>, rooms: Vec<RoomConfig>) -> Config {
    Config {
        server: ServerConfig {
            host: "localhost".to_string(),
            port: 5222,
            mode: ConnectionMode::Client {
                jid: "bot@localhost".to_string(),
                password: "pass".to_string(),
                resource: "fluux-agent".to_string(),
                tls_verify: false,
            },
        },
        llm: LlmConfig {
            provider: "anthropic".to_string(),
            model: "haiku-4-5-20250110".to_string(),
            api_key: "test-key".to_string(),
            max_tokens_per_request: 4096,
            host: None,
        },
        agent: AgentConfig {
            name: "Test Agent".to_string(),
            allowed_jids: allowed.into_iter().map(String::from).collect(),
            allowed_domains: vec![],
        },
        memory: MemoryConfig {
            backend: "markdown".to_string(),
            path: "./data/memory".to_string(),
        },
        rooms,
        skills: SkillsConfig::default(),
        keepalive: KeepaliveConfig::default(),
        session: SessionConfig::default(),
        actors: ActorsConfig::default(),
    }
}

#[test]
fn test_is_allowed_bare_jid() {
    let config = test_config(vec!["admin@localhost"], vec![]);
    assert!(config.is_allowed("admin@localhost"));
}

#[test]
fn test_is_allowed_full_jid_strips_resource() {
    let config = test_config(vec!["admin@localhost"], vec![]);
    assert!(config.is_allowed("admin@localhost/mobile"));
    assert!(config.is_allowed("admin@localhost/Conversations.abc123"));
}

#[test]
fn test_is_allowed_rejects_unauthorized() {
    let config = test_config(vec!["admin@localhost"], vec![]);
    assert!(!config.is_allowed("hacker@evil.com"));
    assert!(!config.is_allowed("hacker@evil.com/res"));
}

#[test]
fn test_is_allowed_wildcard() {
    let config = test_config(vec!["*"], vec![]);
    assert!(config.is_allowed("anyone@anywhere.com"));
    assert!(config.is_allowed("user@domain.org/res"));
}

#[test]
fn test_is_allowed_multiple_jids() {
    let config = test_config(vec!["alice@localhost", "bob@localhost"], vec![]);
    assert!(config.is_allowed("alice@localhost"));
    assert!(config.is_allowed("bob@localhost/phone"));
    assert!(!config.is_allowed("charlie@localhost"));
}

#[test]
fn test_is_allowed_empty_list_rejects_all() {
    let config = test_config(vec![], vec![]);
    assert!(!config.is_allowed("admin@localhost"));
}

#[test]
fn test_is_allowed_different_domain() {
    let config = test_config(vec!["admin@localhost"], vec![]);
    // Same username, different domain → rejected
    assert!(!config.is_allowed("admin@otherdomain.com"));
}

#[test]
fn test_mode_description_client() {
    let config = test_config(vec![], vec![]);
    assert_eq!(
        config.server.mode_description(),
        "C2S client (bot@localhost)"
    );
}

#[test]
fn test_mode_description_component() {
    let server = ServerConfig {
        host: "localhost".to_string(),
        port: 5275,
        mode: ConnectionMode::Component {
            component_domain: "agent.localhost".to_string(),
            component_secret: "secret".to_string(),
        },
    };
    assert_eq!(server.mode_description(), "component (agent.localhost)");
}

#[test]
fn test_find_room_found() {
    let mut config = test_config(vec!["admin@localhost"], vec![]);
    config.rooms = vec![
        RoomConfig {
            jid: "lobby@conference.localhost".to_string(),
            nick: "bot".to_string(),
        },
        RoomConfig {
            jid: "dev@conference.localhost".to_string(),
            nick: "fluux-agent".to_string(),
        },
    ];
    let room = config.find_room("dev@conference.localhost").unwrap();
    assert_eq!(room.jid, "dev@conference.localhost");
    assert_eq!(room.nick, "fluux-agent");
}

#[test]
fn test_find_room_not_found() {
    let config = test_config(vec![], vec![]);
    assert!(config
        .find_room("nonexistent@conference.localhost")
        .is_none());
}

#[test]
fn test_domain_client_mode() {
    let config = test_config(vec![], vec![]);
    assert_eq!(config.server.domain(), "localhost");
}

#[test]
fn test_domain_component_mode() {
    let server = ServerConfig {
        host: "localhost".to_string(),
        port: 5275,
        mode: ConnectionMode::Component {
            component_domain: "agent.example.com".to_string(),
            component_secret: "secret".to_string(),
        },
    };
    assert_eq!(server.domain(), "agent.example.com");
}

#[test]
fn test_domain_default_accepts_own_domain() {
    // No allowed_domains configured → only own domain accepted
    let config = test_config(vec!["*"], vec![]);
    assert!(config.is_domain_allowed("alice@localhost"));
    assert!(config.is_domain_allowed("alice@localhost/res"));
}

#[test]
fn test_domain_default_rejects_foreign_domain() {
    let config = test_config(vec!["*"], vec![]);
    assert!(!config.is_domain_allowed("hacker@evil.com"));
    assert!(!config.is_domain_allowed("user@other.org/mobile"));
}

#[test]
fn test_domain_wildcard_allows_all() {
    let mut config = test_config(vec!["*"], vec![]);
    config.agent.allowed_domains = vec!["*".to_string()];
    assert!(config.is_domain_allowed("anyone@anywhere.com"));
    assert!(config.is_domain_allowed("user@evil.org/res"));
}

#[test]
fn test_domain_explicit_list() {
    let mut config = test_config(vec!["*"], vec![]);
    config.agent.allowed_domains = vec!["localhost".to_string(), "partner.org".to_string()];
    assert!(config.is_domain_allowed("alice@localhost"));
    assert!(config.is_domain_allowed("bob@partner.org/phone"));
    assert!(!config.is_domain_allowed("hacker@evil.com"));
}

#[test]
fn test_domain_component_mode_default() {
    // Component mode: own domain is "agent.localhost"
    let mut config = test_config(vec!["*"], vec![]);
    config.server = ServerConfig {
        host: "localhost".to_string(),
        port: 5275,
        mode: ConnectionMode::Component {
            component_domain: "agent.localhost".to_string(),
            component_secret: "secret".to_string(),
        },
    };
    // With no allowed_domains, only agent.localhost is accepted
    assert!(config.is_domain_allowed("user@agent.localhost"));
    assert!(!config.is_domain_allowed("user@localhost"));
    assert!(!config.is_domain_allowed("user@evil.com"));
}

#[test]
fn test_domain_check_strips_resource() {
    let config = test_config(vec!["*"], vec![]);
    assert!(config.is_domain_allowed("alice@localhost/Conversations.abc"));
    assert!(!config.is_domain_allowed("alice@evil.com/Conversations.abc"));
}

#[test]
fn test_keepalive_defaults() {
    let ka = KeepaliveConfig::default();
    assert!(ka.enabled);
    assert_eq!(ka.ping_interval_secs, 60);
    assert_eq!(ka.read_timeout_secs, 300);
}

#[test]
fn test_keepalive_default_when_absent() {
    // Config without [keepalive] section → defaults apply
    let config = test_config(vec![], vec![]);
    assert!(config.keepalive.enabled);
    assert_eq!(config.keepalive.ping_interval_secs, 60);
    assert_eq!(config.keepalive.read_timeout_secs, 300);
}

#[test]
fn test_session_defaults() {
    let sc = SessionConfig::default();
    assert_eq!(sc.idle_timeout_mins, 0);
}

#[test]
fn test_session_default_when_absent() {
    let config = test_config(vec![], vec![]);
    assert_eq!(config.session.idle_timeout_mins, 0);
}

#[test]
fn test_actors_defaults_disabled() {
    let ac = ActorsConfig::default();
    assert!(!ac.enabled);
    assert_eq!(ac.router_mailbox, 1024);
    assert_eq!(ac.session_mailbox, 256);
    assert_eq!(ac.supervision.egress_send_timeout_ms, 200);
    assert_eq!(ac.supervision.egress_retry_backoff_ms, 50);
    assert_eq!(ac.supervision.egress_max_retries, 3);
    assert_eq!(ac.tooling.allowed_capabilities, vec!["*"]);
    assert_eq!(
        ac.dead_letter_path,
        "data/dead_letters.jsonl"
    );
}

#[test]
fn a_jid_without_at_sign_is_its_own_domain() {
    let config = test_config(vec!["*"], vec![]);
    assert!(config.is_domain_allowed("localhost"));
    assert!(config.is_domain_allowed("localhost/resource"));
    assert!(!config.is_domain_allowed("elsewhere"));
}

#[test]
fn the_first_room_with_a_jid_is_found() {
    let room = |nick: &str| RoomConfig {
        jid: "lobby@conference.localhost".to_string(),
        nick: nick.to_string(),
    };
    let config = test_config(vec![], vec![room("first"), room("second")]);
    assert_eq!(config.find_room("lobby@conference.localhost").unwrap().nick, "first");
}

#[test]
fn components_always_check_certificates() {
    let mut config = test_config(vec![], vec![]);
    assert!(!config.server.tls_verify());
    config.server.mode = ConnectionMode::Component {
        component_domain: "agent.localhost".to_string(),
        component_secret: "secret".to_string(),
    };
    assert!(config.server.tls_verify());
}
