//! The agent's configuration and the questions that it answers.

use crate::text::{
    has_text, lemma_index_from, part_after, same, second_part, texts_come_apart,
    what_is_held_stands_inside,
};
use crate::xmpp::{bare, bare_jid};
use vstd::prelude::*;
use vstd::string::*;

verus! {

/// Everything that can be configured.
#[derive(Debug, Clone)]
pub struct Config {
    pub server: ServerConfig,
    pub llm: LlmConfig,
    pub agent: AgentConfig,
    pub memory: MemoryConfig,
    pub rooms: Vec<RoomConfig>,
    pub skills: SkillsConfig,
    pub keepalive: KeepaliveConfig,
    pub session: SessionConfig,
    pub actors: ActorsConfig,
}

/// A room to join, and the nick to use in it.
#[derive(Debug, Clone)]
pub struct RoomConfig {
    pub jid: String,
    pub nick: String,
}

/// Where and how to connect.
#[derive(Debug, Clone)]
pub struct ServerConfig {
    pub host: String,
    pub port: u16,
    pub mode: ConnectionMode,
}

/// How the agent connects to its server.
#[derive(Debug, Clone)]
pub enum ConnectionMode {
    /// As a component of the server.
    Component { component_domain: String, component_secret: String },
    /// As a client with an account.
    Client { jid: String, password: String, resource: String, tls_verify: bool },
}

/// Which language model to use.
#[derive(Debug, Clone)]
pub struct LlmConfig {
    pub provider: String,
    pub model: String,
    pub api_key: String,
    pub max_tokens_per_request: u32,
    pub host: Option<String>,
}

/// Who the agent is and whom it answers.
#[derive(Debug, Clone)]
pub struct AgentConfig {
    pub name: String,
    pub allowed_jids: Vec<String>,
    pub allowed_domains: Vec<String>,
}

/// Where memory is kept.
#[derive(Debug, Clone)]
pub struct MemoryConfig {
    pub backend: String,
    pub path: String,
}

/// The skills that are switched on.
#[derive(Debug, Clone)]
pub struct SkillsConfig {
    pub web_search: Option<WebSearchConfig>,
    pub memory: Option<MemorySkillConfig>,
    pub url_fetch: Option<UrlFetchConfig>,
}

/// The memory skill.
#[derive(Debug, Clone)]
pub struct MemorySkillConfig {
    pub enabled: bool,
}

/// The URL fetch skill.
#[derive(Debug, Clone)]
pub struct UrlFetchConfig {
    pub enabled: bool,
}

/// The web search skill.
#[derive(Debug, Clone)]
pub struct WebSearchConfig {
    pub provider: String,
    pub api_key: String,
    pub max_results: u8,
    pub model: Option<String>,
}

/// Pings and read timeouts.
#[derive(Debug, Clone)]
pub struct KeepaliveConfig {
    pub enabled: bool,
    pub ping_interval_secs: u64,
    pub read_timeout_secs: u64,
}

/// When an idle session is archived; zero minutes means never.
#[derive(Debug, Clone)]
pub struct SessionConfig {
    pub idle_timeout_mins: u64,
}

/// The sizes and limits of the actors.
#[derive(Debug, Clone)]
pub struct ActorsConfig {
    pub enabled: bool,
    pub router_mailbox: usize,
    pub session_mailbox: usize,
    pub max_active_sessions: usize,
    pub session_idle_ttl_secs: u64,
    pub busy_retry_after_secs: u64,
    pub dedupe_ttl_secs: u64,
    pub dead_letter_path: String,
    pub tooling: ActorToolingConfig,
    pub supervision: ActorSupervisionConfig,
    pub memory: ActorMemoryConfig,
    pub observability: ActorObservabilityConfig,
}

/// Limits on the use of tools.
#[derive(Debug, Clone)]
pub struct ActorToolingConfig {
    pub max_tool_rounds: usize,
    pub skill_timeout_secs: u64,
    pub max_parallel_skills: usize,
    pub skill_queue_timeout_ms: u64,
    pub allowed_capabilities: Vec<String>,
}

/// Restarts and retries.
#[derive(Debug, Clone)]
pub struct ActorSupervisionConfig {
    pub restart_backoff_min_ms: u64,
    pub restart_backoff_max_ms: u64,
    pub max_restarts_per_minute: u64,
    pub egress_send_timeout_ms: u64,
    pub egress_retry_backoff_ms: u64,
    pub egress_max_retries: usize,
}

/// The memory writers.
#[derive(Debug, Clone)]
pub struct ActorMemoryConfig {
    pub enqueue_timeout_ms: u64,
    pub writer_shards: usize,
    pub write_batch_max: usize,
    pub write_batch_max_delay_ms: u64,
}

/// Metrics.
#[derive(Debug, Clone)]
pub struct ActorObservabilityConfig {
    pub metrics_enabled: bool,
    pub queue_depth_export_interval_secs: u64,
    pub slow_actor_warn_ms: u64,
}

/// Search results asked for where the configuration gives no number.
pub const DEFAULT_MAX_RESULTS: u8 = 5;

/// Tokens per request where the configuration gives no number.
pub const DEFAULT_MAX_TOKENS: u32 = 4096;

/// The nick used in a room that names none.
pub fn default_room_nick() -> (r: String)
    ensures
        r@ == "fluux-agent"@,
{
    "fluux-agent".to_owned()
}

/// The resource of a client that names none.
pub fn default_resource() -> (r: String)
    ensures
        r@ == "fluux-agent"@,
{
    "fluux-agent".to_owned()
}

/// The memory backend where none is named.
pub fn default_memory_backend() -> (r: String)
    ensures
        r@ == "jsonl"@,
{
    "jsonl".to_owned()
}

/// The place of the memory store where none is named.
pub fn default_memory_path() -> (r: String)
    ensures
        r@ == "./data/memory"@,
{
    "./data/memory".to_owned()
}

/// The place of the dead letters where none is named.
pub fn default_dead_letter_path() -> (r: String)
    ensures
        r@ == "data/dead_letters.jsonl"@,
{
    "data/dead_letters.jsonl".to_owned()
}

/// The capabilities that tools may use where none are listed: all of them.
pub fn default_allowed_capabilities() -> (r: Vec<String>)
    ensures
        r.deep_view() == seq!["*"@],
{
    let mut r: Vec<String> = Vec::new();
    r.push("*".to_owned());
    assert(r.deep_view() =~= seq!["*"@]);
    r
}

impl Default for KeepaliveConfig {
    fn default() -> (r: Self)
        ensures
            r.enabled,
            r.ping_interval_secs == 60,
            r.read_timeout_secs == 300,
    {
        KeepaliveConfig {
            enabled: true,
            ping_interval_secs: 60,
            read_timeout_secs: 300,
        }
    }
}

impl Default for SessionConfig {
    fn default() -> (r: Self)
        ensures
            r.idle_timeout_mins == 0,
    {
        SessionConfig {
            idle_timeout_mins: 0,
        }
    }
}

impl Default for ActorSupervisionConfig {
    fn default() -> (r: Self)
        ensures
            r.restart_backoff_min_ms == 200,
            r.restart_backoff_max_ms == 10_000,
            r.max_restarts_per_minute == 60,
            r.egress_send_timeout_ms == 200,
            r.egress_retry_backoff_ms == 50,
            r.egress_max_retries == 3,
    {
        ActorSupervisionConfig {
            restart_backoff_min_ms: 200,
            restart_backoff_max_ms: 10_000,
            max_restarts_per_minute: 60,
            egress_send_timeout_ms: 200,
            egress_retry_backoff_ms: 50,
            egress_max_retries: 3,
        }
    }
}

impl Default for ActorMemoryConfig {
    fn default() -> (r: Self)
        ensures
            r.enqueue_timeout_ms == 200,
            r.writer_shards == 1,
            r.write_batch_max == 32,
            r.write_batch_max_delay_ms == 20,
    {
        ActorMemoryConfig {
            enqueue_timeout_ms: 200,
            writer_shards: 1,
            write_batch_max: 32,
            write_batch_max_delay_ms: 20,
        }
    }
}

impl Default for ActorObservabilityConfig {
    fn default() -> (r: Self)
        ensures
            r.metrics_enabled,
            r.queue_depth_export_interval_secs == 5,
            r.slow_actor_warn_ms == 200,
    {
        ActorObservabilityConfig {
            metrics_enabled: true,
            queue_depth_export_interval_secs: 5,
            slow_actor_warn_ms: 200,
        }
    }
}

impl Default for SkillsConfig {
    fn default() -> (r: Self)
        ensures
            r.web_search is None,
            r.memory is None,
            r.url_fetch is None,
    {
        SkillsConfig { web_search: None, memory: None, url_fetch: None }
    }
}

impl Default for ActorToolingConfig {
    fn default() -> (r: Self)
        ensures
            r.max_tool_rounds == 10,
            r.skill_timeout_secs == 30,
            r.max_parallel_skills == 32,
            r.skill_queue_timeout_ms == 5000,
            r.allowed_capabilities.deep_view() == seq!["*"@],
    {
        ActorToolingConfig {
            max_tool_rounds: 10,
            skill_timeout_secs: 30,
            max_parallel_skills: 32,
            skill_queue_timeout_ms: 5000,
            allowed_capabilities: default_allowed_capabilities(),
        }
    }
}

impl ActorsConfig {
    /// The values that stand where the configuration names none; the groups
    /// within have defaults of their own.
    pub open spec fn has_defaults(self) -> bool {
        &&& !self.enabled
        &&& self.router_mailbox == 1024
        &&& self.session_mailbox == 256
        &&& self.max_active_sessions == 2000
        &&& self.session_idle_ttl_secs == 1800
        &&& self.busy_retry_after_secs == 5
        &&& self.dedupe_ttl_secs == 600
        &&& self.dead_letter_path@ == "data/dead_letters.jsonl"@
        &&& self.tooling.max_tool_rounds == 10
        &&& self.tooling.skill_timeout_secs == 30
        &&& self.tooling.max_parallel_skills == 32
        &&& self.tooling.skill_queue_timeout_ms == 5000
        &&& self.tooling.allowed_capabilities.deep_view() == seq!["*"@]
        &&& self.supervision.restart_backoff_min_ms == 200
        &&& self.supervision.restart_backoff_max_ms == 10_000
        &&& self.supervision.max_restarts_per_minute == 60
        &&& self.supervision.egress_send_timeout_ms == 200
        &&& self.supervision.egress_retry_backoff_ms == 50
        &&& self.supervision.egress_max_retries == 3
        &&& self.memory.enqueue_timeout_ms == 200
        &&& self.memory.writer_shards == 1
        &&& self.memory.write_batch_max == 32
        &&& self.memory.write_batch_max_delay_ms == 20
        &&& self.observability.metrics_enabled
        &&& self.observability.queue_depth_export_interval_secs == 5
        &&& self.observability.slow_actor_warn_ms == 200
    }
}

impl Default for ActorsConfig {
    fn default() -> (r: Self)
        ensures
            r.has_defaults(),
    {
        ActorsConfig {
            enabled: false,
            router_mailbox: 1024,
            session_mailbox: 256,
            max_active_sessions: 2000,
            session_idle_ttl_secs: 1800,
            busy_retry_after_secs: 5,
            dedupe_ttl_secs: 600,
            dead_letter_path: default_dead_letter_path(),
            tooling: ActorToolingConfig::default(),
            supervision: ActorSupervisionConfig::default(),
            memory: ActorMemoryConfig::default(),
            observability: ActorObservabilityConfig::default(),
        }
    }
}

/// The domain of a JID: what stands behind its first at sign, up to the next
/// one; a JID without an at sign is a domain itself.
pub open spec fn domain_part(jid: Seq<char>) -> Seq<char> {
    match second_part(jid, '@') {
        Some(d) => d,
        None => jid,
    }
}

/// The domain of a JID.
pub fn domain_of_jid(jid: &str) -> (r: String)
    ensures
        r@ == domain_part(jid@),
{
    match part_after(jid, '@') {
        Some(d) => d,
        None => jid.to_owned(),
    }
}

/// Whether `list` holds `item`.
pub fn lists(list: &Vec<String>, item: &str) -> (r: bool)
    ensures
        r == list.deep_view().contains(item@),
{
    let mut i: usize = 0;
    while i < list.len()
        invariant
            0 <= i <= list@.len(),
            forall|j: int| 0 <= j < i ==> list.deep_view()[j] != item@,
        decreases list@.len() - i,
    {
        if same(list[i].as_str(), item) {
            assert(list.deep_view()[i as int] == item@);
            return true;
        }
        i = i + 1;
    }
    false
}

impl ServerConfig {
    /// The agent's own domain.
    pub open spec fn own_domain(self) -> Seq<char> {
        match self.mode {
            ConnectionMode::Component { component_domain, .. } => component_domain@,
            ConnectionMode::Client { jid, .. } => domain_part(jid@),
        }
    }

    /// How the agent connects, for people.
    pub open spec fn mode_text(self) -> Seq<char> {
        match self.mode {
            ConnectionMode::Component { component_domain, .. } => "component ("@
                + component_domain@ + ")"@,
            ConnectionMode::Client { jid, .. } => "C2S client ("@ + jid@ + ")"@,
        }
    }

    /// How the agent connects, in words.
    pub fn mode_description(&self) -> (r: String)
        ensures
            r@ == self.mode_text(),
    {
        match &self.mode {
            ConnectionMode::Component { component_domain, .. } => {
                let mut s = "component (".to_owned();
                s.append(component_domain.as_str());
                s.append(")");
                s
            },
            ConnectionMode::Client { jid, .. } => {
                let mut s = "C2S client (".to_owned();
                s.append(jid.as_str());
                s.append(")");
                s
            },
        }
    }

    /// Whether certificates are checked; a component always checks them.
    pub fn tls_verify(&self) -> (r: bool)
        ensures
            r == match self.mode {
                ConnectionMode::Component { .. } => true,
                ConnectionMode::Client { tls_verify, .. } => tls_verify,
            },
    {
        match &self.mode {
            ConnectionMode::Client { tls_verify, .. } => *tls_verify,
            ConnectionMode::Component { .. } => true,
        }
    }

    /// The agent's own domain.
    pub fn domain(&self) -> (r: String)
        ensures
            r@ == self.own_domain(),
    {
        match &self.mode {
            ConnectionMode::Component { component_domain, .. } => component_domain.clone(),
            ConnectionMode::Client { jid, .. } => domain_of_jid(jid.as_str()),
        }
    }
}

impl Config {
    /// The place of the first room with this JID.
    pub open spec fn room_index(self, room_jid: Seq<char>) -> Option<int> {
        room_index_from(self.rooms@, room_jid, 0)
    }

    /// Whether a sender may talk to the agent: its bare JID is listed, or the
    /// wildcard is.
    pub open spec fn allows(self, jid: Seq<char>) -> bool {
        self.agent.allowed_jids.deep_view().contains(bare(jid))
            || self.agent.allowed_jids.deep_view().contains("*"@)
    }

    /// Whether a sender's domain may talk to the agent: with no domain listed
    /// the agent's own; else one that is listed, or any where the wildcard is.
    pub open spec fn allows_domain(self, jid: Seq<char>) -> bool {
        let domains = self.agent.allowed_domains.deep_view();
        let sender = domain_part(bare(jid));
        if domains.len() == 0 {
            sender == self.server.own_domain()
        } else {
            domains.contains("*"@) || domains.contains(sender)
        }
    }

    /// The first room with this JID.
    pub fn find_room(&self, room_jid: &str) -> (r: Option<&RoomConfig>)
        ensures
            match r {
                Some(room) => {
                    &&& self.room_index(room_jid@) is Some
                    &&& 0 <= self.room_index(room_jid@)->0 < self.rooms@.len()
                    &&& *room == self.rooms@[self.room_index(room_jid@)->0]
                },
                None => self.room_index(room_jid@) is None,
            },
    {
        let mut i: usize = 0;
        while i < self.rooms.len()
            invariant
                0 <= i <= self.rooms@.len(),
                self.room_index(room_jid@) == room_index_from(self.rooms@, room_jid@, i as int),
            decreases self.rooms@.len() - i,
        {
            if same(self.rooms[i].jid.as_str(), room_jid) {
                return Some(&self.rooms[i]);
            }
            i = i + 1;
        }
        None
    }

    /// Whether a sender may talk to the agent.
    pub fn is_allowed(&self, jid: &str) -> (r: bool)
        ensures
            r == self.allows(jid@),
    {
        let sender = bare_jid(jid);
        lists(&self.agent.allowed_jids, sender.as_str()) || lists(&self.agent.allowed_jids, "*")
    }

    /// Whether a sender's domain may talk to the agent.
    pub fn is_domain_allowed(&self, jid: &str) -> (r: bool)
        ensures
            r == self.allows_domain(jid@),
    {
        let bare = bare_jid(jid);
        let sender = domain_of_jid(bare.as_str());
        if self.agent.allowed_domains.len() == 0 {
            let own = self.server.domain();
            same(sender.as_str(), own.as_str())
        } else if lists(&self.agent.allowed_domains, "*") {
            true
        } else {
            lists(&self.agent.allowed_domains, sender.as_str())
        }
    }
}

/// The first place at or behind `i` of a room with this JID.
pub open spec fn room_index_from(rooms: Seq<RoomConfig>, jid: Seq<char>, i: int) -> Option<int>
    decreases rooms.len() - i,
{
    if i >= rooms.len() {
        None
    } else if rooms[i].jid@ == jid {
        Some(i)
    } else {
        room_index_from(rooms, jid, i + 1)
    }
}

/// What a room search finds is the first room with that JID, and nothing is
/// found only where there is none.
pub proof fn room_search_finds_the_first(rooms: Seq<RoomConfig>, jid: Seq<char>, i: int)
    requires
        0 <= i,
    ensures
        match room_index_from(rooms, jid, i) {
            Some(k) => i <= k < rooms.len() && rooms[k].jid@ == jid && forall|j: int|
                i <= j < k ==> #[trigger] rooms[j].jid@ != jid,
            None => forall|j: int| i <= j < rooms.len() ==> #[trigger] rooms[j].jid@ != jid,
        },
    decreases rooms.len() - i,
{
    if i < rooms.len() && rooms[i].jid@ != jid {
        room_search_finds_the_first(rooms, jid, i + 1);
    }
}

/// A bare JID is its own bare JID.
pub proof fn bare_is_idempotent(jid: Seq<char>)
    ensures
        bare(bare(jid)) == bare(jid),
{
    lemma_index_from(jid, '/', 0);
    lemma_index_from(bare(jid), '/', 0);
}

/// Authorization looks at the bare JID alone: a resource changes nothing.
pub proof fn resource_does_not_matter(config: Config, jid: Seq<char>)
    ensures
        config.allows(jid) == config.allows(bare(jid)),
        config.allows_domain(jid) == config.allows_domain(bare(jid)),
{
    bare_is_idempotent(jid);
}

/// The wildcard lets everyone in.
pub proof fn wildcard_allows_everyone(config: Config, jid: Seq<char>)
    ensures
        config.agent.allowed_jids.deep_view().contains("*"@) ==> config.allows(jid),
        config.agent.allowed_domains.deep_view().contains("*"@) ==> config.allows_domain(jid),
{
}

/// An empty list of JIDs lets nobody in.
pub proof fn empty_list_allows_nobody(config: Config, jid: Seq<char>)
    requires
        config.agent.allowed_jids@.len() == 0,
    ensures
        !config.allows(jid),
{
}

/// Someone may talk to the agent from any of their resources where their bare
/// JID is on the list, or the wildcard is, and not otherwise.
pub proof fn listed_people_are_allowed(config: Config, person: Seq<char>, resource: Seq<char>)
    requires
        !person.contains('/'),
    ensures
        ({
            let listed = exists|i: int|
                0 <= i < config.agent.allowed_jids@.len() && (
                #[trigger] config.agent.allowed_jids@[i]@ == person
                    || config.agent.allowed_jids@[i]@ == "*"@);
            &&& config.allows(person) == listed
            &&& config.allows(person + seq!['/'] + resource) == listed
        }),
{
    texts_come_apart(person, '/', resource);
    let names = config.agent.allowed_jids.deep_view();
    assert forall|i: int| 0 <= i < names.len() implies names[i]
        == #[trigger] config.agent.allowed_jids@[i]@ by {}
    if config.allows(person) {
        let i = if names.contains(person) {
            names.index_of(person)
        } else {
            names.index_of("*"@)
        };
        assert(config.agent.allowed_jids@[i]@ == names[i]);
    }
}

/// A sender's domain stands between the at sign and the slash of its JID. With
/// an empty list it has to be the agent's own; with a list it has to be on it,
/// unless the wildcard is.
pub proof fn listed_domains_are_allowed(
    config: Config,
    user: Seq<char>,
    domain: Seq<char>,
    resource: Seq<char>,
)
    requires
        !user.contains('/') && !user.contains('@'),
        !domain.contains('/') && !domain.contains('@'),
    ensures
        ({
            let jid = user + seq!['@'] + domain + seq!['/'] + resource;
            let domains = config.agent.allowed_domains@;
            if domains.len() == 0 {
                match config.server.mode {
                    ConnectionMode::Component { component_domain, .. } => config.allows_domain(jid)
                        == (domain == component_domain@),
                    ConnectionMode::Client { jid: own, .. } => own@ == user + seq!['@'] + domain
                        ==> config.allows_domain(jid),
                }
            } else {
                config.allows_domain(jid) == exists|i: int|
                    0 <= i < domains.len() && (#[trigger] domains[i]@ == domain || domains[i]@
                        == "*"@)
            }
        }),
{
    let person = user + seq!['@'] + domain;
    assert forall|i: int| 0 <= i < person.len() implies person[i] != '/' by {
        if i < user.len() {
            assert(user.contains(user[i]));
        } else if i > user.len() {
            assert(domain.contains(domain[i - user.len() - 1]));
        }
    }
    texts_come_apart(person, '/', resource);
    texts_come_apart(user, '@', domain);
    assert(user + seq!['@'] + domain + seq!['/'] + resource == person + seq!['/'] + resource);
    let names = config.agent.allowed_domains.deep_view();
    assert forall|i: int| 0 <= i < names.len() implies names[i]
        == #[trigger] config.agent.allowed_domains@[i]@ by {}
    if names.contains(domain) {
        let i = names.index_of(domain);
        assert(config.agent.allowed_domains@[i]@ == names[i]);
    }
    if names.contains("*"@) {
        let i = names.index_of("*"@);
        assert(config.agent.allowed_domains@[i]@ == names[i]);
    }
}

/// A client's own domain is that of its JID, and a component's is the one that
/// it serves; without a list nobody from elsewhere is allowed.
pub proof fn own_domains_are_allowed(
    config: Config,
    own_user: Seq<char>,
    own_domain: Seq<char>,
    user: Seq<char>,
    domain: Seq<char>,
)
    requires
        config.agent.allowed_domains@.len() == 0,
        !own_user.contains('@') && !own_domain.contains('@'),
        !user.contains('/') && !user.contains('@'),
        !domain.contains('/') && !domain.contains('@'),
        match config.server.mode {
            ConnectionMode::Component { component_domain, .. } => component_domain@ == own_domain,
            ConnectionMode::Client { jid, .. } => jid@ == own_user + seq!['@'] + own_domain,
        },
    ensures
        config.allows_domain(user + seq!['@'] + domain) <==> domain == own_domain,
        has_text(config.server.mode_text(), own_domain),
{
    let person = user + seq!['@'] + domain;
    assert forall|i: int| 0 <= i < person.len() implies person[i] != '/' by {
        if i < user.len() {
            assert(user.contains(user[i]));
        } else if i > user.len() {
            assert(domain.contains(domain[i - user.len() - 1]));
        }
    }
    texts_come_apart(person, '/', person);
    texts_come_apart(user, '@', domain);
    texts_come_apart(own_user, '@', own_domain);
    what_is_held_stands_inside("component ("@, own_domain, ")"@, own_domain);
    let head = "C2S client ("@ + (own_user + seq!['@']);
    what_is_held_stands_inside(head, own_domain, ")"@, own_domain);
    assert("C2S client ("@ + (own_user + seq!['@'] + own_domain) + ")"@ =~= head + own_domain
        + ")"@);
}

} // verus!
