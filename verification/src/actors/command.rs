//! Slash commands.

use super::dead_letter::{
    source_name, DeadLetterMemoryReplayPayload, DeadLetterRecord, DeadLetterSkillReplayPayload,
    DeadLetterSource, RecordView,
};
use super::memory_actor::operation_name;
use super::message::{text_reply, CommandReply, CommandReplyView};
use super::user_error::Failure;
use crate::agent::entries::lend_text;
use crate::agent::memory::{
    forgetting_keeps_the_archive, message_stored, session_names, Memory, MemoryView,
};
use crate::clock::is_compact_time;
use crate::config::{lists, Config};
use crate::text::{
    after_first, before, chars_of, decimal, digits_value, has_prefix, has_suffix, has_text, is_blank,
    is_usize_text, is_white, join, joined, lemma_decimal_value, lowercase, number, parse_usize,
    part_before, part_behind, same, starts_with, string_of, texts_come_apart, to_lower, trim,
    trim_front, trimmed, unsigned_digits, what_is_held_stands_inside,
};
use crate::time::{Duration, NANOS_PER_SEC};
use crate::xmpp::{bare, bare_jid, XmppCommand};
use vstd::prelude::*;
use vstd::string::*;

verus! {

/// What the dead letters are read for.
#[derive(Debug)]
pub enum DeadLetterQuery {
    /// To show the latest ones, so many at most.
    Show(usize),
    /// To do again what the one with this correlation identifier records.
    Replay(String),
}

/// The model of [`DeadLetterQuery`].
pub ghost enum QueryView {
    Show(nat),
    Replay(Seq<char>),
}

impl DeepView for DeadLetterQuery {
    type V = QueryView;

    open spec fn deep_view(&self) -> QueryView {
        match self {
            DeadLetterQuery::Show(n) => QueryView::Show(*n as nat),
            DeadLetterQuery::Replay(id) => QueryView::Replay(id@),
        }
    }
}

/// What a command comes to.
#[derive(Debug)]
pub enum CommandStep {
    Reply(CommandReply),
    Fail(Failure),
    /// The dead letters have to be read first.
    ReadDeadLetters(DeadLetterQuery),
}

/// The model of [`CommandStep`].
pub ghost enum CommandStepView {
    Reply(CommandReplyView),
    Fail(Seq<Seq<char>>),
    ReadDeadLetters(QueryView),
}

impl DeepView for CommandStep {
    type V = CommandStepView;

    open spec fn deep_view(&self) -> CommandStepView {
        match self {
            CommandStep::Reply(r) => CommandStepView::Reply(r.deep_view()),
            CommandStep::Fail(e) => CommandStepView::Fail(e.deep_view()),
            CommandStep::ReadDeadLetters(q) => CommandStepView::ReadDeadLetters(q.deep_view()),
        }
    }
}

// ---- status ------------------------------------------------------------

/// What stands for yes and no.
pub open spec fn yes_or_none(b: bool) -> Seq<char> {
    if b {
        "yes"@
    } else {
        "none"@
    }
}

fn yn(b: bool) -> (r: &'static str)
    ensures
        r@ == yes_or_none(b),
{
    if b {
        "yes"
    } else {
        "none"
    }
}

/// A line with a count, where there is something to count.
pub open spec fn count_line(head: Seq<char>, n: nat) -> Seq<char> {
    if n > 0 {
        head + decimal(n)
    } else {
        Seq::empty()
    }
}

fn add_count(s: &mut String, head: &str, n: usize)
    ensures
        final(s)@ == old(s)@ + count_line(head@, n as nat),
{
    let ghost start = s@;
    if n > 0 {
        s.append(head);
        s.append(number(n as u64).as_str());
        assert(s@ =~= start + (head@ + decimal(n as nat)));
    } else {
        assert(s@ =~= start + Seq::<char>::empty());
    }
}

/// What the status says of the conversation: of the room where the JID is one,
/// and of the user where it is not.
pub open spec fn context_text(jid: Seq<char>, config: Config, memory: MemoryView) -> Seq<char> {
    let user = memory.user(jid);
    let messages = decimal(user.messages().len());
    let sessions = decimal(session_names(user.archives).len());
    let files = count_line("\nFiles: "@, user.file_count());
    let knowledge = count_line("\nKnowledge entries: "@, user.entries().len());
    if config.room_index(jid) is Some {
        "Room: "@ + jid + "\nRoom messages: "@ + messages + "\nArchived sessions: "@ + sessions
            + files + knowledge
    } else {
        "Your session: "@ + messages + " messages\nArchived sessions: "@ + sessions + files
            + knowledge + "\nUser profile: "@ + yes_or_none(user.profile() is Some)
            + "\nUser memory: "@ + yes_or_none(user.text("memory.md"@) is Some)
    }
}

fn context_info(jid: &str, config: &Config, memory: &Memory) -> (r: String)
    ensures
        r@ == context_text(jid@, *config, memory.deep_view()),
{
    let messages = number(memory.message_count(jid) as u64);
    let sessions = number(memory.session_count(jid) as u64);
    if config.find_room(jid).is_some() {
        let mut s = "Room: ".to_owned();
        s.append(jid);
        s.append("\nRoom messages: ");
        s.append(messages.as_str());
        s.append("\nArchived sessions: ");
        s.append(sessions.as_str());
        add_count(&mut s, "\nFiles: ", memory.file_count(jid));
        add_count(&mut s, "\nKnowledge entries: ", memory.knowledge_count(jid));
        s
    } else {
        let mut s = "Your session: ".to_owned();
        s.append(messages.as_str());
        s.append(" messages\nArchived sessions: ");
        s.append(sessions.as_str());
        add_count(&mut s, "\nFiles: ", memory.file_count(jid));
        add_count(&mut s, "\nKnowledge entries: ", memory.knowledge_count(jid));
        s.append("\nUser profile: ");
        s.append(yn(memory.has_user_profile(jid)));
        s.append("\nUser memory: ");
        s.append(yn(memory.get_user_memory(jid).is_some()));
        s
    }
}

/// What the status says of the domains that may talk to the agent.
pub open spec fn domain_text(config: Config) -> Seq<char> {
    let domains = config.agent.allowed_domains.deep_view();
    if domains.len() == 0 {
        "Allowed domains: "@ + config.server.own_domain() + " (default)"@
    } else if domains.contains("*"@) {
        "Allowed domains: * (all)"@
    } else {
        "Allowed domains: "@ + joined(domains, ", "@)
    }
}

fn domain_info(config: &Config) -> (r: String)
    ensures
        r@ == domain_text(*config),
{
    assert(config.agent.allowed_domains.deep_view().len() == config.agent.allowed_domains@.len());
    if config.agent.allowed_domains.len() == 0 {
        let mut s = "Allowed domains: ".to_owned();
        s.append(config.server.domain().as_str());
        s.append(" (default)");
        s
    } else if lists(&config.agent.allowed_domains, "*") {
        "Allowed domains: * (all)".to_owned()
    } else {
        let mut s = "Allowed domains: ".to_owned();
        s.append(join(&config.agent.allowed_domains, ", ").as_str());
        s
    }
}

/// What the status says of the skills.
pub open spec fn skills_text(names: Seq<Seq<char>>) -> Seq<char> {
    if names.len() == 0 {
        "Skills: none"@
    } else {
        "Skills: "@ + joined(names, ", "@)
    }
}

fn skills_info(names: &Vec<String>) -> (r: String)
    ensures
        r@ == skills_text(names.deep_view()),
{
    assert(names.deep_view().len() == names@.len());
    if names.len() == 0 {
        "Skills: none".to_owned()
    } else {
        let mut s = "Skills: ".to_owned();
        s.append(join(names, ", ").as_str());
        s
    }
}

/// What the status says of pings.
pub open spec fn keepalive_text(config: Config) -> Seq<char> {
    if config.keepalive.enabled {
        "Keepalive: ping "@ + decimal(config.keepalive.ping_interval_secs as nat) + "s / timeout "@
            + decimal(config.keepalive.read_timeout_secs as nat) + "s"@
    } else {
        "Keepalive: disabled"@
    }
}

fn keepalive_info(config: &Config) -> (r: String)
    ensures
        r@ == keepalive_text(*config),
{
    if config.keepalive.enabled {
        let mut s = "Keepalive: ping ".to_owned();
        s.append(number(config.keepalive.ping_interval_secs).as_str());
        s.append("s / timeout ");
        s.append(number(config.keepalive.read_timeout_secs).as_str());
        s.append("s");
        s
    } else {
        "Keepalive: disabled".to_owned()
    }
}

/// What the status says of idle sessions.
pub open spec fn timeout_text(config: Config) -> Seq<char> {
    if config.session.idle_timeout_mins > 0 {
        "Session timeout: "@ + decimal(config.session.idle_timeout_mins as nat) + "m idle"@
    } else {
        "Session timeout: disabled"@
    }
}

fn timeout_info(config: &Config) -> (r: String)
    ensures
        r@ == timeout_text(*config),
{
    if config.session.idle_timeout_mins > 0 {
        let mut s = "Session timeout: ".to_owned();
        s.append(number(config.session.idle_timeout_mins).as_str());
        s.append("m idle");
        s
    } else {
        "Session timeout: disabled".to_owned()
    }
}

/// The status: the agent, how long it has been up in hours and minutes, how it
/// is connected and configured, and the conversation.
pub open spec fn status_text(
    jid: Seq<char>,
    config: Config,
    memory: MemoryView,
    llm_description: Seq<char>,
    skill_names: Seq<Seq<char>>,
    uptime_secs: nat,
) -> Seq<char> {
    let workspace = memory.workspace(jid);
    config.agent.name@ + " — status\nUptime: "@ + decimal(uptime_secs / 3600) + "h "@ + decimal(
        uptime_secs % 3600 / 60,
    ) + "m\nMode: "@ + config.server.mode_text() + "\nLLM: "@ + llm_description + "\n"@
        + skills_text(skill_names) + "\n"@ + keepalive_text(config) + "\n"@ + timeout_text(config)
        + "\n"@ + context_text(jid, config, memory) + "\nWorkspace: instructions="@ + yes_or_none(
        workspace.instructions is Some,
    ) + ", identity="@ + yes_or_none(workspace.identity is Some) + ", personality="@ + yes_or_none(
        workspace.personality is Some,
    ) + "\n"@ + domain_text(config)
}

fn cmd_status(
    jid: &str,
    config: &Config,
    memory: &Memory,
    llm_description: &str,
    skill_names: &Vec<String>,
    uptime: Duration,
) -> (r: String)
    requires
        uptime.wf(),
    ensures
        r@ == status_text(
            jid@,
            *config,
            memory.deep_view(),
            llm_description@,
            skill_names.deep_view(),
            (uptime.nanos / NANOS_PER_SEC) as nat,
        ),
{
    let secs: u64 = uptime.as_secs();
    let workspace = memory.get_workspace_context(jid);
    let mut s = config.agent.name.clone();
    s.append(" — status\nUptime: ");
    s.append(number(secs / 3600).as_str());
    s.append("h ");
    s.append(number(secs % 3600 / 60).as_str());
    s.append("m\nMode: ");
    s.append(config.server.mode_description().as_str());
    s.append("\nLLM: ");
    s.append(llm_description);
    s.append("\n");
    s.append(skills_info(skill_names).as_str());
    s.append("\n");
    s.append(keepalive_info(config).as_str());
    s.append("\n");
    s.append(timeout_info(config).as_str());
    s.append("\n");
    s.append(context_info(jid, config, memory).as_str());
    s.append("\nWorkspace: instructions=");
    s.append(yn(workspace.instructions.is_some()));
    s.append(", identity=");
    s.append(yn(workspace.identity.is_some()));
    s.append(", personality=");
    s.append(yn(workspace.personality.is_some()));
    s.append("\n");
    s.append(domain_info(config).as_str());
    s
}

// ---- the commands ------------------------------------------------------

/// What the help says.
pub open spec fn help_text() -> Seq<char> {
    "Commands:\n/new     — Start a new conversation (archive current session)\n/forget  — Erase your history, profile, and memory\n/status  — Agent info, uptime, session stats\n/deadletters [N] — Show latest dead-letter records (default: 10)\n/deadletters replay <correlation_id> — Replay a dead-letter when payload is available\n/ping    — Check if the agent is alive\n/help    — This message"@
}

/// How many dead letters are shown unless a number is given.
pub const DEFAULT_COUNT: usize = 10;

/// How many dead letters are shown at most.
pub const MAX_COUNT: usize = 50;

/// A number between one and the most that are shown.
pub open spec fn clamped(n: nat) -> nat {
    if n < 1 {
        1
    } else if n > MAX_COUNT {
        MAX_COUNT as nat
    } else {
        n
    }
}

/// What `/deadletters` comes to: the arguments ask to do one again, or give
/// how many to show.
pub open spec fn deadletters_step(args: Option<Seq<char>>) -> CommandStepView {
    match args {
        None => CommandStepView::ReadDeadLetters(QueryView::Show(DEFAULT_COUNT as nat)),
        Some(a) => {
            let raw = trimmed(a);
            if has_prefix(raw, "replay "@) {
                let id = trimmed(raw.skip("replay "@.len() as int));
                if id.len() == 0 {
                    CommandStepView::Fail(seq!["Usage: /deadletters replay <correlation_id>"@])
                } else {
                    CommandStepView::ReadDeadLetters(QueryView::Replay(id))
                }
            } else if raw.len() == 0 {
                CommandStepView::ReadDeadLetters(QueryView::Show(DEFAULT_COUNT as nat))
            } else if is_usize_text(raw) {
                CommandStepView::ReadDeadLetters(
                    QueryView::Show(clamped(digits_value(unsigned_digits(raw)))),
                )
            } else {
                CommandStepView::Fail(
                    seq!["Usage: /deadletters [N] (N must be a positive integer)"@],
                )
            }
        },
    }
}

/// What a command is known by: what stands before its first space, in small
/// letters.
pub open spec fn command_word(body: Seq<char>) -> Seq<char> {
    lowercase(before(body, ' '))
}

/// Whether a command starts a new session.
pub open spec fn starts_session(word: Seq<char>) -> bool {
    word == "/new"@ || word == "/reset"@
}

/// What a command comes to.
pub open spec fn command_step(
    jid: Seq<char>,
    body: Seq<char>,
    config: Config,
    memory: MemoryView,
    llm_description: Seq<char>,
    skill_names: Seq<Seq<char>>,
    uptime_secs: nat,
) -> CommandStepView {
    let word = command_word(body);
    if word == "/deadletters"@ {
        deadletters_step(after_first(body, ' '))
    } else {
        CommandStepView::Reply(
            text_reply(
                if starts_session(word) {
                    memory.new_session_text(jid)
                } else if word == "/forget"@ {
                    memory.forget_text(jid)
                } else if word == "/status"@ {
                    status_text(jid, config, memory, llm_description, skill_names, uptime_secs)
                } else if word == "/help"@ {
                    help_text()
                } else if word == "/ping"@ {
                    "pong"@
                } else {
                    "Unknown command: "@ + word + "\nType /help for available commands."@
                },
            ),
        )
    }
}

/// Memory after a command: only a new session and forgetting change it.
pub open spec fn command_memory(
    word: Seq<char>,
    before: MemoryView,
    after: MemoryView,
    jid: Seq<char>,
) -> bool {
    if starts_session(word) {
        exists|timestamp: Seq<char>|
            is_compact_time(timestamp) && after == #[trigger] before.after_new_session(
                jid,
                timestamp,
            )
    } else if word == "/forget"@ {
        after == before.after_forget(jid)
    } else {
        after == before
    }
}

/// How many dead letters are to be shown.
pub fn parse_deadletter_count(args: Option<&str>) -> (r: Result<usize, Failure>)
    ensures
        match args {
            None => r is Ok && r->Ok_0 == DEFAULT_COUNT,
            Some(a) => if trimmed(a@).len() == 0 || has_prefix(trimmed(a@), "replay "@) {
                r is Ok && r->Ok_0 == DEFAULT_COUNT
            } else if is_usize_text(trimmed(a@)) {
                r is Ok && r->Ok_0 == clamped(digits_value(unsigned_digits(trimmed(a@))))
            } else {
                r is Err && r->Err_0.deep_view()
                    == seq!["Usage: /deadletters [N] (N must be a positive integer)"@]
            },
        },
{
    let raw = match args {
        None => {
            return Ok(DEFAULT_COUNT);
        },
        Some(a) => trim(a),
    };
    if raw.as_str().is_empty() || starts_with(raw.as_str(), "replay ") {
        return Ok(DEFAULT_COUNT);
    }
    match parse_usize(raw.as_str()) {
        Some(n) => if n < 1 {
            Ok(1)
        } else if n > MAX_COUNT {
            Ok(MAX_COUNT)
        } else {
            Ok(n)
        },
        None => Err(
            Failure::new("Usage: /deadletters [N] (N must be a positive integer)"),
        ),
    }
}

fn cmd_deadletters(args: Option<&str>) -> (r: CommandStep)
    ensures
        r.deep_view() == deadletters_step(args.deep_view()),
{
    if let Some(a) = args {
        let raw = trim(a);
        if starts_with(raw.as_str(), "replay ") {
            let chars = chars_of(raw.as_str());
            proof {
                reveal_strlit("replay ");
            }
            let rest = string_of(&chars, 7, chars.len());
            assert(rest@ =~= raw@.skip(7));
            let id = trim(rest.as_str());
            if id.as_str().is_empty() {
                return CommandStep::Fail(
                    Failure::new("Usage: /deadletters replay <correlation_id>"),
                );
            }
            return CommandStep::ReadDeadLetters(DeadLetterQuery::Replay(id));
        }
    }
    match parse_deadletter_count(args) {
        Ok(n) => CommandStep::ReadDeadLetters(DeadLetterQuery::Show(n)),
        Err(e) => CommandStep::Fail(e),
    }
}

fn cmd_help() -> (r: String)
    ensures
        r@ == help_text(),
{
    "Commands:\n/new     — Start a new conversation (archive current session)\n/forget  — Erase your history, profile, and memory\n/status  — Agent info, uptime, session stats\n/deadletters [N] — Show latest dead-letter records (default: 10)\n/deadletters replay <correlation_id> — Replay a dead-letter when payload is available\n/ping    — Check if the agent is alive\n/help    — This message".to_owned()
}

/// Answers slash commands.
#[derive(Debug, Clone, Copy)]
pub struct CommandActor;

impl Default for CommandActor {
    fn default() -> (r: Self)
        ensures
            r == CommandActor,
    {
        CommandActor
    }
}

impl CommandActor {
    /// The one that answers.
    pub fn new() -> (r: Self)
        ensures
            r == CommandActor,
    {
        CommandActor
    }

    /// What a command comes to, and what it does to memory.
    #[allow(clippy::too_many_arguments)]
    pub fn handle(
        &self,
        from: &str,
        body: &str,
        config: &Config,
        memory: &mut Memory,
        llm_description: &str,
        skill_names: &Vec<String>,
        uptime: Duration,
    ) -> (r: CommandStep)
        requires
            uptime.wf(),
        ensures
            r.deep_view() == command_step(
                bare(from@),
                body@,
                *config,
                old(memory).deep_view(),
                llm_description@,
                skill_names.deep_view(),
                (uptime.nanos / NANOS_PER_SEC) as nat,
            ),
            command_memory(
                command_word(body@),
                old(memory).deep_view(),
                final(memory).deep_view(),
                bare(from@),
            ),
    {
        let jid = bare_jid(from);
        let word = to_lower(part_before(body, ' ').as_str());
        if same(word.as_str(), "/deadletters") {
            let args = part_behind(body, ' ');
            let r = cmd_deadletters(lend_text(&args));
            proof {
                lemma_words_differ();
            }
            return r;
        }
        proof {
            lemma_words_differ();
        }
        let text = if same(word.as_str(), "/new") || same(word.as_str(), "/reset") {
            memory.new_session(jid.as_str())
        } else if same(word.as_str(), "/forget") {
            memory.forget(jid.as_str())
        } else if same(word.as_str(), "/status") {
            cmd_status(jid.as_str(), config, memory, llm_description, skill_names, uptime)
        } else if same(word.as_str(), "/help") {
            cmd_help()
        } else if same(word.as_str(), "/ping") {
            "pong".to_owned()
        } else {
            let mut s = "Unknown command: ".to_owned();
            s.append(word.as_str());
            s.append("\nType /help for available commands.");
            s
        };
        CommandStep::Reply(CommandReply::text_only(text))
    }
}

proof fn lemma_words_differ()
    ensures
        "/deadletters"@ != "/new"@,
        "/deadletters"@ != "/reset"@,
        "/deadletters"@ != "/forget"@,
{
    reveal_strlit("/deadletters");
    reveal_strlit("/new");
    reveal_strlit("/reset");
    reveal_strlit("/forget");
    assert("/deadletters"@.len() == 12);
}

// ---- dead letters ------------------------------------------------------

/// The line that shows a dead letter.
pub open spec fn deadletter_line(record: RecordView) -> Seq<char> {
    "- ["@ + source_name(record.source) + "] reason="@ + record.reason + " corr="@
        + record.correlation_id + " conv="@ + (match record.conversation_id {
        Some(c) => c,
        None => "-"@,
    }) + " kind="@ + record.payload_kind
}

/// The line that shows a dead letter.
pub fn format_deadletter_line(record: &DeadLetterRecord) -> (r: String)
    ensures
        r@ == deadletter_line(record.deep_view()),
{
    let mut s = "- [".to_owned();
    s.append(record.source.name());
    s.append("] reason=");
    s.append(record.reason.as_str());
    s.append(" corr=");
    s.append(record.correlation_id.as_str());
    s.append(" conv=");
    match &record.conversation_id {
        Some(c) => s.append(c.as_str()),
        None => s.append("-"),
    }
    s.append(" kind=");
    s.append(record.payload_kind.as_str());
    s
}

/// How many of `total` are shown.
pub open spec fn shown_count(total: nat, count: nat) -> nat {
    if count < total {
        count
    } else {
        total
    }
}

/// The lines that show the latest dead letters, the newest first.
pub open spec fn deadletter_lines(records: Seq<RecordView>, count: nat) -> Seq<Seq<char>> {
    seq![
        "Dead letters: showing latest "@ + decimal(shown_count(records.len(), count)) + " / "@
            + decimal(records.len()),
    ] + Seq::new(
        shown_count(records.len(), count),
        |i: int| deadletter_line(records[records.len() - 1 - i]),
    )
}

/// What is answered to `/deadletters`.
pub open spec fn deadletters_text(records: Seq<RecordView>, count: nat) -> Seq<char> {
    if records.len() == 0 {
        "Dead letters: none"@
    } else {
        joined(deadletter_lines(records, count), "\n"@)
    }
}

/// What is answered to `/deadletters`.
pub fn show_deadletters(records: &Vec<DeadLetterRecord>, count: usize) -> (r: CommandReply)
    ensures
        r.deep_view() == text_reply(deadletters_text(records.deep_view(), count as nat)),
{
    let ghost all = records.deep_view();
    assert(all.len() == records@.len());
    let total: usize = records.len();
    if total == 0 {
        return CommandReply::text_only("Dead letters: none".to_owned());
    }
    let shown: usize = if count < total {
        count
    } else {
        total
    };
    let ghost wanted = deadletter_lines(all, count as nat);
    let mut head = "Dead letters: showing latest ".to_owned();
    head.append(number(shown as u64).as_str());
    head.append(" / ");
    head.append(number(total as u64).as_str());
    let mut lines: Vec<String> = Vec::new();
    lines.push(head);
    assert(lines.deep_view() =~= wanted.take(1));
    let mut i: usize = 0;
    while i < shown
        invariant
            all == records.deep_view(),
            all.len() == records@.len(),
            total == records@.len(),
            total > 0,
            shown == shown_count(total as nat, count as nat),
            wanted == deadletter_lines(all, count as nat),
            0 <= i <= shown,
            lines.deep_view() == wanted.take(i + 1),
        decreases shown - i,
    {
        let ghost so_far = lines.deep_view();
        lines.push(format_deadletter_line(&records[total - 1 - i]));
        assert(lines.deep_view() =~= so_far.push(wanted[i + 1]));
        assert(lines.deep_view() =~= wanted.take(i + 2));
        i = i + 1;
    }
    assert(wanted.take(wanted.len() as int) =~= wanted);
    CommandReply::text_only(join(&lines, "\n"))
}

/// What a dead letter is decoded as.
#[derive(Debug, Clone, Copy, PartialEq, Eq, Structural)]
pub enum PayloadKind {
    Command,
    Memory,
    Skill,
}

/// What doing a dead letter again comes to.
#[derive(Debug)]
pub enum ReplayStep {
    Reply(CommandReply),
    /// The payload is decoded first.
    Decode { correlation_id: String, reason: String, kind: PayloadKind, payload: serde_json::Value },
}

/// The model of [`ReplayStep`].
pub ghost enum ReplayStepView {
    Reply(CommandReplyView),
    Decode {
        correlation_id: Seq<char>,
        reason: Seq<char>,
        kind: PayloadKind,
        payload: serde_json::Value,
    },
}

impl DeepView for ReplayStep {
    type V = ReplayStepView;

    open spec fn deep_view(&self) -> ReplayStepView {
        match self {
            ReplayStep::Reply(r) => ReplayStepView::Reply(r.deep_view()),
            ReplayStep::Decode { correlation_id, reason, kind, payload } => ReplayStepView::Decode {
                correlation_id: correlation_id@,
                reason: reason@,
                kind: *kind,
                payload: *payload,
            },
        }
    }
}

/// The last of the first `n` dead letters with this correlation identifier.
pub open spec fn last_with(records: Seq<RecordView>, id: Seq<char>, n: int) -> Option<int>
    decreases n,
{
    if n <= 0 {
        None
    } else if records[n - 1].correlation_id == id {
        Some(n - 1)
    } else {
        last_with(records, id, n - 1)
    }
}

/// What doing one dead letter again comes to.
pub open spec fn replay_of(record: RecordView, id: Seq<char>) -> ReplayStepView {
    match record.payload {
        None => ReplayStepView::Reply(
            text_reply("Dead-letter "@ + id + " has no replay payload (legacy record)"@),
        ),
        Some(payload) => match record.source {
            DeadLetterSource::XmppEgress => ReplayStepView::Decode {
                correlation_id: id,
                reason: record.reason,
                kind: PayloadKind::Command,
                payload,
            },
            DeadLetterSource::MemoryActor => ReplayStepView::Decode {
                correlation_id: id,
                reason: record.reason,
                kind: PayloadKind::Memory,
                payload,
            },
            DeadLetterSource::SkillRouter => ReplayStepView::Decode {
                correlation_id: id,
                reason: record.reason,
                kind: PayloadKind::Skill,
                payload,
            },
            other => ReplayStepView::Reply(
                text_reply(
                    "Replay not supported for source "@ + source_name(other) + " (correlation_id="@
                        + id + ")"@,
                ),
            ),
        },
    }
}

/// What `/deadletters replay` comes to: the latest dead letter with the
/// identifier counts.
pub open spec fn replay_step(records: Seq<RecordView>, id: Seq<char>) -> ReplayStepView {
    match last_with(records, id, records.len() as int) {
        None => ReplayStepView::Reply(
            text_reply("Dead-letter not found for correlation_id="@ + id),
        ),
        Some(i) => replay_of(records[i], id),
    }
}

fn replay_record(record: &DeadLetterRecord, id: &str) -> (r: ReplayStep)
    ensures
        r.deep_view() == replay_of(record.deep_view(), id@),
{
    match &record.payload {
        None => {
            let mut s = "Dead-letter ".to_owned();
            s.append(id);
            s.append(" has no replay payload (legacy record)");
            ReplayStep::Reply(CommandReply::text_only(s))
        },
        Some(payload) => {
            let kind = match record.source {
                DeadLetterSource::XmppEgress => PayloadKind::Command,
                DeadLetterSource::MemoryActor => PayloadKind::Memory,
                DeadLetterSource::SkillRouter => PayloadKind::Skill,
                _ => {
                    let mut s = "Replay not supported for source ".to_owned();
                    s.append(record.source.name());
                    s.append(" (correlation_id=");
                    s.append(id);
                    s.append(")");
                    return ReplayStep::Reply(CommandReply::text_only(s));
                },
            };
            ReplayStep::Decode {
                correlation_id: id.to_owned(),
                reason: record.reason.clone(),
                kind,
                payload: payload.clone(),
            }
        },
    }
}

/// What `/deadletters replay` comes to.
pub fn cmd_deadletters_replay(records: &Vec<DeadLetterRecord>, correlation_id: &str) -> (r: ReplayStep)
    ensures
        r.deep_view() == replay_step(records.deep_view(), correlation_id@),
{
    let ghost all = records.deep_view();
    let mut n: usize = records.len();
    while n > 0
        invariant
            all == records.deep_view(),
            0 <= n <= records@.len(),
            last_with(all, correlation_id@, all.len() as int) == last_with(
                all,
                correlation_id@,
                n as int,
            ),
        decreases n,
    {
        assert(all[n - 1].correlation_id == records@[n - 1].correlation_id@);
        if same(records[n - 1].correlation_id.as_str(), correlation_id) {
            return replay_record(&records[n - 1], correlation_id);
        }
        n = n - 1;
    }
    let mut s = "Dead-letter not found for correlation_id=".to_owned();
    s.append(correlation_id);
    ReplayStep::Reply(CommandReply::text_only(s))
}

/// The failure of a payload that cannot be decoded.
pub fn decode_failure(correlation_id: &str, error: &str) -> (r: Failure)
    ensures
        r.deep_view() == seq![
            "Dead-letter payload decode failed for "@ + correlation_id@ + ": "@ + error@,
        ],
{
    let mut s = "Dead-letter payload decode failed for ".to_owned();
    s.append(correlation_id);
    s.append(": ");
    s.append(error);
    Failure::new(s.as_str())
}

/// Sends a command again.
pub fn replay_command(correlation_id: &str, reason: &str, command: XmppCommand) -> (r: CommandReply)
    ensures
        r.deep_view() == (CommandReplyView {
            text: "Replay dispatched for correlation_id="@ + correlation_id@ + " (reason="@
                + reason@ + ")"@,
            replay_commands: seq![command.deep_view()],
        }),
{
    let ghost given = command.deep_view();
    let mut text = "Replay dispatched for correlation_id=".to_owned();
    text.append(correlation_id);
    text.append(" (reason=");
    text.append(reason);
    text.append(")");
    let mut replay_commands: Vec<XmppCommand> = Vec::new();
    replay_commands.push(command);
    assert(replay_commands.deep_view() =~= seq![given]);
    CommandReply { text, replay_commands }
}

/// Does a write to memory again.
pub fn replay_memory(
    correlation_id: &str,
    memory: &mut Memory,
    replay_payload: DeadLetterMemoryReplayPayload,
) -> (r: CommandReply)
    ensures
        message_stored(
            old(memory).deep_view(),
            final(memory).deep_view(),
            replay_payload.deep_view().jid,
            replay_payload.deep_view().role,
            replay_payload.deep_view().content,
            replay_payload.deep_view().msg_id,
            replay_payload.deep_view().sender,
            replay_payload.deep_view().attachments,
            replay_payload.deep_view().reaction,
        ),
        r.deep_view() == text_reply(
            "Replay applied for correlation_id="@ + correlation_id@ + " (memory "@
                + operation_name(replay_payload.deep_view()) + ")"@,
        ),
{
    let mut s = "Replay applied for correlation_id=".to_owned();
    s.append(correlation_id);
    s.append(" (memory ");
    match replay_payload {
        DeadLetterMemoryReplayPayload::StoreMessageStructured {
            jid,
            role,
            content,
            msg_id,
            sender,
        } => {
            memory.store_message_structured(
                jid.as_str(),
                role.as_str(),
                content.as_str(),
                lend_text(&msg_id),
                lend_text(&sender),
            );
            s.append("store_message_structured");
        },
        DeadLetterMemoryReplayPayload::StoreMessageFull {
            jid,
            role,
            content,
            msg_id,
            sender,
            attachments,
            reaction,
        } => {
            memory.store_message_full(
                jid.as_str(),
                role.as_str(),
                content.as_str(),
                lend_text(&msg_id),
                lend_text(&sender),
                attachments,
                reaction,
            );
            s.append("store_message_full");
        },
    }
    s.append(")");
    CommandReply::text_only(s)
}

/// What is answered when a skill has been run again.
pub fn replay_skill(
    correlation_id: &str,
    payload: &DeadLetterSkillReplayPayload,
    content: &str,
) -> (r: CommandReply)
    ensures
        r.deep_view() == text_reply(
            "Replay executed for correlation_id="@ + correlation_id@ + " (skill="@
                + payload.skill_name@ + "): "@ + content@,
        ),
{
    let mut s = "Replay executed for correlation_id=".to_owned();
    s.append(correlation_id);
    s.append(" (skill=");
    s.append(payload.skill_name.as_str());
    s.append("): ");
    s.append(content);
    CommandReply::text_only(s)
}

// ---- laws --------------------------------------------------------------

/// Of several dead letters with one identifier the latest is done again.
pub proof fn the_latest_is_replayed(records: Seq<RecordView>, id: Seq<char>, n: int)
    requires
        0 <= n <= records.len(),
    ensures
        match last_with(records, id, n) {
            Some(i) => {
                &&& 0 <= i < n
                &&& records[i].correlation_id == id
                &&& forall|j: int| i < j < n ==> (#[trigger] records[j]).correlation_id != id
            },
            None => forall|j: int| 0 <= j < n ==> (#[trigger] records[j]).correlation_id != id,
        },
    decreases n,
{
    if n > 0 && records[n - 1].correlation_id != id {
        the_latest_is_replayed(records, id, n - 1);
    }
}

/// A number of dead letters to show is between one and the most.
pub proof fn at_least_one_is_shown(args: Option<Seq<char>>)
    ensures
        deadletters_step(args) matches CommandStepView::ReadDeadLetters(QueryView::Show(n)) ==> 1
            <= n <= MAX_COUNT,
{
}

/// No command but a new session and forgetting touches memory.
pub proof fn other_commands_keep_memory(
    word: Seq<char>,
    before: MemoryView,
    after: MemoryView,
    jid: Seq<char>,
)
    requires
        command_memory(word, before, after, jid),
        !starts_session(word),
        word != "/forget"@,
    ensures
        after == before,
{
}

/// A command is told by its first word, in letters of either case, whatever
/// stands behind it, and is answered with its own text and nothing to send.
pub proof fn commands_are_told_by_their_word(
    jid: Seq<char>,
    word: Seq<char>,
    rest: Seq<char>,
    config: Config,
    memory: MemoryView,
    llm_description: Seq<char>,
    skill_names: Seq<Seq<char>>,
    uptime_secs: nat,
)
    requires
        !word.contains(' '),
    ensures
        ({
            let answer = |body: Seq<char>|
                command_step(
                    jid,
                    body,
                    config,
                    memory,
                    llm_description,
                    skill_names,
                    uptime_secs,
                );
            let said = |text: Seq<char>|
                CommandStepView::Reply(
                    CommandReplyView { text, replay_commands: Seq::empty() },
                );
            let low = lowercase(word);
            let more = word + seq![' '] + rest;
            &&& low == "/ping"@ ==> answer(word) == said("pong"@) && answer(more) == said("pong"@)
            &&& low == "/new"@ || low == "/reset"@ ==> answer(word) == said(
                memory.new_session_text(jid),
            ) && answer(more) == said(memory.new_session_text(jid))
            &&& low == "/forget"@ ==> answer(word) == said(memory.forget_text(jid)) && answer(more)
                == said(memory.forget_text(jid))
            &&& low == "/help"@ ==> answer(word) == said(help_text()) && answer(more) == said(
                help_text(),
            )
            &&& low == "/status"@ ==> answer(word) == said(
                status_text(jid, config, memory, llm_description, skill_names, uptime_secs),
            )
            &&& low == "/deadletters"@ ==> answer(word) == deadletters_step(None) && answer(more)
                == deadletters_step(Some(rest))
            &&& low != "/ping"@ && low != "/new"@ && low != "/reset"@ && low != "/forget"@ && low
                != "/help"@ && low != "/status"@ && low != "/deadletters"@ ==> answer(word) == said(
                "Unknown command: "@ + low + "\nType /help for available commands."@,
            )
        }),
{
    texts_come_apart(word, ' ', rest);
    reveal_strlit("/ping");
    reveal_strlit("/new");
    reveal_strlit("/reset");
    reveal_strlit("/forget");
    reveal_strlit("/help");
    reveal_strlit("/status");
    reveal_strlit("/deadletters");
    assert("/ping"@[1] == 'p' && "/new"@[1] == 'n' && "/reset"@[1] == 'r' && "/forget"@[1] == 'f'
        && "/help"@[1] == 'h' && "/status"@[1] == 's' && "/deadletters"@[1] == 'd');
}

/// Ten dead letters are shown where no number is given, and as many as asked
/// for otherwise, but never fewer than one or more than fifty. What is no
/// number is refused.
pub proof fn as_many_dead_letters_as_asked_for(n: nat, white: Seq<char>)
    requires
        n <= usize::MAX,
        is_blank(white),
    ensures
        deadletters_step(None) == CommandStepView::ReadDeadLetters(QueryView::Show(10)),
        deadletters_step(Some(white)) == CommandStepView::ReadDeadLetters(QueryView::Show(10)),
        deadletters_step(Some(decimal(n))) == CommandStepView::ReadDeadLetters(
            QueryView::Show(
                if n == 0 {
                    1
                } else if n > 50 {
                    50
                } else {
                    n
                },
            ),
        ),
{
    let d = decimal(n);
    lemma_decimal_value(n);
    assert forall|k: int| 0 <= k < d.len() implies !is_white(#[trigger] d[k]) by {
        assert('0' <= d[k] <= '9');
    }
    lemma_trims_to_itself(d);
    reveal_strlit("replay ");
    assert(!has_prefix(d, "replay "@)) by {
        if has_prefix(d, "replay "@) {
            assert(d.subrange(0, 7)[0] == 'r');
        }
    }
    assert('0' <= d[0] <= '9');
    assert(!has_prefix(trimmed(white), "replay "@));
}

proof fn lemma_trims_to_itself(s: Seq<char>)
    requires
        s.len() > 0,
        !is_white(s[0]),
        !is_white(s.last()),
    ensures
        trimmed(s) == s,
{
}

/// A dead letter is done again under the identifier that is asked for, without
/// the white space around it; without one the usage is told.
pub proof fn dead_letters_are_asked_for_by_identifier(id: Seq<char>)
    requires
        id.len() > 0,
        !is_white(id[0]) && !is_white(id.last()),
    ensures
        deadletters_step(Some("replay "@ + id)) == CommandStepView::ReadDeadLetters(
            QueryView::Replay(id),
        ),
        deadletters_step(Some(" replay  "@ + id)) == CommandStepView::ReadDeadLetters(
            QueryView::Replay(id),
        ),
{
    reveal_strlit("replay ");
    reveal_strlit(" replay  ");
    let p = "replay "@;
    let plain = p + id;
    assert(!is_white('r'));
    assert(plain[0] == 'r');
    assert(plain.last() == id.last());
    lemma_trims_to_itself(plain);
    assert(plain.subrange(0, 7) =~= p);
    assert(plain.skip(7) =~= id);
    lemma_trims_to_itself(id);
    let wide = " replay  "@ + id;
    let inner = wide.drop_first();
    assert(is_white(' '));
    assert(inner[0] == 'r');
    assert(inner.last() == id.last());
    reveal_with_fuel(trim_front, 3);
    assert(trim_front(wide) == inner);
    assert(trimmed(wide) == inner);
    assert(inner.subrange(0, 7) =~= p);
    let rest = inner.skip(7);
    assert(rest[0] == ' ');
    assert(rest.drop_first() =~= id);
    assert(trim_front(rest) == id);
}

/// The newest dead letters are shown, the newest first, a line for each under a
/// head that says how many there are, with where it came from, why, its
/// identifier, its conversation and its kind.
pub proof fn the_newest_dead_letters_come_first(records: Seq<RecordView>, count: nat, i: int)
    requires
        0 <= i < records.len(),
        i < count,
    ensures
        ({
            let lines = deadletter_lines(records, count);
            let r = records[records.len() - 1 - i];
            let shown = if count < records.len() {
                count
            } else {
                records.len()
            };
            &&& lines.len() == shown + 1
            &&& lines[0] == "Dead letters: showing latest "@ + decimal(shown) + " / "@ + decimal(
                records.len(),
            )
            &&& r.conversation_id is Some ==> lines[i + 1] == "- ["@ + source_name(r.source)
                + "] reason="@ + r.reason + " corr="@ + r.correlation_id + " conv="@
                + r.conversation_id->0 + " kind="@ + r.payload_kind
            &&& r.conversation_id is None ==> lines[i + 1] == "- ["@ + source_name(r.source)
                + "] reason="@ + r.reason + " corr="@ + r.correlation_id + " conv="@ + "-"@
                + " kind="@ + r.payload_kind
            &&& deadletters_text(records, count) == joined(lines, "\n"@)
        }),
{
}

/// Of the dead letters with an identifier the latest is done again, each by who
/// can do it: commands are sent, memory is written and skills are run, with
/// the payload that was kept. Others are declined, as is one without a payload,
/// and one that is not there is not found.
pub proof fn dead_letters_are_done_again(
    before: Seq<RecordView>,
    record: RecordView,
    after: Seq<RecordView>,
    id: Seq<char>,
)
    requires
        record.correlation_id == id,
        forall|j: int| 0 <= j < after.len() ==> (#[trigger] after[j]).correlation_id != id,
    ensures
        ({
            let step = replay_step(before + seq![record] + after, id);
            let again = |kind: PayloadKind|
                ReplayStepView::Decode {
                    correlation_id: id,
                    reason: record.reason,
                    kind,
                    payload: record.payload->0,
                };
            &&& record.payload is Some && record.source == DeadLetterSource::XmppEgress ==> step
                == again(PayloadKind::Command)
            &&& record.payload is Some && record.source == DeadLetterSource::MemoryActor ==> step
                == again(PayloadKind::Memory)
            &&& record.payload is Some && record.source == DeadLetterSource::SkillRouter ==> step
                == again(PayloadKind::Skill)
            &&& record.payload is None || record.source == DeadLetterSource::Router || record.source
                == DeadLetterSource::Unknown ==> step is Reply
            &&& replay_step(after, id) is Reply
        }),
{
    let all = before + seq![record] + after;
    let n = all.len() as int;
    the_latest_is_replayed(all, id, n);
    the_latest_is_replayed(after, id, after.len() as int);
    let at = before.len() as int;
    assert(all[at] == record);
    assert forall|j: int| at < j < n implies (#[trigger] all[j]).correlation_id != id by {
        assert(all[j] == after[j - at - 1]);
    }
    assert(last_with(all, id, n) == Some(at));
}

/// The status names the agent and says how long it has been up, in hours and
/// minutes; then come the lines on mode, model, skills, connection, sessions
/// and memory, and last what the workspace holds and who may talk to the agent.
pub proof fn the_status_holds_its_lines(
    jid: Seq<char>,
    config: Config,
    memory: MemoryView,
    llm_description: Seq<char>,
    skill_names: Seq<Seq<char>>,
    hours: nat,
    minutes: nat,
    seconds: nat,
)
    requires
        minutes < 60 && seconds < 60,
    ensures
        ({
            let up: nat = hours * 3600 + minutes * 60 + seconds;
            let has = |text: Option<Seq<char>>|
                if text is Some {
                    "yes"@
                } else {
                    "none"@
                };
            let w = memory.workspace(jid);
            status_text(jid, config, memory, llm_description, skill_names, up)
                == config.agent.name@ + " — status\nUptime: "@ + decimal(hours) + "h "@ + decimal(
                minutes,
            ) + "m\nMode: "@ + config.server.mode_text() + "\nLLM: "@ + llm_description + "\n"@
                + skills_text(skill_names) + "\n"@ + keepalive_text(config) + "\n"@ + timeout_text(
                config,
            ) + "\n"@ + context_text(jid, config, memory) + "\nWorkspace: instructions="@ + has(
                w.instructions,
            ) + ", identity="@ + has(w.identity) + ", personality="@ + has(w.personality) + "\n"@
                + domain_text(config)
        }),
{
    let up: nat = hours * 3600 + minutes * 60 + seconds;
    assert(up / 3600 == hours && up % 3600 / 60 == minutes);
}

/// What the status says of the skills, the connection and the sessions goes by
/// the configuration.
pub proof fn the_status_goes_by_the_configuration(config: Config, names: Seq<Seq<char>>)
    ensures
        names.len() == 0 ==> skills_text(names) == "Skills: none"@,
        names.len() > 0 ==> skills_text(names) == "Skills: "@ + joined(names, ", "@),
        !config.keepalive.enabled ==> keepalive_text(config) == "Keepalive: disabled"@,
        config.keepalive.enabled ==> keepalive_text(config) == "Keepalive: ping "@ + decimal(
            config.keepalive.ping_interval_secs as nat,
        ) + "s / timeout "@ + decimal(config.keepalive.read_timeout_secs as nat) + "s"@,
        config.session.idle_timeout_mins == 0 ==> timeout_text(config)
            == "Session timeout: disabled"@,
        config.session.idle_timeout_mins > 0 ==> timeout_text(config) == "Session timeout: "@
            + decimal(config.session.idle_timeout_mins as nat) + "m idle"@,
        config.agent.allowed_domains@.len() == 0 ==> domain_text(config) == "Allowed domains: "@
            + config.server.own_domain() + " (default)"@,
{
}

/// The status counts what is kept: the messages of the session, the archived
/// sessions, and the files and the knowledge where there are any.
pub proof fn the_status_counts_what_is_kept(jid: Seq<char>, config: Config, memory: MemoryView)
    ensures
        ({
            let user = memory.user(jid);
            let said = context_text(jid, config, memory);
            let counts = decimal(user.messages().len());
            let sessions = decimal(session_names(user.archives).len());
            &&& config.room_index(jid) is Some ==> has_prefix(
                said,
                "Room: "@ + jid + "\nRoom messages: "@ + counts + "\nArchived sessions: "@
                    + sessions,
            )
            &&& config.room_index(jid) is None ==> has_prefix(
                said,
                "Your session: "@ + counts + " messages\nArchived sessions: "@ + sessions,
            )
            &&& user.files is Some && user.files->0.len() > 0 ==> has_text(
                said,
                "\nFiles: "@ + decimal(user.files->0.len()),
            )
            &&& user.entries().len() > 0 ==> has_text(
                said,
                "\nKnowledge entries: "@ + decimal(user.entries().len()),
            )
            &&& config.room_index(jid) is None ==> has_suffix(
                said,
                "\nUser profile: "@ + (if user.profile() is Some {
                    "yes"@
                } else {
                    "none"@
                }) + "\nUser memory: "@ + (if user.text("memory.md"@) is Some {
                    "yes"@
                } else {
                    "none"@
                }),
            )
        }),
{
    let user = memory.user(jid);
    let said = context_text(jid, config, memory);
    let counts = decimal(user.messages().len());
    let sessions = decimal(session_names(user.archives).len());
    let files = count_line("\nFiles: "@, user.file_count());
    let knowledge = count_line("\nKnowledge entries: "@, user.entries().len());
    let about = "\nUser profile: "@ + yes_or_none(user.profile() is Some) + "\nUser memory: "@
        + yes_or_none(user.text("memory.md"@) is Some);
    let head = if config.room_index(jid) is Some {
        "Room: "@ + jid + "\nRoom messages: "@ + counts + "\nArchived sessions: "@ + sessions
    } else {
        "Your session: "@ + counts + " messages\nArchived sessions: "@ + sessions
    };
    let tail = if config.room_index(jid) is Some {
        Seq::empty()
    } else {
        about
    };
    assert(said =~= head + files + knowledge + tail);
    what_is_held_stands_inside(head, head, files + knowledge + tail, said);
    assert(said =~= head + (files + knowledge + tail));
    what_is_held_stands_inside(head, files, knowledge + tail, said);
    assert(said =~= head + files + (knowledge + tail));
    what_is_held_stands_inside(head + files, knowledge, tail, said);
    what_is_held_stands_inside(head + files + knowledge, tail, said, said);
}

/// A new session archives the conversation, forgetting erases it, and both
/// touch nobody else.
pub proof fn commands_change_one_memory(
    word: Seq<char>,
    before: MemoryView,
    after: MemoryView,
    jid: Seq<char>,
    other: Seq<char>,
)
    requires
        command_memory(word, before, after, jid),
        jid != other,
    ensures
        after.user(other) == before.user(other),
        word == "/new"@ || word == "/reset"@ ==> after.user(jid).messages().len() == 0,
        word == "/forget"@ ==> after.user(jid).messages().len() == 0 && after.user(
            jid,
        ).entries().len() == 0 && after.user(jid).archives == before.user(jid).archives,
{
    reveal_strlit("/new");
    reveal_strlit("/reset");
    reveal_strlit("/forget");
    assert("/new"@[1] == 'n' && "/reset"@[1] == 'r' && "/forget"@[1] == 'f');
    if word == "/forget"@ {
        forgetting_keeps_the_archive(before, jid);
    }
}

/// What is not done again is explained: no dead letter under the identifier, no
/// payload, or nobody who could.
pub proof fn what_is_not_done_again_is_explained(
    records: Seq<RecordView>,
    record: RecordView,
    id: Seq<char>,
)
    ensures
        ({
            let said = |text: Seq<char>|
                ReplayStepView::Reply(
                    CommandReplyView { text, replay_commands: Seq::empty() },
                );
            &&& (forall|j: int|
                0 <= j < records.len() ==> (#[trigger] records[j]).correlation_id != id)
                ==> replay_step(records, id) == said(
                "Dead-letter not found for correlation_id="@ + id,
            )
            &&& record.payload is None ==> replay_of(record, id) == said(
                "Dead-letter "@ + id + " has no replay payload (legacy record)"@,
            )
            &&& record.payload is Some && (record.source == DeadLetterSource::Router
                || record.source == DeadLetterSource::Unknown) ==> replay_of(record, id) == said(
                "Replay not supported for source "@ + source_name(record.source)
                    + " (correlation_id="@ + id + ")"@,
            )
        }),
{
    the_latest_is_replayed(records, id, records.len() as int);
}

/// The domains are told as they are listed, unless the wildcard is among them.
pub proof fn listed_domains_are_told(config: Config)
    requires
        config.agent.allowed_domains@.len() > 0,
    ensures
        ({
            let domains = config.agent.allowed_domains.deep_view();
            if domains.contains("*"@) {
                domain_text(config) == "Allowed domains: * (all)"@
            } else {
                domain_text(config) == "Allowed domains: "@ + joined(domains, ", "@)
            }
        }),
{
}

/// Files and knowledge are not mentioned where there are none.
pub proof fn the_status_is_silent_on_nothing(jid: Seq<char>, config: Config, memory: MemoryView)
    requires
        config.room_index(jid) is Some,
        memory.user(jid).files is None,
        memory.user(jid).entries().len() == 0,
    ensures
        context_text(jid, config, memory) == "Room: "@ + jid + "\nRoom messages: "@ + decimal(
            memory.user(jid).messages().len(),
        ) + "\nArchived sessions: "@ + decimal(session_names(memory.user(jid).archives).len()),
{
    let said = "Room: "@ + jid + "\nRoom messages: "@ + decimal(memory.user(jid).messages().len())
        + "\nArchived sessions: "@ + decimal(session_names(memory.user(jid).archives).len());
    assert(context_text(jid, config, memory) =~= said);
}

} // verus!
