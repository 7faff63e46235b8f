//! Answers of the language model: what it is asked, and what is stored of the
//! exchange.

use super::dead_letter::StoreView;
use super::memory_actor::MemoryRequest;
use super::message::answer_entry;
use super::skill_router::SkillContext;
use crate::agent::entries::{
    build_message_for_llm, own_text, plain_text_is_shown_unchanged,
    room_text_is_shown_with_its_sender,
};
use crate::agent::memory::{
    history_ends_with_what_was_stored, message_stored, stored, Memory, MemoryView,
    WorkspaceContext, WorkspaceView,
};
use crate::clock::{is_compact_time, is_long_date, today};
use crate::config::Config;
use crate::ids::{is_uuid_text, new_id};
use crate::llm::types::{text_message, Message, MessageView};
use crate::text::{has_prefix, has_suffix, trim, trimmed};
use crate::time::Duration;
use crate::xmpp::{bare, bare_jid};
use vstd::prelude::*;
use vstd::string::*;

verus! {

/// How many messages of a conversation the language model sees.
pub const MAX_HISTORY: usize = 20;

// ---- the system prompt -------------------------------------------------

/// The prompt of an agent without files of its own.
pub open spec fn fallback_prompt(agent_name: Seq<char>) -> Seq<char> {
    "You are "@ + agent_name
        + ", a personal AI assistant accessible via XMPP.\nYou are direct, helpful, and concise. You respond in the user's language.\n\nRules:\n- Respond concisely, no excessive markdown formatting\n- If asked to execute an action (send an email, modify a file...), describe what you would do but clarify that you cannot yet execute actions (skills are coming in v0.2)\n- You have memory of previous conversations with this user"@
}

/// A text that is trimmed and put between two others, where there is one.
pub open spec fn section(head: Seq<char>, text: Option<Seq<char>>, tail: Seq<char>) -> Seq<char> {
    match text {
        Some(t) => head + trimmed(t) + tail,
        None => Seq::empty(),
    }
}

/// What the prompt says of the agent.
pub open spec fn agent_part(agent_name: Seq<char>, ctx: WorkspaceView) -> Seq<char> {
    if ctx.identity is Some || ctx.personality is Some || ctx.instructions is Some {
        section(""@, ctx.identity, "\n\n"@) + section(""@, ctx.personality, "\n\n"@) + section(
            ""@,
            ctx.instructions,
            ""@,
        )
    } else {
        fallback_prompt(agent_name)
    }
}

/// The system prompt: the agent's identity, personality and instructions, or a
/// fallback where there is none of them; then the user's profile and notes;
/// then the date.
pub open spec fn system_prompt(agent_name: Seq<char>, ctx: WorkspaceView, date: Seq<char>) -> Seq<
    char,
> {
    agent_part(agent_name, ctx) + section("\n\n## About this user\n"@, ctx.user_profile, ""@)
        + section("\n\n## Notes and memory\n"@, ctx.user_memory, ""@) + "\n\nCurrent date: "@ + date
}

fn add_section(s: &mut String, head: &str, text: &Option<String>, tail: &str)
    ensures
        final(s)@ == old(s)@ + section(head@, text.deep_view(), tail@),
{
    let ghost start = s@;
    match text {
        Some(t) => {
            let inner = trim(t.as_str());
            s.append(head);
            s.append(inner.as_str());
            s.append(tail);
            assert(s@ =~= start + (head@ + trimmed(t@) + tail@));
        },
        None => {
            assert(s@ =~= start + Seq::<char>::empty());
        },
    }
}

/// The system prompt on a given date.
pub fn build_system_prompt_on(agent_name: &str, ctx: &WorkspaceContext, date: &str) -> (r: String)
    ensures
        r@ == system_prompt(agent_name@, ctx.deep_view(), date@),
{
    let mut prompt = String::new();
    if ctx.identity.is_some() || ctx.personality.is_some() || ctx.instructions.is_some() {
        add_section(&mut prompt, "", &ctx.identity, "\n\n");
        add_section(&mut prompt, "", &ctx.personality, "\n\n");
        add_section(&mut prompt, "", &ctx.instructions, "");
        assert(prompt@ =~= agent_part(agent_name@, ctx.deep_view()));
    } else {
        prompt.append("You are ");
        prompt.append(agent_name);
        prompt.append(
            ", a personal AI assistant accessible via XMPP.\nYou are direct, helpful, and concise. You respond in the user's language.\n\nRules:\n- Respond concisely, no excessive markdown formatting\n- If asked to execute an action (send an email, modify a file...), describe what you would do but clarify that you cannot yet execute actions (skills are coming in v0.2)\n- You have memory of previous conversations with this user",
        );
        assert(prompt@ =~= agent_part(agent_name@, ctx.deep_view()));
    }
    add_section(&mut prompt, "\n\n## About this user\n", &ctx.user_profile, "");
    add_section(&mut prompt, "\n\n## Notes and memory\n", &ctx.user_memory, "");
    prompt.append("\n\nCurrent date: ");
    prompt.append(date);
    prompt
}

/// The system prompt today.
pub fn build_system_prompt_static(agent_name: &str, ctx: &WorkspaceContext) -> (r: String)
    ensures
        exists|date: Seq<char>|
            is_long_date(date) && r@ == #[trigger] system_prompt(
                agent_name@,
                ctx.deep_view(),
                date,
            ),
{
    let date = today();
    build_system_prompt_on(agent_name, ctx, date.as_str())
}

// ---- what the model is asked -------------------------------------------

/// What the language model is asked.
#[derive(Debug)]
pub struct InferenceRequest {
    pub system_prompt: String,
    pub messages: Vec<Message>,
    pub context: SkillContext,
}

/// Memory after a conversation that was idle for too long has been archived,
/// and unchanged where it was not or holds no message.
pub open spec fn refreshed(
    before: MemoryView,
    after: MemoryView,
    jid: Seq<char>,
    idle_timeout_mins: u64,
    idle: Duration,
) -> bool {
    if Memory::is_stale(before, jid, idle_timeout_mins, idle) && before.user(
        jid,
    ).messages().len() > 0 {
        exists|timestamp: Seq<char>|
            is_compact_time(timestamp) && after == #[trigger] before.after_new_session(
                jid,
                timestamp,
            )
    } else {
        after == before
    }
}

/// Whether this is what the language model is asked for a conversation: under
/// the prompt for its user, the recent messages and `more`, with skills run
/// for that user.
pub open spec fn asks(
    r: InferenceRequest,
    memory: MemoryView,
    jid: Seq<char>,
    agent_name: Seq<char>,
    more: Seq<MessageView>,
) -> bool {
    &&& r.messages.deep_view() == memory.recent(jid, MAX_HISTORY as nat) + more
    &&& exists|date: Seq<char>|
        is_long_date(date) && r.system_prompt@ == #[trigger] system_prompt(
            agent_name,
            memory.workspace(jid),
            date,
        )
    &&& r.context.jid@ == jid
    &&& r.context.base_path@ == memory.base_path
}

/// What is asked for a conversation, after one that was idle for too long has
/// been archived.
pub fn prepare(memory: &mut Memory, jid: &str, config: &Config, idle: Duration) -> (r:
    InferenceRequest)
    requires
        config.session.idle_timeout_mins * 60 <= u64::MAX,
    ensures
        refreshed(
            old(memory).deep_view(),
            final(memory).deep_view(),
            jid@,
            config.session.idle_timeout_mins,
            idle,
        ),
        asks(r, final(memory).deep_view(), jid@, config.agent.name@, Seq::empty()),
{
    let _ = memory.check_session_freshness(jid, config.session.idle_timeout_mins, idle);
    let messages = memory.get_history(jid, MAX_HISTORY);
    let workspace = memory.get_workspace_context(jid);
    let system_prompt = build_system_prompt_static(config.agent.name.as_str(), &workspace);
    assert(messages.deep_view() + Seq::<MessageView>::empty() =~= messages.deep_view());
    InferenceRequest {
        system_prompt,
        messages,
        context: SkillContext { jid: jid.to_owned(), base_path: memory.base_path().to_owned() },
    }
}

/// How the user's message of an exchange is stored.
pub open spec fn user_entry(jid: Seq<char>, body: Seq<char>, msg_id: Option<Seq<char>>) -> StoreView {
    StoreView {
        full: false,
        jid,
        role: "user"@,
        content: body,
        msg_id,
        sender: Some(jid),
        attachments: None,
        reaction: None,
    }
}

/// The model's answer, to be stored under a fresh identifier.
pub(crate) fn answer_request(jid: &str, text: &str) -> (r: MemoryRequest)
    ensures
        exists|out_id: Seq<char>|
            is_uuid_text(out_id) && r.deep_view() == #[trigger] answer_entry(jid@, text@, out_id),
{
    let out_id = new_id();
    let ghost id = out_id@;
    let r = MemoryRequest::StoreMessageStructured {
        jid: jid.to_owned(),
        role: "assistant".to_owned(),
        content: text.to_owned(),
        msg_id: Some(out_id),
        sender: None,
    };
    assert(r.deep_view() == answer_entry(jid@, text@, id));
    r
}

/// Asks the language model.
#[derive(Debug, Clone, Copy)]
pub struct InferenceActor;

impl InferenceActor {
    /// What is asked for a message of a one-to-one chat, which stands behind
    /// the messages before it.
    pub fn handle_message(
        memory: &mut Memory,
        from: &str,
        body: &str,
        config: &Config,
        idle: Duration,
    ) -> (r: InferenceRequest)
        requires
            config.session.idle_timeout_mins * 60 <= u64::MAX,
        ensures
            refreshed(
                old(memory).deep_view(),
                final(memory).deep_view(),
                bare(from@),
                config.session.idle_timeout_mins,
                idle,
            ),
            asks(
                r,
                final(memory).deep_view(),
                bare(from@),
                config.agent.name@,
                seq![text_message("user"@, body@)],
            ),
    {
        let jid = bare_jid(from);
        let mut r = prepare(memory, jid.as_str(), config, idle);
        let ghost so_far = r.messages.deep_view();
        r.messages.push(build_message_for_llm("user".to_owned(), body.to_owned(), None));
        assert(r.messages.deep_view() =~= so_far + seq![text_message("user"@, body@)]);
        assert(so_far =~= memory.deep_view().recent(bare(from@), MAX_HISTORY as nat));
        r
    }

    /// What is stored, in this order, of an exchange in a one-to-one chat.
    pub fn finish_message(from: &str, body: &str, msg_id: Option<&str>, text: &str) -> (r: Vec<
        MemoryRequest,
    >)
        ensures
            exists|out_id: Seq<char>|
                is_uuid_text(out_id) && r.deep_view() == seq![
                    user_entry(bare(from@), body@, msg_id.deep_view()),
                    #[trigger] answer_entry(bare(from@), text@, out_id),
                ],
    {
        let jid = bare_jid(from);
        let mut r: Vec<MemoryRequest> = Vec::new();
        r.push(
            MemoryRequest::StoreMessageStructured {
                jid: jid.clone(),
                role: "user".to_owned(),
                content: body.to_owned(),
                msg_id: own_text(msg_id),
                sender: Some(jid.clone()),
            },
        );
        let answer = answer_request(jid.as_str(), text);
        let ghost id = choose|out_id: Seq<char>|
            is_uuid_text(out_id) && answer.deep_view() == #[trigger] answer_entry(
                jid@,
                text@,
                out_id,
            );
        r.push(answer);
        assert(r.deep_view() =~= seq![
            user_entry(bare(from@), body@, msg_id.deep_view()),
            answer_entry(bare(from@), text@, id),
        ]);
        r
    }

    /// What is asked for a reaction. It stands in the history already.
    pub fn handle_reaction(memory: &mut Memory, jid: &str, config: &Config, idle: Duration) -> (r:
        InferenceRequest)
        requires
            config.session.idle_timeout_mins * 60 <= u64::MAX,
        ensures
            refreshed(
                old(memory).deep_view(),
                final(memory).deep_view(),
                jid@,
                config.session.idle_timeout_mins,
                idle,
            ),
            asks(r, final(memory).deep_view(), jid@, config.agent.name@, Seq::empty()),
    {
        prepare(memory, jid, config, idle)
    }

    /// What is asked for a message of a room. It stands in the history
    /// already.
    pub fn handle_muc_message(
        memory: &mut Memory,
        room_jid: &str,
        config: &Config,
        idle: Duration,
    ) -> (r: InferenceRequest)
        requires
            config.session.idle_timeout_mins * 60 <= u64::MAX,
        ensures
            refreshed(
                old(memory).deep_view(),
                final(memory).deep_view(),
                room_jid@,
                config.session.idle_timeout_mins,
                idle,
            ),
            asks(r, final(memory).deep_view(), room_jid@, config.agent.name@, Seq::empty()),
    {
        prepare(memory, room_jid, config, idle)
    }
}

// ---- laws --------------------------------------------------------------

/// A conversation does not grow without bounds for the language model: it sees
/// the end of it, and what is new.
pub proof fn the_model_sees_the_end(
    r: InferenceRequest,
    memory: MemoryView,
    jid: Seq<char>,
    agent_name: Seq<char>,
    more: Seq<MessageView>,
)
    requires
        asks(r, memory, jid, agent_name, more),
    ensures
        r.messages.deep_view().len() <= MAX_HISTORY + more.len(),
        more.is_suffix_of(r.messages.deep_view()),
{
    let seen = r.messages.deep_view();
    assert(seen.subrange(seen.len() - more.len(), seen.len() as int) =~= more);
}

/// A new session clears what the language model sees of a conversation.
pub proof fn a_new_session_clears_the_context(
    memory: MemoryView,
    jid: Seq<char>,
    timestamp: Seq<char>,
    limit: nat,
)
    ensures
        memory.after_new_session(jid, timestamp).recent(jid, limit).len() == 0,
{
}

/// Of a conversation that was idle for too long the language model sees only
/// what is new.
pub proof fn a_stale_conversation_starts_over(
    r: InferenceRequest,
    before: MemoryView,
    after: MemoryView,
    jid: Seq<char>,
    idle_timeout_mins: u64,
    idle: Duration,
    agent_name: Seq<char>,
    more: Seq<MessageView>,
)
    requires
        Memory::is_stale(before, jid, idle_timeout_mins, idle),
        refreshed(before, after, jid, idle_timeout_mins, idle),
        asks(r, after, jid, agent_name, more),
    ensures
        r.messages.deep_view() == more,
{
    if before.user(jid).messages().len() > 0 {
        let timestamp = choose|timestamp: Seq<char>|
            is_compact_time(timestamp) && after == #[trigger] before.after_new_session(
                jid,
                timestamp,
            );
        a_new_session_clears_the_context(before, jid, timestamp, MAX_HISTORY as nat);
    }
    assert(r.messages.deep_view() =~= more);
}

/// What the language model gets to see of one JID does not depend on what is
/// kept of any other.
pub proof fn only_own_memory_is_seen(
    a: MemoryView,
    b: MemoryView,
    jid: Seq<char>,
    limit: nat,
    agent_name: Seq<char>,
    date: Seq<char>,
)
    requires
        a.user(jid) == b.user(jid),
        a.global == b.global,
    ensures
        a.recent(jid, limit) == b.recent(jid, limit),
        system_prompt(agent_name, a.workspace(jid), date) == system_prompt(
            agent_name,
            b.workspace(jid),
            date,
        ),
{
}

/// An agent without files of its own introduces itself by name.
pub proof fn the_fallback_names_the_agent(agent_name: Seq<char>, ctx: WorkspaceView)
    requires
        ctx.identity is None,
        ctx.personality is None,
        ctx.instructions is None,
    ensures
        agent_part(agent_name, ctx) == fallback_prompt(agent_name),
{
}

/// An exchange is remembered: once both of its messages are stored, the
/// language model sees them last, word for word.
pub proof fn an_exchange_is_remembered(
    start: MemoryView,
    middle: MemoryView,
    end: MemoryView,
    jid: Seq<char>,
    body: Seq<char>,
    msg_id: Option<Seq<char>>,
    text: Seq<char>,
    out_id: Seq<char>,
    limit: nat,
)
    requires
        limit >= 2,
        body.len() > 0,
        text.len() > 0,
        !has_suffix(jid, "@muc"@),
        message_stored(start, middle, jid, "user"@, body, msg_id, Some(jid), None, None),
        message_stored(
            middle,
            end,
            jid,
            "assistant"@,
            text,
            Some(out_id),
            None,
            None,
            None,
        ),
    ensures
        ({
            let seen = end.recent(jid, limit);
            &&& seen.len() >= 2
            &&& seen[seen.len() - 2] == text_message("user"@, body)
            &&& seen[seen.len() - 1] == text_message("assistant"@, text)
        }),
{
    let (created, ts) = choose|created: Seq<char>, ts: Seq<char>|
        middle == start.with_user(
            jid,
            #[trigger] start.user(jid).with_message(
                jid,
                stored("user"@, body, msg_id, Some(jid), ts, None, None),
                created,
            ),
        );
    let (again, later) = choose|created: Seq<char>, ts: Seq<char>|
        end == middle.with_user(
            jid,
            #[trigger] middle.user(jid).with_message(
                jid,
                stored("assistant"@, text, Some(out_id), None, ts, None, None),
                created,
            ),
        );
    let asked = stored("user"@, body, msg_id, Some(jid), ts, None, None);
    let answered = stored("assistant"@, text, Some(out_id), None, later, None, None);
    plain_text_is_shown_unchanged(asked);
    plain_text_is_shown_unchanged(answered);
    history_ends_with_what_was_stored(start, jid, asked, created, limit);
    history_ends_with_what_was_stored(middle, jid, answered, again, limit);
}

/// What is said in a room is seen by the language model, with who said it: the
/// message that was stored last is the last that it sees.
pub proof fn the_model_sees_the_room(
    before: MemoryView,
    after: MemoryView,
    room: Seq<char>,
    nick: Seq<char>,
    body: Seq<char>,
    msg_id: Option<Seq<char>>,
    limit: nat,
)
    requires
        limit >= 1,
        body.len() > 0,
        message_stored(
            before,
            after,
            room,
            "user"@,
            body,
            msg_id,
            Some(nick + "@muc"@),
            None,
            None,
        ),
    ensures
        after.recent(room, limit).len() > 0,
        after.recent(room, limit).last() == text_message(
            "user"@,
            nick + "@muc"@ + ": "@ + body,
        ),
{
    let (created, ts) = choose|created: Seq<char>, ts: Seq<char>|
        after == before.with_user(
            room,
            #[trigger] before.user(room).with_message(
                room,
                stored("user"@, body, msg_id, Some(nick + "@muc"@), ts, None, None),
                created,
            ),
        );
    let said = stored("user"@, body, msg_id, Some(nick + "@muc"@), ts, None, None);
    room_text_is_shown_with_its_sender(said, nick);
    history_ends_with_what_was_stored(before, room, said, created, limit);
}

/// The language model sees the last twenty messages that are kept of the
/// conversation, or all where there are fewer, in their order, and then what is
/// new; it is asked for the JID whose memory this is.
pub proof fn the_model_sees_the_newest(
    r: InferenceRequest,
    memory: MemoryView,
    jid: Seq<char>,
    agent_name: Seq<char>,
    more: Seq<MessageView>,
    i: int,
)
    requires
        asks(r, memory, jid, agent_name, more),
        0 <= i < r.messages.deep_view().len(),
    ensures
        ({
            let all = memory.user(jid).messages();
            let seen = r.messages.deep_view();
            let old: int = if all.len() < 20 {
                all.len() as int
            } else {
                20
            };
            &&& seen.len() == old + more.len()
            &&& i < old ==> seen[i] == all[all.len() - old + i]
            &&& i >= old ==> seen[i] == more[i - old]
            &&& r.context.jid@ == jid
            &&& r.context.base_path@ == memory.base_path
        }),
{
}

/// The prompt says who the agent is, what it is like and what it is to do, in
/// this order; then what is known of the user and remembered, and last the
/// date. What is not there leaves no trace.
pub proof fn the_prompt_says_what_is_known(
    agent_name: Seq<char>,
    ctx: WorkspaceView,
    identity: Seq<char>,
    personality: Seq<char>,
    instructions: Seq<char>,
    profile: Seq<char>,
    memory: Seq<char>,
    date: Seq<char>,
)
    requires
        ctx.identity == Some(identity),
        ctx.personality == Some(personality),
        ctx.instructions == Some(instructions),
        ctx.user_profile == Some(profile),
        ctx.user_memory == Some(memory),
    ensures
        ({
            let who = trimmed(identity) + "\n\n"@ + trimmed(personality) + "\n\n"@ + trimmed(
                instructions,
            );
            let about = "\n\n## About this user\n"@ + trimmed(profile);
            let notes = "\n\n## Notes and memory\n"@ + trimmed(memory);
            let today = "\n\nCurrent date: "@ + date;
            let said = |c: WorkspaceView| system_prompt(agent_name, c, date);
            &&& said(ctx) == who + about + notes + today
            &&& said(WorkspaceView { user_profile: None, ..ctx }) == who + notes + today
            &&& said(WorkspaceView { user_memory: None, ..ctx }) == who + about + today
            &&& said(
                WorkspaceView { identity: None, user_profile: None, user_memory: None, ..ctx },
            ) == trimmed(personality) + "\n\n"@ + trimmed(instructions) + today
            &&& said(
                WorkspaceView { personality: None, user_profile: None, user_memory: None, ..ctx },
            ) == trimmed(identity) + "\n\n"@ + trimmed(instructions) + today
            &&& said(
                WorkspaceView { instructions: None, user_profile: None, user_memory: None, ..ctx },
            ) == trimmed(identity) + "\n\n"@ + trimmed(personality) + "\n\n"@ + today
        }),
{
    reveal_strlit("");
    let who = trimmed(identity) + "\n\n"@ + trimmed(personality) + "\n\n"@ + trimmed(instructions);
    let about = "\n\n## About this user\n"@ + trimmed(profile);
    let notes = "\n\n## Notes and memory\n"@ + trimmed(memory);
    let today = "\n\nCurrent date: "@ + date;
    let said = |c: WorkspaceView| system_prompt(agent_name, c, date);
    assert(said(ctx) =~= who + about + notes + today);
    assert(said(WorkspaceView { user_profile: None, ..ctx }) =~= who + notes + today);
    assert(said(WorkspaceView { user_memory: None, ..ctx }) =~= who + about + today);
    assert(said(WorkspaceView { identity: None, user_profile: None, user_memory: None, ..ctx })
        =~= trimmed(personality) + "\n\n"@ + trimmed(instructions) + today);
    assert(said(WorkspaceView { personality: None, user_profile: None, user_memory: None, ..ctx })
        =~= trimmed(identity) + "\n\n"@ + trimmed(instructions) + today);
    assert(said(WorkspaceView { instructions: None, user_profile: None, user_memory: None, ..ctx })
        =~= trimmed(identity) + "\n\n"@ + trimmed(personality) + "\n\n"@ + today);
}

/// An agent that says nothing of itself is introduced by its name.
pub proof fn agents_are_introduced_by_name(agent_name: Seq<char>, ctx: WorkspaceView, date: Seq<char>)
    requires
        ctx.identity is None && ctx.personality is None && ctx.instructions is None,
    ensures
        has_prefix(system_prompt(agent_name, ctx, date), "You are "@ + agent_name),
        has_suffix(system_prompt(agent_name, ctx, date), "\n\nCurrent date: "@ + date),
{
    let said = system_prompt(agent_name, ctx, date);
    let head = "You are "@ + agent_name;
    let tail = "\n\nCurrent date: "@ + date;
    assert(said.subrange(0, head.len() as int) =~= head);
    assert(said.subrange(said.len() - tail.len(), said.len() as int) =~= tail);
}

/// What someone says is kept under their JID, word for word, with its
/// identifier.
pub proof fn what_people_say_is_kept(jid: Seq<char>, body: Seq<char>, msg_id: Option<Seq<char>>)
    ensures
        ({
            let s = user_entry(jid, body, msg_id);
            &&& s.jid == jid && s.role == "user"@ && s.content == body && s.msg_id == msg_id
            &&& s.sender == Some(jid) && s.attachments is None && s.reaction is None
        }),
{
}

/// Memory is touched before an answer only where the conversation has gone
/// stale, and then only by archiving it: nobody else's is.
pub proof fn refreshing_touches_one_conversation(
    before: MemoryView,
    after: MemoryView,
    jid: Seq<char>,
    other: Seq<char>,
    mins: u64,
    idle: Duration,
)
    requires
        refreshed(before, after, jid, mins, idle),
        jid != other,
    ensures
        after.user(other) == before.user(other),
        after.global == before.global && after.base_path == before.base_path,
        idle.nanos <= mins * 60_000_000_000 || mins == 0 ==> after == before,
        mins > 0 && idle.nanos > mins * 60_000_000_000 && before.user(jid).history is Some
            ==> after.user(jid).messages().len() == 0,
{
}

/// The language model is always told the date, last of all.
pub proof fn the_model_is_told_the_date(
    r: InferenceRequest,
    memory: MemoryView,
    jid: Seq<char>,
    agent_name: Seq<char>,
    more: Seq<MessageView>,
)
    requires
        asks(r, memory, jid, agent_name, more),
    ensures
        exists|date: Seq<char>|
            is_long_date(date) && has_suffix(
                r.system_prompt@,
                #[trigger] ("\n\nCurrent date: "@ + date),
            ),
{
    let date = choose|date: Seq<char>|
        is_long_date(date) && r.system_prompt@ == #[trigger] system_prompt(
            agent_name,
            memory.workspace(jid),
            date,
        );
    let said = r.system_prompt@;
    let tail = "\n\nCurrent date: "@ + date;
    assert(said.subrange(said.len() - tail.len(), said.len() as int) =~= tail);
}

} // verus!
