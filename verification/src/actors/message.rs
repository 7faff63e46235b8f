//! What happens to a message: whether it is answered, by whom, and what is
//! stored and sent on the way.

use super::dead_letter::StoreView;
use super::mailbox::{
    lane_gave, lane_result, session_lane, session_lane_settings, LaneSettings, SendOutcome,
};
use super::memory_actor::MemoryRequest;
use super::mention::{can_strip, checked_strip_mention, is_mentioned, mentions, starts_with_at, starts_with_nick, stripped};
use super::user_error::{
    correlation_id_or, reference, safe_message, to_user_safe_message, Failure,
};
use crate::agent::entries::{copy_text, lend_text, Attachment, AttachmentView};
use crate::config::{room_search_finds_the_first, Config};
use crate::ids::{is_uuid_text, new_id};
use crate::text::{
    begins_with, is_blank, last_part, part_after, part_last, same, second_part, starts_with_char,
    texts_come_apart,
};
use crate::xmpp::{
    bare, bare_jid, chat_state, chat_state_command, text_command, text_to, ChatState, CommandView,
    IncomingMessage, MessageType, MessageView, OobData, OobView, XmppCommand,
};
use vstd::prelude::*;
use vstd::string::*;

verus! {

/// The answer to a command: a text, and commands to send before it.
#[derive(Debug)]
pub struct CommandReply {
    pub text: String,
    pub replay_commands: Vec<XmppCommand>,
}

/// The model of [`CommandReply`].
pub ghost struct CommandReplyView {
    pub text: Seq<char>,
    pub replay_commands: Seq<CommandView>,
}

impl DeepView for CommandReply {
    type V = CommandReplyView;

    open spec fn deep_view(&self) -> CommandReplyView {
        CommandReplyView { text: self.text@, replay_commands: self.replay_commands.deep_view() }
    }
}

/// An answer that is a text alone.
pub open spec fn text_reply(text: Seq<char>) -> CommandReplyView {
    CommandReplyView { text, replay_commands: Seq::empty() }
}

impl CommandReply {
    /// An answer that is a text alone.
    pub fn text_only(text: String) -> (r: Self)
        ensures
            r.text == text,
            r.replay_commands@ == Seq::<XmppCommand>::empty(),
            r.deep_view() == text_reply(text@),
    {
        let r = CommandReply { text, replay_commands: Vec::new() };
        assert(r.replay_commands.deep_view() =~= Seq::empty());
        r
    }
}

/// Something that is done for a message.
#[derive(Debug)]
pub enum MessageEffect {
    /// Writes to memory; where that fails, the rest goes on.
    Store(MemoryRequest),
    /// Sends to the transport.
    Send(XmppCommand),
}

/// The model of [`MessageEffect`].
pub ghost enum EffectView {
    Store(StoreView),
    Send(CommandView),
}

impl DeepView for MessageEffect {
    type V = EffectView;

    open spec fn deep_view(&self) -> EffectView {
        match self {
            MessageEffect::Store(r) => EffectView::Store(r.deep_view()),
            MessageEffect::Send(c) => EffectView::Send(c.deep_view()),
        }
    }
}

/// Whom the answer to a message is asked of.
#[derive(Debug)]
pub enum Ask {
    /// Nobody: the message is not answered.
    Nobody,
    /// The commands, with the sender's full JID.
    Command { from: String, body: String },
    /// The language model, for a one-to-one chat.
    Chat { from: String, body: String, msg_id: Option<String> },
    /// The language model, for a room.
    Room { room: String, body: String },
    /// The attachment pipeline, with the whole message.
    Attachments,
    /// Nobody, as the mention in the message cannot be cut off.
    Unreadable,
}

/// The model of [`Ask`].
pub ghost enum AskView {
    Nobody,
    Command { from: Seq<char>, body: Seq<char> },
    Chat { from: Seq<char>, body: Seq<char>, msg_id: Option<Seq<char>> },
    Room { room: Seq<char>, body: Seq<char> },
    Attachments,
    Unreadable,
}

impl DeepView for Ask {
    type V = AskView;

    open spec fn deep_view(&self) -> AskView {
        match self {
            Ask::Nobody => AskView::Nobody,
            Ask::Command { from, body } => AskView::Command { from: from@, body: body@ },
            Ask::Chat { from, body, msg_id } => AskView::Chat {
                from: from@,
                body: body@,
                msg_id: msg_id.deep_view(),
            },
            Ask::Room { room, body } => AskView::Room { room: room@, body: body@ },
            Ask::Attachments => AskView::Attachments,
            Ask::Unreadable => AskView::Unreadable,
        }
    }
}

impl Ask {
    /// Whether the commands are asked.
    pub fn is_command(&self) -> (r: bool)
        ensures
            r == (self.deep_view() is Command),
    {
        match self {
            Ask::Command { .. } => true,
            _ => false,
        }
    }
}

/// What is done at once for a message, and whom its answer is asked of.
#[derive(Debug)]
pub struct MessagePlan {
    pub effects: Vec<MessageEffect>,
    pub ask: Ask,
}

/// The model of [`MessagePlan`].
pub ghost struct PlanView {
    pub effects: Seq<EffectView>,
    pub ask: AskView,
}

impl DeepView for MessagePlan {
    type V = PlanView;

    open spec fn deep_view(&self) -> PlanView {
        PlanView { effects: self.effects.deep_view(), ask: self.ask.deep_view() }
    }
}

// ---- the plan ----------------------------------------------------------

/// The nick of a room message's sender: what stands behind the first slash, up
/// to the next one.
pub open spec fn nick_of(from: Seq<char>) -> Seq<char> {
    match second_part(from, '/') {
        Some(n) => n,
        None => Seq::empty(),
    }
}

/// The name of a linked file: what stands behind the last slash of its URL.
pub open spec fn linked_name(url: Seq<char>) -> Seq<char> {
    if last_part(url, '/').len() == 0 {
        "file"@
    } else {
        last_part(url, '/')
    }
}

/// What is kept of the files that a room message links to.
pub open spec fn linked_files(oob: Seq<OobView>) -> Option<Seq<AttachmentView>> {
    if oob.len() == 0 {
        None
    } else {
        Some(
            oob.map_values(
                |o: OobView|
                    AttachmentView {
                        filename: linked_name(o.url),
                        mime_type: "unknown"@,
                        size: "unknown"@,
                    },
            ),
        )
    }
}

/// How a room message is stored, whether it is answered or not.
pub open spec fn room_entry(msg: MessageView) -> StoreView {
    StoreView {
        full: true,
        jid: bare(msg.from),
        role: "user"@,
        content: msg.body,
        msg_id: msg.id,
        sender: Some(nick_of(msg.from) + "@muc"@),
        attachments: linked_files(msg.oob),
        reaction: None,
    }
}

/// The plan for a message of a room, in which the agent has a nick.
pub open spec fn room_plan(msg: MessageView, nick: Seq<char>) -> PlanView {
    let stored = EffectView::Store(room_entry(msg));
    let body = stripped(nick, msg.body);
    if nick_of(msg.from) == nick {
        PlanView { effects: Seq::empty(), ask: AskView::Nobody }
    } else if !mentions(nick, msg.body) {
        PlanView { effects: seq![stored], ask: AskView::Nobody }
    } else if !can_strip(nick, msg.body) {
        PlanView { effects: seq![stored], ask: AskView::Unreadable }
    } else if begins_with(body, '/') {
        PlanView { effects: seq![stored], ask: AskView::Command { from: msg.from, body } }
    } else {
        PlanView {
            effects: seq![
                stored,
                EffectView::Send(chat_state(bare(msg.from), ChatState::Composing, true)),
            ],
            ask: AskView::Room { room: bare(msg.from), body },
        }
    }
}

/// The plan for a message of a one-to-one chat with someone who may talk to
/// the agent.
pub open spec fn chat_plan(msg: MessageView) -> PlanView {
    let composing = EffectView::Send(chat_state(msg.from, ChatState::Composing, false));
    if begins_with(msg.body, '/') {
        PlanView {
            effects: Seq::empty(),
            ask: AskView::Command { from: msg.from, body: msg.body },
        }
    } else if msg.oob.len() > 0 {
        PlanView { effects: seq![composing], ask: AskView::Attachments }
    } else {
        PlanView {
            effects: seq![composing],
            ask: AskView::Chat { from: msg.from, body: msg.body, msg_id: msg.id },
        }
    }
}

/// The plan for any message. A room that is not configured, a domain or a JID
/// that is not allowed: nothing is done.
pub open spec fn plan(msg: MessageView, config: Config) -> PlanView {
    let nothing = PlanView { effects: Seq::empty(), ask: AskView::Nobody };
    if msg.message_type == MessageType::GroupChat {
        match config.room_index(bare(msg.from)) {
            Some(i) => room_plan(msg, config.rooms@[i].nick@),
            None => nothing,
        }
    } else if !config.allows_domain(msg.from) || !config.allows(msg.from) {
        nothing
    } else {
        chat_plan(msg)
    }
}

/// What is kept of the files that a room message links to.
pub fn build_oob_attachments(oob_list: &Vec<OobData>) -> (r: Option<Vec<Attachment>>)
    ensures
        r.deep_view() == linked_files(oob_list.deep_view()),
{
    if oob_list.len() == 0 {
        return None;
    }
    let ghost all = oob_list.deep_view();
    let ghost wanted = linked_files(all)->0;
    let mut out: Vec<Attachment> = Vec::new();
    let mut i: usize = 0;
    while i < oob_list.len()
        invariant
            all == oob_list.deep_view(),
            all.len() > 0,
            wanted == linked_files(all)->0,
            0 <= i <= oob_list@.len(),
            out.deep_view() == wanted.take(i as int),
        decreases oob_list@.len() - i,
    {
        let ghost so_far = out.deep_view();
        assert(all[i as int].url == oob_list@[i as int].url@);
        let last = part_last(oob_list[i].url.as_str(), '/');
        let filename = if last.as_str().is_empty() {
            "file".to_owned()
        } else {
            last
        };
        out.push(
            Attachment { filename, mime_type: "unknown".to_owned(), size: "unknown".to_owned() },
        );
        assert(out.deep_view() =~= so_far.push(wanted[i as int]));
        assert(out.deep_view() =~= wanted.take(i + 1));
        i = i + 1;
    }
    assert(wanted.take(wanted.len() as int) == wanted);
    Some(out)
}

/// Decides on messages.
#[derive(Debug, Clone, Copy)]
pub struct MessageActor;

impl MessageActor {
    /// The decider.
    pub fn new() -> (r: Self)
        ensures
            r == MessageActor,
    {
        MessageActor
    }

    fn plan_room(&self, msg: &IncomingMessage, nick: &str) -> (r: MessagePlan)
        ensures
            r.deep_view() == room_plan(msg.deep_view(), nick@),
    {
        let room = bare_jid(msg.from.as_str());
        let sender_nick = match part_after(msg.from.as_str(), '/') {
            Some(n) => n,
            None => String::new(),
        };
        let mut effects: Vec<MessageEffect> = Vec::new();
        assert(effects.deep_view() =~= Seq::empty());
        if same(sender_nick.as_str(), nick) {
            return MessagePlan { effects, ask: Ask::Nobody };
        }
        let mut label = sender_nick;
        label.append("@muc");
        effects.push(
            MessageEffect::Store(
                MemoryRequest::StoreMessageFull {
                    jid: room.clone(),
                    role: "user".to_owned(),
                    content: msg.body.clone(),
                    msg_id: copy_text(&msg.id),
                    sender: Some(label),
                    attachments: build_oob_attachments(&msg.oob),
                    reaction: None,
                },
            ),
        );
        let ghost stored = EffectView::Store(room_entry(msg.deep_view()));
        assert(effects@[0].deep_view() == stored);
        assert(effects.deep_view() =~= seq![stored]);
        if !is_mentioned(nick, msg.body.as_str()) {
            return MessagePlan { effects, ask: Ask::Nobody };
        }
        match checked_strip_mention(nick, msg.body.as_str()) {
            None => MessagePlan { effects, ask: Ask::Unreadable },
            Some(body) => if starts_with_char(body.as_str(), '/') {
                MessagePlan { effects, ask: Ask::Command { from: msg.from.clone(), body } }
            } else {
                effects.push(
                    MessageEffect::Send(
                        chat_state_command(room.as_str(), ChatState::Composing, true),
                    ),
                );
                assert(effects.deep_view() =~= seq![
                    stored,
                    EffectView::Send(
                        chat_state(bare(msg.deep_view().from), ChatState::Composing, true),
                    ),
                ]);
                MessagePlan { effects, ask: Ask::Room { room, body } }
            },
        }
    }

    fn plan_chat(&self, msg: &IncomingMessage) -> (r: MessagePlan)
        ensures
            r.deep_view() == chat_plan(msg.deep_view()),
    {
        let mut effects: Vec<MessageEffect> = Vec::new();
        assert(effects.deep_view() =~= Seq::empty());
        if starts_with_char(msg.body.as_str(), '/') {
            return MessagePlan {
                effects,
                ask: Ask::Command { from: msg.from.clone(), body: msg.body.clone() },
            };
        }
        effects.push(
            MessageEffect::Send(
                chat_state_command(msg.from.as_str(), ChatState::Composing, false),
            ),
        );
        assert(effects.deep_view() =~= seq![
            EffectView::Send(chat_state(msg.deep_view().from, ChatState::Composing, false)),
        ]);
        assert(msg.deep_view().oob.len() == msg.oob@.len());
        if msg.oob.len() > 0 {
            MessagePlan { effects, ask: Ask::Attachments }
        } else {
            MessagePlan {
                effects,
                ask: Ask::Chat {
                    from: msg.from.clone(),
                    body: msg.body.clone(),
                    msg_id: copy_text(&msg.id),
                },
            }
        }
    }

    /// What is done at once for a message, and whom its answer is asked of.
    pub fn handle(&self, msg: &IncomingMessage, config: &Config) -> (r: MessagePlan)
        ensures
            r.deep_view() == plan(msg.deep_view(), *config),
    {
        let nothing: Vec<MessageEffect> = Vec::new();
        assert(nothing.deep_view() =~= Seq::empty());
        if msg.message_type == MessageType::GroupChat {
            let room = bare_jid(msg.from.as_str());
            match config.find_room(room.as_str()) {
                Some(rc) => self.plan_room(msg, rc.nick.as_str()),
                None => MessagePlan { effects: nothing, ask: Ask::Nobody },
            }
        } else if !config.is_domain_allowed(msg.from.as_str()) {
            MessagePlan { effects: nothing, ask: Ask::Nobody }
        } else if !config.is_allowed(msg.from.as_str()) {
            MessagePlan { effects: nothing, ask: Ask::Nobody }
        } else {
            self.plan_chat(msg)
        }
    }
}

// ---- the answer --------------------------------------------------------

/// The model of an answer, or of the failure to get one.
pub ghost enum ReplyView {
    Said { text: Seq<char>, commands: Seq<CommandView> },
    Failed(Seq<Seq<char>>),
}

/// The model of an answer, or of the failure to get one.
pub open spec fn reply_view(reply: Result<CommandReply, Failure>) -> ReplyView {
    match reply {
        Ok(r) => ReplyView::Said { text: r.text@, commands: r.replay_commands.deep_view() },
        Err(e) => ReplyView::Failed(e.deep_view()),
    }
}

/// The address that an answer goes to: the room, or the sender with its
/// resource.
pub open spec fn reply_to(msg: MessageView) -> Seq<char> {
    if msg.message_type == MessageType::GroupChat {
        bare(msg.from)
    } else {
        msg.from
    }
}

/// How an answer is stored.
pub open spec fn answer_entry(jid: Seq<char>, text: Seq<char>, id: Seq<char>) -> StoreView {
    StoreView {
        full: false,
        jid,
        role: "assistant"@,
        content: text,
        msg_id: Some(id),
        sender: None,
        attachments: None,
        reaction: None,
    }
}

/// The commands as effects.
pub open spec fn sends(commands: Seq<CommandView>) -> Seq<EffectView> {
    commands.map_values(|c: CommandView| EffectView::Send(c))
}

/// What is done when the answer to a message is there. Commands to send again
/// come first. In a room the answer is stored, then sent under the same fresh
/// identifier; in a chat it is sent, and the answer to a command has no
/// identifier. A failure is told in a sentence that is safe to show, after the
/// end of composing where that had been announced; in a room it always is.
pub open spec fn answered(
    msg: MessageView,
    to_command: bool,
    reply: ReplyView,
    fresh: Seq<char>,
) -> Seq<EffectView> {
    let in_room = msg.message_type == MessageType::GroupChat;
    let to = reply_to(msg);
    match reply {
        ReplyView::Said { text, commands } => sends(commands) + if in_room {
            seq![
                EffectView::Store(answer_entry(to, text, fresh)),
                EffectView::Send(text_to(to, text, Some(fresh), true)),
            ]
        } else {
            seq![
                EffectView::Send(
                    text_to(
                        to,
                        text,
                        if to_command {
                            None
                        } else {
                            Some(fresh)
                        },
                        false,
                    ),
                ),
            ]
        },
        ReplyView::Failed(chain) => {
            let told = EffectView::Send(
                text_to(to, safe_message(chain, reference(msg.id, fresh)), None, in_room),
            );
            if to_command && !in_room {
                seq![told]
            } else {
                seq![EffectView::Send(chat_state(to, ChatState::Paused, in_room)), told]
            }
        },
    }
}

/// What is done when the attachment pipeline has taken a message, or not.
pub open spec fn attachments_answered(
    msg: MessageView,
    failure: Option<Seq<Seq<char>>>,
    fresh: Seq<char>,
) -> Seq<EffectView> {
    match failure {
        None => Seq::empty(),
        Some(chain) => seq![
            EffectView::Send(chat_state(msg.from, ChatState::Paused, false)),
            EffectView::Send(
                text_to(msg.from, safe_message(chain, reference(msg.id, fresh)), None, false),
            ),
        ],
    }
}

impl MessageActor {
    /// What is done when the answer to a message is there, given a fresh
    /// identifier.
    pub fn on_reply(
        &self,
        msg: &IncomingMessage,
        to_command: bool,
        reply: Result<CommandReply, Failure>,
        fresh: String,
    ) -> (r: Vec<MessageEffect>)
        ensures
            r.deep_view() == answered(msg.deep_view(), to_command, reply_view(reply), fresh@),
    {
        let ghost said = reply_view(reply);
        let ghost id = fresh@;
        let in_room = msg.message_type == MessageType::GroupChat;
        let to = if in_room {
            bare_jid(msg.from.as_str())
        } else {
            msg.from.clone()
        };
        assert(to@ == reply_to(msg.deep_view()));
        match reply {
            Ok(answer) => {
                let mut effects: Vec<MessageEffect> = Vec::new();
                let ghost commands = answer.replay_commands.deep_view();
                let mut rest = answer.replay_commands;
                assert(effects.deep_view() =~= sends(commands.take(0)));
                assert(rest.deep_view() =~= commands.skip(0));
                while rest.len() > 0
                    invariant
                        rest@.len() <= commands.len(),
                        rest.deep_view() == commands.skip(commands.len() - rest@.len()),
                        effects.deep_view() == sends(commands.take(commands.len() - rest@.len())),
                    decreases rest@.len(),
                {
                    let ghost k = commands.len() - rest@.len();
                    let ghost so_far = effects.deep_view();
                    let ghost left = rest.deep_view();
                    assert(left[0] == commands[k]);
                    let command = rest.remove(0);
                    assert(command.deep_view() == commands[k]);
                    effects.push(MessageEffect::Send(command));
                    assert(effects.deep_view() =~= so_far.push(EffectView::Send(commands[k])));
                    assert(effects.deep_view() =~= sends(commands.take(k + 1)));
                    assert(rest.deep_view() =~= left.remove(0));
                    assert(left.remove(0) =~= commands.skip(k + 1));
                }
                assert(commands.take(commands.len() as int) == commands);
                let ghost head = effects.deep_view();
                let text = answer.text;
                if in_room {
                    effects.push(
                        MessageEffect::Store(
                            MemoryRequest::StoreMessageStructured {
                                jid: to.clone(),
                                role: "assistant".to_owned(),
                                content: text.clone(),
                                msg_id: Some(fresh.clone()),
                                sender: None,
                            },
                        ),
                    );
                    let ghost stored = EffectView::Store(answer_entry(to@, text@, id));
                    assert(effects.deep_view() =~= head.push(stored));
                    effects.push(
                        MessageEffect::Send(text_command(to.as_str(), text, Some(fresh), true)),
                    );
                    assert(effects.deep_view() =~= answered(msg.deep_view(), to_command, said, id));
                } else {
                    let out_id = if to_command {
                        None
                    } else {
                        Some(fresh)
                    };
                    effects.push(
                        MessageEffect::Send(text_command(to.as_str(), text, out_id, false)),
                    );
                    assert(effects.deep_view() =~= answered(msg.deep_view(), to_command, said, id));
                }
                effects
            },
            Err(failure) => {
                let correlation_id = correlation_id_or(lend_text(&msg.id), fresh);
                let mut effects: Vec<MessageEffect> = Vec::new();
                if in_room || !to_command {
                    effects.push(
                        MessageEffect::Send(
                            chat_state_command(to.as_str(), ChatState::Paused, in_room),
                        ),
                    );
                }
                let body = to_user_safe_message(&failure, correlation_id.as_str());
                effects.push(MessageEffect::Send(text_command(to.as_str(), body, None, in_room)));
                assert(effects.deep_view() =~= answered(msg.deep_view(), to_command, said, id));
                effects
            },
        }
    }

    /// What is done when the answer to a message is there.
    pub fn finish(
        &self,
        msg: &IncomingMessage,
        to_command: bool,
        reply: Result<CommandReply, Failure>,
    ) -> (r: Vec<MessageEffect>)
        ensures
            exists|fresh: Seq<char>|
                is_uuid_text(fresh) && r.deep_view() == #[trigger] answered(
                    msg.deep_view(),
                    to_command,
                    reply_view(reply),
                    fresh,
                ),
    {
        let fresh = new_id();
        let ghost id = fresh@;
        let r = self.on_reply(msg, to_command, reply, fresh);
        assert(is_uuid_text(id));
        r
    }

    /// What is done when the attachment pipeline has taken a message, or not,
    /// given a fresh identifier.
    pub fn on_attachments(
        &self,
        msg: &IncomingMessage,
        failure: Option<Failure>,
        fresh: String,
    ) -> (r: Vec<MessageEffect>)
        ensures
            r.deep_view() == attachments_answered(msg.deep_view(), failure.deep_view(), fresh@),
    {
        let ghost id = fresh@;
        let ghost failed = failure.deep_view();
        let mut effects: Vec<MessageEffect> = Vec::new();
        if let Some(e) = failure {
            let correlation_id = correlation_id_or(lend_text(&msg.id), fresh);
            effects.push(
                MessageEffect::Send(
                    chat_state_command(msg.from.as_str(), ChatState::Paused, false),
                ),
            );
            let body = to_user_safe_message(&e, correlation_id.as_str());
            effects.push(MessageEffect::Send(text_command(msg.from.as_str(), body, None, false)));
        }
        assert(effects.deep_view() =~= attachments_answered(msg.deep_view(), failed, id));
        effects
    }

    /// What is done when the attachment pipeline has taken a message, or not.
    pub fn finish_attachments(&self, msg: &IncomingMessage, failure: Option<Failure>) -> (r: Vec<
        MessageEffect,
    >)
        ensures
            exists|fresh: Seq<char>|
                is_uuid_text(fresh) && r.deep_view() == #[trigger] attachments_answered(
                    msg.deep_view(),
                    failure.deep_view(),
                    fresh,
                ),
    {
        let fresh = new_id();
        let ghost id = fresh@;
        let r = self.on_attachments(msg, failure, fresh);
        assert(is_uuid_text(id));
        r
    }
}

/// The lane of a session that handles messages.
#[derive(Debug, Clone, Copy)]
pub struct SessionMessageActor {
    pub lane: LaneSettings,
}

impl SessionMessageActor {
    /// The lane.
    pub fn new(config: &Config) -> (r: Self)
        ensures
            session_lane(*config, r.lane),
    {
        SessionMessageActor { lane: session_lane_settings(config) }
    }

    /// What the session gets of the lane.
    pub fn handle(outcome: SendOutcome, reply: Option<Result<(), Failure>>) -> (r: Result<
        (),
        Failure,
    >)
        ensures
            lane_gave("session_message"@, outcome, reply, r),
    {
        lane_result("session_message", outcome, reply)
    }
}

// ---- laws --------------------------------------------------------------

/// A one-to-one message from someone who may not talk to the agent leaves no
/// trace: nothing is stored, sent or asked.
pub proof fn strangers_are_ignored(msg: MessageView, config: Config)
    requires
        msg.message_type == MessageType::Chat,
        !config.allows(msg.from) || !config.allows_domain(msg.from),
    ensures
        plan(msg, config) == (PlanView { effects: Seq::empty(), ask: AskView::Nobody }),
{
}

/// A message of a room that is not configured leaves no trace.
pub proof fn unknown_rooms_are_ignored(msg: MessageView, config: Config)
    requires
        msg.message_type == MessageType::GroupChat,
        config.room_index(bare(msg.from)) is None,
    ensures
        plan(msg, config) == (PlanView { effects: Seq::empty(), ask: AskView::Nobody }),
{
}

/// What the agent itself said in a room is neither stored again nor answered.
pub proof fn own_messages_are_ignored(msg: MessageView, config: Config)
    requires
        msg.message_type == MessageType::GroupChat,
        config.room_index(bare(msg.from)) is Some,
        nick_of(msg.from) == config.rooms@[config.room_index(bare(msg.from))->0].nick@,
    ensures
        plan(msg, config) == (PlanView { effects: Seq::empty(), ask: AskView::Nobody }),
{
}

/// Every message of a configured room by someone else is stored first, whether
/// it is answered or not.
pub proof fn room_messages_are_stored(msg: MessageView, config: Config)
    requires
        msg.message_type == MessageType::GroupChat,
        config.room_index(bare(msg.from)) is Some,
        nick_of(msg.from) != config.rooms@[config.room_index(bare(msg.from))->0].nick@,
    ensures
        plan(msg, config).effects.len() > 0,
        plan(msg, config).effects[0] == EffectView::Store(room_entry(msg)),
{
}

/// A room message that does not mention the agent is not answered: nothing is
/// sent and nobody is asked.
pub proof fn only_mentions_are_answered(msg: MessageView, config: Config)
    requires
        msg.message_type == MessageType::GroupChat,
        config.room_index(bare(msg.from)) is Some,
        !mentions(config.rooms@[config.room_index(bare(msg.from))->0].nick@, msg.body),
    ensures
        plan(msg, config).ask == AskView::Nobody,
        forall|i: int|
            0 <= i < plan(msg, config).effects.len() ==> #[trigger] plan(msg, config).effects[i]
                is Store,
{
}

/// A message that starts with a slash never reaches the language model: it is
/// a command or is left alone, and outside rooms nothing of it is stored. In a
/// room this is said of messages that do not start with a mention, which only
/// a nick that starts with a slash itself could make of them.
pub proof fn commands_never_reach_the_model(msg: MessageView, config: Config)
    requires
        begins_with(msg.body, '/'),
        msg.message_type == MessageType::GroupChat ==> match config.room_index(bare(msg.from)) {
            Some(i) => !starts_with_at(config.rooms@[i].nick@, msg.body) && !starts_with_nick(
                config.rooms@[i].nick@,
                msg.body,
            ),
            None => true,
        },
    ensures
        plan(msg, config).ask is Command || plan(msg, config).ask is Nobody,
        plan(msg, config).ask is Command ==> plan(msg, config).ask->Command_body == msg.body,
        msg.message_type == MessageType::Chat ==> plan(msg, config).effects.len() == 0,
{
}

/// No text that starts with a slash is handed to the language model, whatever
/// it was cut from.
pub proof fn the_model_gets_no_slash(msg: MessageView, config: Config)
    ensures
        match plan(msg, config).ask {
            AskView::Chat { body, .. } => !begins_with(body, '/'),
            AskView::Room { body, .. } => !begins_with(body, '/'),
            AskView::Attachments => !begins_with(msg.body, '/'),
            _ => true,
        },
{
}

/// The address of a command.
pub open spec fn addressee(command: CommandView) -> Option<Seq<char>> {
    match command {
        CommandView::SendMessage { to, .. } => Some(to),
        CommandView::SendChatState { to, .. } => Some(to),
        CommandView::SendMucMessage { to, .. } => Some(to),
        CommandView::JoinMuc { .. } => None,
        CommandView::SendRaw(_) => None,
        CommandView::Ping => None,
    }
}

/// Apart from commands that are sent again, whatever is sent for an answer
/// goes to whom the message came from.
pub proof fn answers_go_back(
    msg: MessageView,
    to_command: bool,
    reply: ReplyView,
    fresh: Seq<char>,
)
    ensures
        ({
            let effects = answered(msg, to_command, reply, fresh);
            let skipped = match reply {
                ReplyView::Said { text, commands } => commands.len(),
                ReplyView::Failed(_) => 0,
            };
            forall|i: int|
                skipped <= i < effects.len() ==> (#[trigger] effects[i] matches EffectView::Send(c)
                    ==> addressee(c) == Some(reply_to(msg)))
        }),
{
}

/// The answer in a room is stored under the identifier that it is sent with.
pub proof fn room_answers_are_stored_as_sent(
    msg: MessageView,
    to_command: bool,
    text: Seq<char>,
    commands: Seq<CommandView>,
    fresh: Seq<char>,
)
    requires
        msg.message_type == MessageType::GroupChat,
    ensures
        ({
            let effects = answered(msg, to_command, ReplyView::Said { text, commands }, fresh);
            let n = commands.len() as int;
            &&& effects.len() == n + 2
            &&& effects[n] == EffectView::Store(answer_entry(bare(msg.from), text, fresh))
            &&& effects[n + 1] == EffectView::Send(
                CommandView::SendMucMessage { to: bare(msg.from), body: text, id: Some(fresh) },
            )
        }),
{
}

/// Commands that are sent again go out before the answer.
pub proof fn replays_go_first(
    msg: MessageView,
    to_command: bool,
    text: Seq<char>,
    commands: Seq<CommandView>,
    fresh: Seq<char>,
    i: int,
)
    requires
        0 <= i < commands.len(),
    ensures
        answered(msg, to_command, ReplyView::Said { text, commands }, fresh)[i]
            == EffectView::Send(commands[i]),
{
}

/// In a chat, the answer to a planned command is sent without an identifier,
/// and that of the language model under a fresh one. A command that failed
/// ends no composing, as none had been announced.
pub proof fn command_answers_have_no_identifier(
    msg: MessageView,
    config: Config,
    text: Seq<char>,
    commands: Seq<CommandView>,
    chain: Seq<Seq<char>>,
    fresh: Seq<char>,
)
    requires
        msg.message_type == MessageType::Chat,
        plan(msg, config).ask is Command || plan(msg, config).ask is Chat,
    ensures
        ({
            let to_command = plan(msg, config).ask is Command;
            let said = answered(msg, to_command, ReplyView::Said { text, commands }, fresh);
            let failed = answered(msg, to_command, ReplyView::Failed(chain), fresh);
            &&& said.len() == commands.len() + 1
            &&& said.last() == EffectView::Send(
                CommandView::SendMessage {
                    to: msg.from,
                    body: text,
                    id: if to_command {
                        None
                    } else {
                        Some(fresh)
                    },
                },
            )
            &&& to_command ==> plan(msg, config).effects.len() == 0 && failed == seq![
                EffectView::Send(
                    CommandView::SendMessage {
                        to: msg.from,
                        body: safe_message(chain, reference(msg.id, fresh)),
                        id: None,
                    },
                ),
            ]
        }),
{
}

/// A one-to-one message without files, from someone who may talk to the agent,
/// is handed to the language model as it was said, with the sender's full JID
/// and the message's identifier, once the sender has been told that an answer
/// is being written. Nothing else is done for it.
pub proof fn chats_reach_the_model(msg: MessageView, config: Config)
    requires
        msg.message_type == MessageType::Chat,
        config.allows(msg.from) && config.allows_domain(msg.from),
        msg.body.len() == 0 || msg.body[0] != '/',
        msg.oob.len() == 0,
    ensures
        match plan(msg, config).ask {
            AskView::Chat { from, body, msg_id } => from == msg.from && body == msg.body && msg_id
                == msg.id,
            _ => false,
        },
        plan(msg, config).effects.len() == 1,
        plan(msg, config).effects[0] == EffectView::Send(
            CommandView::SendChatState {
                to: msg.from,
                state: ChatState::Composing,
                msg_type: "chat"@,
            },
        ),
{
}

/// A one-to-one message with files goes to the attachments, and one that starts
/// with a slash, with files or without, to the commands, word for word and with
/// the sender's full JID. Only the former is announced.
pub proof fn files_and_commands_are_told_apart(msg: MessageView, config: Config)
    requires
        msg.message_type == MessageType::Chat,
        config.allows(msg.from) && config.allows_domain(msg.from),
    ensures
        msg.body.len() > 0 && msg.body[0] == '/' ==> {
            &&& plan(msg, config).ask == AskView::Command { from: msg.from, body: msg.body }
            &&& plan(msg, config).effects.len() == 0
        },
        msg.oob.len() > 0 && (msg.body.len() == 0 || msg.body[0] != '/') ==> {
            &&& plan(msg, config).ask == AskView::Attachments
            &&& plan(msg, config).effects == seq![
                EffectView::Send(
                    CommandView::SendChatState {
                        to: msg.from,
                        state: ChatState::Composing,
                        msg_type: "chat"@,
                    },
                ),
            ]
        },
{
}

/// What someone else says in a configured room is kept under the room, word
/// for word, with its identifier, under the speaker's nick, and with one entry
/// for each file it links to.
pub proof fn room_talk_is_kept_as_said(
    msg: MessageView,
    config: Config,
    room: Seq<char>,
    speaker: Seq<char>,
    i: int,
)
    requires
        msg.message_type == MessageType::GroupChat,
        msg.from == room + seq!['/'] + speaker,
        !room.contains('/') && !speaker.contains('/'),
        0 <= i < config.rooms@.len(),
        config.rooms@[i].jid@ == room,
        forall|j: int| 0 <= j < i ==> (#[trigger] config.rooms@[j]).jid@ != room,
        speaker != config.rooms@[i].nick@,
    ensures
        plan(msg, config).effects.len() > 0,
        match plan(msg, config).effects[0] {
            EffectView::Store(s) => {
                &&& s.full
                &&& s.jid == room
                &&& s.role == "user"@
                &&& s.content == msg.body
                &&& s.msg_id == msg.id
                &&& s.sender == Some(speaker + "@muc"@)
                &&& s.reaction is None
                &&& msg.oob.len() == 0 ==> s.attachments is None
                &&& msg.oob.len() > 0 ==> {
                    &&& s.attachments is Some
                    &&& s.attachments->0.len() == msg.oob.len()
                }
            },
            EffectView::Send(_) => false,
        },
{
    texts_come_apart(room, '/', speaker);
    room_search_finds_the_first(config.rooms@, room, 0);
}

/// A file that a room message links to is kept under the last part of its URL.
pub proof fn linked_files_are_named(
    oob: Seq<OobView>,
    i: int,
    folder: Seq<char>,
    name: Seq<char>,
)
    requires
        0 <= i < oob.len(),
        oob[i].url == folder + seq!['/'] + name,
        !name.contains('/'),
    ensures
        linked_files(oob) is Some,
        linked_files(oob)->0[i] == (AttachmentView {
            filename: if name.len() > 0 {
                name
            } else {
                "file"@
            },
            mime_type: "unknown"@,
            size: "unknown"@,
        }),
{
    texts_come_apart(folder, '/', name);
}

/// A room message that speaks to the agent is answered for the room: what is
/// left without the mention goes to the language model once the room has been
/// told, or to the commands, with the speaker's full JID, where it starts with
/// a slash.
pub proof fn room_mentions_are_answered(
    msg: MessageView,
    config: Config,
    room: Seq<char>,
    speaker: Seq<char>,
    i: int,
)
    requires
        msg.message_type == MessageType::GroupChat,
        msg.from == room + seq!['/'] + speaker,
        !room.contains('/') && !speaker.contains('/'),
        0 <= i < config.rooms@.len(),
        config.rooms@[i].jid@ == room,
        forall|j: int| 0 <= j < i ==> (#[trigger] config.rooms@[j]).jid@ != room,
        speaker != config.rooms@[i].nick@,
        mentions(config.rooms@[i].nick@, msg.body) && can_strip(config.rooms@[i].nick@, msg.body),
    ensures
        ({
            let said = stripped(config.rooms@[i].nick@, msg.body);
            let p = plan(msg, config);
            if said.len() > 0 && said[0] == '/' {
                p.ask == (AskView::Command { from: msg.from, body: said }) && p.effects.len() == 1
            } else {
                &&& p.ask == AskView::Room { room, body: said }
                &&& p.effects.len() == 2
                &&& p.effects[1] == EffectView::Send(
                    CommandView::SendChatState {
                        to: room,
                        state: ChatState::Composing,
                        msg_type: "groupchat"@,
                    },
                )
            }
        }),
{
    texts_come_apart(room, '/', speaker);
    room_search_finds_the_first(config.rooms@, room, 0);
}

/// An answer in a room is kept as what the assistant said there, word for word
/// and under the identifier that it is sent with.
pub proof fn room_answers_are_kept(
    msg: MessageView,
    to_command: bool,
    text: Seq<char>,
    fresh: Seq<char>,
    room: Seq<char>,
    speaker: Seq<char>,
)
    requires
        msg.message_type == MessageType::GroupChat,
        msg.from == room + seq!['/'] + speaker,
        !room.contains('/'),
    ensures
        ({
            let said = ReplyView::Said { text, commands: Seq::empty() };
            match answered(msg, to_command, said, fresh)[0] {
                EffectView::Store(s) => s.jid == room && s.role == "assistant"@ && s.content == text
                    && s.msg_id == Some(fresh) && s.sender is None && s.attachments is None
                    && s.reaction is None,
                EffectView::Send(_) => false,
            }
        }),
{
    texts_come_apart(room, '/', speaker);
}

/// A failure is told to whom the message came from in a sentence that is safe
/// to show, with the message's own identifier as the reference where it has
/// one. Wherever an answer had been announced, the announcement is taken back
/// first, and nothing is stored.
pub proof fn failures_are_told(
    msg: MessageView,
    chain: Seq<Seq<char>>,
    fresh: Seq<char>,
    id: Seq<char>,
    to_command: bool,
)
    requires
        msg.id == Some(id),
        !is_blank(id),
    ensures
        ({
            let text = safe_message(chain, id);
            let told = answered(msg, to_command, ReplyView::Failed(chain), fresh);
            let files = attachments_answered(msg, Some(chain), fresh);
            &&& msg.message_type == MessageType::GroupChat ==> told == seq![
                EffectView::Send(
                    CommandView::SendChatState {
                        to: bare(msg.from),
                        state: ChatState::Paused,
                        msg_type: "groupchat"@,
                    },
                ),
                EffectView::Send(
                    CommandView::SendMucMessage { to: bare(msg.from), body: text, id: None },
                ),
            ]
            &&& msg.message_type == MessageType::Chat && !to_command ==> told == seq![
                EffectView::Send(
                    CommandView::SendChatState {
                        to: msg.from,
                        state: ChatState::Paused,
                        msg_type: "chat"@,
                    },
                ),
                EffectView::Send(
                    CommandView::SendMessage { to: msg.from, body: text, id: None },
                ),
            ] && files == told
            &&& attachments_answered(msg, None, fresh).len() == 0
        }),
{
}

} // verus!
