//! What happens to an emoji reaction: it is kept, and the language model is
//! asked whether there is something to say.

use super::dead_letter::StoreView;
use super::mailbox::{
    lane_gave, lane_result, session_lane, session_lane_settings, LaneSettings, SendOutcome,
};
use super::memory_actor::MemoryRequest;
use super::message::{answer_entry, EffectView, MessageEffect};
use super::user_error::Failure;
use crate::agent::entries::{Reaction, StoredReactionView};
use crate::config::Config;
use crate::ids::{is_uuid_text, new_id};
use crate::text::{part_after, second_part, texts_come_apart};
use crate::xmpp::{
    bare, bare_jid, chat_state, chat_state_command, text_command, text_to, ChatState, CommandView,
    IncomingReaction, MessageType, ReactionView,
};
use vstd::prelude::*;
use vstd::string::*;

verus! {

/// What is done at once for a reaction, and whose history the language model
/// is asked about, where it is.
#[derive(Debug)]
pub struct ReactionPlan {
    pub effects: Vec<MessageEffect>,
    pub ask: Option<String>,
}

/// The model of [`ReactionPlan`].
pub ghost struct ReactionPlanView {
    pub effects: Seq<EffectView>,
    pub ask: Option<Seq<char>>,
}

impl DeepView for ReactionPlan {
    type V = ReactionPlanView;

    open spec fn deep_view(&self) -> ReactionPlanView {
        ReactionPlanView { effects: self.effects.deep_view(), ask: self.ask.deep_view() }
    }
}

/// Under which name a reaction is kept: the nick in a room, the bare JID in a
/// chat.
pub open spec fn reacting(r: ReactionView) -> Seq<char> {
    if r.message_type == MessageType::GroupChat {
        (match second_part(r.from, '/') {
            Some(nick) => nick,
            None => "unknown"@,
        }) + "@muc"@
    } else {
        bare(r.from)
    }
}

/// Where an answer to a reaction goes: the room, or the sender with its
/// resource.
pub open spec fn reaction_reply_to(r: ReactionView) -> Seq<char> {
    if r.message_type == MessageType::GroupChat {
        bare(r.from)
    } else {
        r.from
    }
}

/// How a reaction is stored.
pub open spec fn reaction_entry(r: ReactionView) -> StoreView {
    StoreView {
        full: true,
        jid: bare(r.from),
        role: "user"@,
        content: Seq::empty(),
        msg_id: None,
        sender: Some(reacting(r)),
        attachments: None,
        reaction: Some(StoredReactionView { message_id: r.message_id, emojis: r.emojis }),
    }
}

/// The plan for a reaction: in a chat, nothing unless the sender may talk to
/// the agent.
pub open spec fn reaction_plan(r: ReactionView, config: Config) -> ReactionPlanView {
    let in_room = r.message_type == MessageType::GroupChat;
    if !in_room && (!config.allows_domain(r.from) || !config.allows(r.from)) {
        ReactionPlanView { effects: Seq::empty(), ask: None }
    } else {
        ReactionPlanView {
            effects: seq![
                EffectView::Store(reaction_entry(r)),
                EffectView::Send(chat_state(reaction_reply_to(r), ChatState::Composing, in_room)),
            ],
            ask: Some(bare(r.from)),
        }
    }
}

/// What is done when the language model has answered. A failure only ends the
/// composing: nothing is said of it.
pub open spec fn reaction_answered(
    r: ReactionView,
    text: Option<Seq<char>>,
    fresh: Seq<char>,
) -> Seq<EffectView> {
    let in_room = r.message_type == MessageType::GroupChat;
    match text {
        Some(t) => seq![
            EffectView::Store(answer_entry(bare(r.from), t, fresh)),
            EffectView::Send(text_to(reaction_reply_to(r), t, Some(fresh), in_room)),
        ],
        None => seq![
            EffectView::Send(chat_state(reaction_reply_to(r), ChatState::Paused, in_room)),
        ],
    }
}

/// Decides on reactions.
#[derive(Debug, Clone, Copy)]
pub struct ReactionActor;

impl ReactionActor {
    /// The decider.
    pub fn new() -> (r: Self)
        ensures
            r == ReactionActor,
    {
        ReactionActor
    }

    /// What is done at once for a reaction, and whom the language model is
    /// asked about.
    pub fn handle(&self, reaction: &IncomingReaction, config: &Config) -> (r: ReactionPlan)
        ensures
            r.deep_view() == reaction_plan(reaction.deep_view(), *config),
    {
        let ghost view = reaction.deep_view();
        let from = bare_jid(reaction.from.as_str());
        let in_room = reaction.message_type == MessageType::GroupChat;
        let mut effects: Vec<MessageEffect> = Vec::new();
        assert(effects.deep_view() =~= Seq::empty());
        if !in_room {
            if !config.is_domain_allowed(reaction.from.as_str()) {
                return ReactionPlan { effects, ask: None };
            }
            if !config.is_allowed(reaction.from.as_str()) {
                return ReactionPlan { effects, ask: None };
            }
        }
        let label = if in_room {
            let mut nick = match part_after(reaction.from.as_str(), '/') {
                Some(n) => n,
                None => "unknown".to_owned(),
            };
            nick.append("@muc");
            nick
        } else {
            from.clone()
        };
        let emojis = reaction.emojis.clone();
        assert(emojis.deep_view() =~= reaction.emojis.deep_view());
        let content = String::new();
        assert(content@ =~= Seq::empty());
        effects.push(
            MessageEffect::Store(
                MemoryRequest::StoreMessageFull {
                    jid: from.clone(),
                    role: "user".to_owned(),
                    content,
                    msg_id: None,
                    sender: Some(label),
                    attachments: None,
                    reaction: Some(Reaction { message_id: reaction.message_id.clone(), emojis }),
                },
            ),
        );
        assert(effects@[0].deep_view() == EffectView::Store(reaction_entry(view)));
        let to = if in_room {
            from.clone()
        } else {
            reaction.from.clone()
        };
        effects.push(
            MessageEffect::Send(chat_state_command(to.as_str(), ChatState::Composing, in_room)),
        );
        assert(effects.deep_view() =~= reaction_plan(view, *config).effects);
        ReactionPlan { effects, ask: Some(from) }
    }

    /// What is done when the language model has answered, given a fresh
    /// identifier; `None` is a failure.
    pub fn on_reply(&self, reaction: &IncomingReaction, text: Option<String>, fresh: String) -> (r:
        Vec<MessageEffect>)
        ensures
            r.deep_view() == reaction_answered(reaction.deep_view(), text.deep_view(), fresh@),
    {
        let ghost view = reaction.deep_view();
        let ghost said = text.deep_view();
        let ghost id = fresh@;
        let from = bare_jid(reaction.from.as_str());
        let in_room = reaction.message_type == MessageType::GroupChat;
        let to = if in_room {
            from.clone()
        } else {
            reaction.from.clone()
        };
        let mut effects: Vec<MessageEffect> = Vec::new();
        match text {
            Some(t) => {
                effects.push(
                    MessageEffect::Store(
                        MemoryRequest::StoreMessageStructured {
                            jid: from,
                            role: "assistant".to_owned(),
                            content: t.clone(),
                            msg_id: Some(fresh.clone()),
                            sender: None,
                        },
                    ),
                );
                assert(effects@[0].deep_view() == EffectView::Store(
                    answer_entry(bare(view.from), said->0, id),
                ));
                effects.push(
                    MessageEffect::Send(text_command(to.as_str(), t, Some(fresh), in_room)),
                );
            },
            None => {
                effects.push(
                    MessageEffect::Send(
                        chat_state_command(to.as_str(), ChatState::Paused, in_room),
                    ),
                );
            },
        }
        assert(effects.deep_view() =~= reaction_answered(view, said, id));
        effects
    }

    /// What is done when the language model has answered; `None` is a failure.
    pub fn finish(&self, reaction: &IncomingReaction, text: Option<String>) -> (r: Vec<
        MessageEffect,
    >)
        ensures
            exists|fresh: Seq<char>|
                is_uuid_text(fresh) && r.deep_view() == #[trigger] reaction_answered(
                    reaction.deep_view(),
                    text.deep_view(),
                    fresh,
                ),
    {
        let fresh = new_id();
        let ghost id = fresh@;
        let r = self.on_reply(reaction, text, fresh);
        assert(is_uuid_text(id));
        r
    }
}

/// The lane of a session that handles reactions.
#[derive(Debug, Clone, Copy)]
pub struct SessionReactionActor {
    pub lane: LaneSettings,
}

impl SessionReactionActor {
    /// The lane.
    pub fn new(config: &Config) -> (r: Self)
        ensures
            session_lane(*config, r.lane),
    {
        SessionReactionActor { lane: session_lane_settings(config) }
    }

    /// What the session gets of the lane.
    pub fn handle(outcome: SendOutcome, reply: Option<Result<(), Failure>>) -> (r: Result<
        (),
        Failure,
    >)
        ensures
            lane_gave("session_reaction"@, outcome, reply, r),
    {
        lane_result("session_reaction", outcome, reply)
    }
}

/// A reaction in a chat from someone who may not talk to the agent leaves no
/// trace.
pub proof fn strangers_cannot_react(r: ReactionView, config: Config)
    requires
        r.message_type == MessageType::Chat,
        !config.allows(r.from) || !config.allows_domain(r.from),
    ensures
        reaction_plan(r, config) == (ReactionPlanView { effects: Seq::empty(), ask: None }),
{
}

/// The answer to a reaction is stored under the identifier that it is sent
/// with.
pub proof fn reaction_answers_are_stored_as_sent(
    r: ReactionView,
    text: Seq<char>,
    fresh: Seq<char>,
)
    ensures
        ({
            let effects = reaction_answered(r, Some(text), fresh);
            &&& effects[0] == EffectView::Store(answer_entry(bare(r.from), text, fresh))
            &&& effects[1] == EffectView::Send(
                text_to(
                    reaction_reply_to(r),
                    text,
                    Some(fresh),
                    r.message_type == MessageType::GroupChat,
                ),
            )
        }),
{
}

/// A reaction of someone who may talk to the agent is kept with the message
/// that it is about and with its emojis, all of them in their order, under the
/// bare JID; then an answer is announced to the full JID and asked for.
pub proof fn reactions_are_kept_and_answered(
    r: ReactionView,
    config: Config,
    person: Seq<char>,
    resource: Seq<char>,
)
    requires
        r.message_type == MessageType::Chat,
        r.from == person + seq!['/'] + resource || r.from == person,
        !person.contains('/'),
        config.allows(r.from) && config.allows_domain(r.from),
    ensures
        ({
            let p = reaction_plan(r, config);
            &&& p.ask == Some(person)
            &&& p.effects.len() == 2
            &&& match p.effects[0] {
                EffectView::Store(s) => {
                    &&& s.full && s.jid == person && s.role == "user"@ && s.content.len() == 0
                    &&& s.msg_id is None && s.sender == Some(person) && s.attachments is None
                    &&& s.reaction is Some
                    &&& s.reaction->0.message_id == r.message_id
                    &&& s.reaction->0.emojis == r.emojis
                },
                EffectView::Send(_) => false,
            }
            &&& p.effects[1] == EffectView::Send(
                CommandView::SendChatState {
                    to: r.from,
                    state: ChatState::Composing,
                    msg_type: "chat"@,
                },
            )
        }),
{
    texts_come_apart(person, '/', resource);
}

/// A reaction in a room is kept and answered for the room, under the nick of
/// who reacted.
pub proof fn room_reactions_are_kept_and_answered(
    r: ReactionView,
    config: Config,
    room: Seq<char>,
    nick: Seq<char>,
)
    requires
        r.message_type == MessageType::GroupChat,
        r.from == room + seq!['/'] + nick,
        !room.contains('/') && !nick.contains('/'),
    ensures
        ({
            let p = reaction_plan(r, config);
            &&& p.ask == Some(room)
            &&& p.effects.len() == 2
            &&& match p.effects[0] {
                EffectView::Store(s) => {
                    &&& s.full && s.jid == room && s.role == "user"@ && s.content.len() == 0
                    &&& s.msg_id is None && s.sender == Some(nick + "@muc"@)
                    &&& s.attachments is None && s.reaction is Some
                    &&& s.reaction->0.message_id == r.message_id
                    &&& s.reaction->0.emojis == r.emojis
                },
                EffectView::Send(_) => false,
            }
            &&& p.effects[1] == EffectView::Send(
                CommandView::SendChatState {
                    to: room,
                    state: ChatState::Composing,
                    msg_type: "groupchat"@,
                },
            )
        }),
{
    texts_come_apart(room, '/', nick);
}

/// The answer to a reaction goes to who reacted, word for word and under the
/// identifier that it is kept with; where there is none, the announcement is
/// taken back and nothing is kept.
pub proof fn reaction_answers_go_back(r: ReactionView, text: Seq<char>, fresh: Seq<char>)
    ensures
        ({
            let said = reaction_answered(r, Some(text), fresh);
            let silent = reaction_answered(r, None, fresh);
            let in_room = r.message_type == MessageType::GroupChat;
            &&& said.len() == 2 && silent.len() == 1
            &&& match said[0] {
                EffectView::Store(s) => s.jid == bare(r.from) && s.role == "assistant"@ && s.content
                    == text && s.msg_id == Some(fresh) && s.sender is None,
                EffectView::Send(_) => false,
            }
            &&& said[1] == EffectView::Send(
                if in_room {
                    CommandView::SendMucMessage {
                        to: bare(r.from),
                        body: text,
                        id: Some(fresh),
                    }
                } else {
                    CommandView::SendMessage { to: r.from, body: text, id: Some(fresh) }
                },
            )
            &&& silent[0] == EffectView::Send(
                CommandView::SendChatState {
                    to: if in_room {
                        bare(r.from)
                    } else {
                        r.from
                    },
                    state: ChatState::Paused,
                    msg_type: if in_room {
                        "groupchat"@
                    } else {
                        "chat"@
                    },
                },
            )
        }),
{
}

/// Someone in a room whose address holds no nick reacts under none.
pub proof fn reactions_without_a_nick(r: ReactionView)
    requires
        r.message_type == MessageType::GroupChat,
        !r.from.contains('/'),
    ensures
        reacting(r) == "unknown"@ + "@muc"@,
{
    texts_come_apart(r.from, '/', r.from);
}

} // verus!
