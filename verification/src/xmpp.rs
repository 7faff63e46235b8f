//! What comes in from the XMPP transport and what goes out to it.

use crate::text::{before, part_before};
use vstd::prelude::*;
use vstd::string::*;

verus! {

/// Whether a message belongs to a one-to-one chat or to a room.
#[derive(Clone, Copy, PartialEq, Eq, Structural, Debug)]
pub enum MessageType {
    Chat,
    GroupChat,
}

/// A file that a message points to.
#[derive(Debug)]
pub struct OobData {
    pub url: String,
    pub desc: Option<String>,
}

/// A message from the transport.
#[derive(Debug)]
pub struct IncomingMessage {
    pub from: String,
    pub to: String,
    pub body: String,
    pub id: Option<String>,
    pub message_type: MessageType,
    pub oob: Vec<OobData>,
}

/// An emoji reaction to an earlier message.
#[derive(Debug)]
pub struct IncomingReaction {
    pub from: String,
    pub to: String,
    pub message_id: String,
    pub emojis: Vec<String>,
    pub message_type: MessageType,
}

/// The kinds of presence.
#[derive(Clone, Copy, PartialEq, Eq, Structural, Debug)]
pub enum PresenceType {
    Available,
    Unavailable,
    Subscribe,
    Subscribed,
    Unsubscribe,
    Unsubscribed,
    Probe,
    Error,
}

/// A presence from the transport.
#[derive(Debug)]
pub struct IncomingPresence {
    pub from: String,
    pub presence_type: PresenceType,
}

/// What the transport reports.
#[derive(Debug)]
pub enum XmppEvent {
    Connected,
    Message(IncomingMessage),
    Presence(IncomingPresence),
    Reaction(IncomingReaction),
    StreamError(String),
    Error(String),
    ReadTimeout,
}

/// A chat state notification.
#[derive(Clone, Copy, PartialEq, Eq, Structural, Debug)]
pub enum ChatState {
    Composing,
    Paused,
}

/// What the transport is asked to do.
#[derive(Debug)]
pub enum XmppCommand {
    SendMessage { to: String, body: String, id: Option<String> },
    SendChatState { to: String, state: ChatState, msg_type: String },
    SendMucMessage { to: String, body: String, id: Option<String> },
    JoinMuc { room: String, nick: String },
    SendRaw(String),
    Ping,
}

/// Why a connection or a session ended.
#[derive(Debug)]
pub enum DisconnectReason {
    ConnectionLost,
    Conflict,
    StreamError(String),
}

/// The model of [`OobData`].
pub ghost struct OobView {
    pub url: Seq<char>,
    pub desc: Option<Seq<char>>,
}

/// The model of [`IncomingMessage`].
pub ghost struct MessageView {
    pub from: Seq<char>,
    pub to: Seq<char>,
    pub body: Seq<char>,
    pub id: Option<Seq<char>>,
    pub message_type: MessageType,
    pub oob: Seq<OobView>,
}

/// The model of [`IncomingReaction`].
pub ghost struct ReactionView {
    pub from: Seq<char>,
    pub to: Seq<char>,
    pub message_id: Seq<char>,
    pub emojis: Seq<Seq<char>>,
    pub message_type: MessageType,
}

/// The model of [`IncomingPresence`].
pub ghost struct PresenceView {
    pub from: Seq<char>,
    pub presence_type: PresenceType,
}

/// The model of [`XmppEvent`].
pub ghost enum EventView {
    Connected,
    Message(MessageView),
    Presence(PresenceView),
    Reaction(ReactionView),
    StreamError(Seq<char>),
    Error(Seq<char>),
    ReadTimeout,
}

/// The model of [`XmppCommand`].
pub ghost enum CommandView {
    SendMessage { to: Seq<char>, body: Seq<char>, id: Option<Seq<char>> },
    SendChatState { to: Seq<char>, state: ChatState, msg_type: Seq<char> },
    SendMucMessage { to: Seq<char>, body: Seq<char>, id: Option<Seq<char>> },
    JoinMuc { room: Seq<char>, nick: Seq<char> },
    SendRaw(Seq<char>),
    Ping,
}

/// The model of [`DisconnectReason`].
pub ghost enum ReasonView {
    ConnectionLost,
    Conflict,
    StreamError(Seq<char>),
}

impl DeepView for OobData {
    type V = OobView;

    open spec fn deep_view(&self) -> OobView {
        OobView { url: self.url@, desc: self.desc.deep_view() }
    }
}

impl DeepView for IncomingMessage {
    type V = MessageView;

    open spec fn deep_view(&self) -> MessageView {
        MessageView {
            from: self.from@,
            to: self.to@,
            body: self.body@,
            id: self.id.deep_view(),
            message_type: self.message_type,
            oob: self.oob.deep_view(),
        }
    }
}

impl DeepView for IncomingReaction {
    type V = ReactionView;

    open spec fn deep_view(&self) -> ReactionView {
        ReactionView {
            from: self.from@,
            to: self.to@,
            message_id: self.message_id@,
            emojis: self.emojis.deep_view(),
            message_type: self.message_type,
        }
    }
}

impl DeepView for IncomingPresence {
    type V = PresenceView;

    open spec fn deep_view(&self) -> PresenceView {
        PresenceView { from: self.from@, presence_type: self.presence_type }
    }
}

impl DeepView for XmppEvent {
    type V = EventView;

    open spec fn deep_view(&self) -> EventView {
        match self {
            XmppEvent::Connected => EventView::Connected,
            XmppEvent::Message(m) => EventView::Message(m.deep_view()),
            XmppEvent::Presence(p) => EventView::Presence(p.deep_view()),
            XmppEvent::Reaction(r) => EventView::Reaction(r.deep_view()),
            XmppEvent::StreamError(c) => EventView::StreamError(c@),
            XmppEvent::Error(e) => EventView::Error(e@),
            XmppEvent::ReadTimeout => EventView::ReadTimeout,
        }
    }
}

impl DeepView for XmppCommand {
    type V = CommandView;

    open spec fn deep_view(&self) -> CommandView {
        match self {
            XmppCommand::SendMessage { to, body, id } => CommandView::SendMessage {
                to: to@,
                body: body@,
                id: id.deep_view(),
            },
            XmppCommand::SendChatState { to, state, msg_type } => CommandView::SendChatState {
                to: to@,
                state: *state,
                msg_type: msg_type@,
            },
            XmppCommand::SendMucMessage { to, body, id } => CommandView::SendMucMessage {
                to: to@,
                body: body@,
                id: id.deep_view(),
            },
            XmppCommand::JoinMuc { room, nick } => CommandView::JoinMuc { room: room@, nick: nick@ },
            XmppCommand::SendRaw(raw) => CommandView::SendRaw(raw@),
            XmppCommand::Ping => CommandView::Ping,
        }
    }
}

impl DeepView for DisconnectReason {
    type V = ReasonView;

    open spec fn deep_view(&self) -> ReasonView {
        match self {
            DisconnectReason::ConnectionLost => ReasonView::ConnectionLost,
            DisconnectReason::Conflict => ReasonView::Conflict,
            DisconnectReason::StreamError(c) => ReasonView::StreamError(c@),
        }
    }
}

/// A JID without its resource.
pub open spec fn bare(jid: Seq<char>) -> Seq<char> {
    before(jid, '/')
}

/// A JID without its resource.
pub fn bare_jid(jid: &str) -> (r: String)
    ensures
        r@ == bare(jid@),
{
    part_before(jid, '/')
}

/// The stanza that accepts a subscription request.
pub open spec fn subscribed_stanza(to: Seq<char>) -> Seq<char> {
    "<presence to='"@ + to + "' type='subscribed'/>"@
}

/// The stanza that accepts a subscription request.
pub fn build_subscribed(to: &str) -> (r: String)
    ensures
        r@ == subscribed_stanza(to@),
{
    let mut s = "<presence to='".to_owned();
    s.append(to);
    s.append("' type='subscribed'/>");
    s
}

/// The command that sends a chat state to a chat or a room.
pub open spec fn chat_state(to: Seq<char>, state: ChatState, in_room: bool) -> CommandView {
    CommandView::SendChatState {
        to,
        state,
        msg_type: if in_room {
            "groupchat"@
        } else {
            "chat"@
        },
    }
}

/// The command that sends a chat state to a chat or a room.
pub fn chat_state_command(to: &str, state: ChatState, in_room: bool) -> (r: XmppCommand)
    ensures
        r.deep_view() == chat_state(to@, state, in_room),
{
    XmppCommand::SendChatState {
        to: to.to_owned(),
        state,
        msg_type: if in_room {
            "groupchat".to_owned()
        } else {
            "chat".to_owned()
        },
    }
}

/// The command that sends a text to a chat or a room.
pub open spec fn text_to(
    to: Seq<char>,
    body: Seq<char>,
    id: Option<Seq<char>>,
    in_room: bool,
) -> CommandView {
    if in_room {
        CommandView::SendMucMessage { to, body, id }
    } else {
        CommandView::SendMessage { to, body, id }
    }
}

/// The command that sends a text to a chat or a room.
pub fn text_command(to: &str, body: String, id: Option<String>, in_room: bool) -> (r: XmppCommand)
    ensures
        r.deep_view() == text_to(to@, body@, id.deep_view(), in_room),
{
    if in_room {
        XmppCommand::SendMucMessage { to: to.to_owned(), body, id }
    } else {
        XmppCommand::SendMessage { to: to.to_owned(), body, id }
    }
}

} // verus!
