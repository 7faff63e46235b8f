//! Events on their way through the actors.

use crate::clock::now_millis;
use crate::ids::{is_uuid_text, new_id};
use crate::text::texts_come_apart;
use crate::xmpp::{bare, bare_jid, EventView, XmppEvent};
use vstd::prelude::*;

verus! {

/// The conversation that events of the connection itself belong to.
pub const SYSTEM_CONVERSATION_ID: &'static str = "__system__";

/// An event with the conversation that it belongs to and the identifier under
/// which it is followed.
#[derive(Debug)]
pub struct Envelope {
    pub conversation_id: String,
    pub correlation_id: String,
    pub received_at_ms: i64,
    pub event: XmppEvent,
}

/// The conversation of an event: the sender's bare JID, or the system
/// conversation where there is no sender.
pub open spec fn conversation_of(event: EventView) -> Seq<char> {
    match event {
        EventView::Message(m) => bare(m.from),
        EventView::Presence(p) => bare(p.from),
        EventView::Reaction(r) => bare(r.from),
        _ => SYSTEM_CONVERSATION_ID@,
    }
}

/// The identifier that an event brings along: a message its own, a reaction
/// that of the message it is about; an empty one counts as none.
pub open spec fn carried_id(event: EventView) -> Option<Seq<char>> {
    match event {
        EventView::Message(m) => match m.id {
            Some(id) => if id.len() > 0 {
                Some(id)
            } else {
                None
            },
            None => None,
        },
        EventView::Reaction(r) => if r.message_id.len() > 0 {
            Some(r.message_id)
        } else {
            None
        },
        _ => None,
    }
}

/// The identifier under which an event is followed, given a fresh one.
pub open spec fn correlation_of(event: EventView, fresh: Seq<char>) -> Seq<char> {
    match carried_id(event) {
        Some(id) => id,
        None => fresh,
    }
}

fn correlation_id_or_fresh(event: &XmppEvent, fresh: String) -> (r: String)
    ensures
        r@ == correlation_of(event.deep_view(), fresh@),
{
    match event {
        XmppEvent::Message(msg) => match &msg.id {
            Some(id) => if id.as_str().is_empty() {
                fresh
            } else {
                id.clone()
            },
            None => fresh,
        },
        XmppEvent::Reaction(reaction) => if reaction.message_id.as_str().is_empty() {
            fresh
        } else {
            reaction.message_id.clone()
        },
        _ => fresh,
    }
}

/// The identifier under which an event is followed: the one it brings along,
/// else a fresh one.
pub fn correlation_id_from_event(event: &XmppEvent) -> (r: String)
    ensures
        match carried_id(event.deep_view()) {
            Some(id) => r@ == id,
            None => is_uuid_text(r@),
        },
{
    correlation_id_or_fresh(event, new_id())
}

impl Envelope {
    /// The envelope of an event, given a fresh identifier and the time.
    pub fn stamped(event: XmppEvent, fresh: String, received_at_ms: i64) -> (r: Self)
        ensures
            r.conversation_id@ == conversation_of(event.deep_view()),
            r.correlation_id@ == correlation_of(event.deep_view(), fresh@),
            r.received_at_ms == received_at_ms,
            r.event == event,
    {
        let conversation_id = match &event {
            XmppEvent::Message(msg) => bare_jid(msg.from.as_str()),
            XmppEvent::Presence(pres) => bare_jid(pres.from.as_str()),
            XmppEvent::Reaction(reaction) => bare_jid(reaction.from.as_str()),
            _ => SYSTEM_CONVERSATION_ID.to_owned(),
        };
        let correlation_id = correlation_id_or_fresh(&event, fresh);
        Envelope { conversation_id, correlation_id, received_at_ms, event }
    }

    /// The envelope of an event that has just come in.
    pub fn from_xmpp_event(event: XmppEvent) -> (r: Self)
        ensures
            r.conversation_id@ == conversation_of(event.deep_view()),
            match carried_id(event.deep_view()) {
                Some(id) => r.correlation_id@ == id,
                None => is_uuid_text(r.correlation_id@),
            },
            r.received_at_ms >= 0,
            r.event == event,
    {
        Envelope::stamped(event, new_id(), now_millis())
    }

    /// The event in the envelope.
    pub fn into_event(self) -> (r: XmppEvent)
        ensures
            r == self.event,
    {
        self.event
    }
}

/// An envelope always has an identifier to follow it by.
pub proof fn correlation_is_never_empty(event: EventView, fresh: Seq<char>)
    requires
        is_uuid_text(fresh),
    ensures
        correlation_of(event, fresh).len() > 0,
{
}

/// Who sent an event, where somebody did.
pub open spec fn sender_of(event: EventView) -> Option<Seq<char>> {
    match event {
        EventView::Message(m) => Some(m.from),
        EventView::Presence(p) => Some(p.from),
        EventView::Reaction(r) => Some(r.from),
        _ => None,
    }
}

/// What comes from one bare JID belongs to one conversation, whatever it is and
/// whichever resource it comes from.
pub proof fn conversation_ignores_resource(a: EventView, b: EventView)
    requires
        sender_of(a) is Some,
        sender_of(b) is Some,
        bare(sender_of(a)->0) == bare(sender_of(b)->0),
    ensures
        conversation_of(a) == conversation_of(b),
{
}

/// Whatever someone sends belongs to the conversation with their bare JID, and
/// whatever the connection says to the one of the system.
pub proof fn events_belong_to_their_sender(
    event: EventView,
    person: Seq<char>,
    resource: Seq<char>,
)
    requires
        !person.contains('/'),
        match event {
            EventView::Message(m) => m.from == person + seq!['/'] + resource,
            EventView::Presence(p) => p.from == person + seq!['/'] + resource,
            EventView::Reaction(r) => r.from == person + seq!['/'] + resource,
            _ => person == SYSTEM_CONVERSATION_ID@,
        },
    ensures
        conversation_of(event) == person,
{
    texts_come_apart(person, '/', resource);
}

/// An event is followed under the identifier that it carries: that of a
/// message, or that of the message that a reaction is about. Only where there
/// is none is it given a fresh one.
pub proof fn events_are_followed_under_their_identifier(event: EventView, fresh: Seq<char>)
    ensures
        match event {
            EventView::Message(m) => correlation_of(event, fresh) == if m.id is Some
                && m.id->0.len() > 0 {
                m.id->0
            } else {
                fresh
            },
            EventView::Reaction(r) => correlation_of(event, fresh) == if r.message_id.len() > 0 {
                r.message_id
            } else {
                fresh
            },
            _ => correlation_of(event, fresh) == fresh,
        },
{
}

} // verus!
