//! What happens to a presence: subscription requests are accepted from those
//! who may talk to the agent.

use super::mailbox::{
    lane_gave, lane_result, session_lane, session_lane_settings, LaneSettings, SendOutcome,
};
use super::user_error::Failure;
use crate::config::Config;
use crate::text::texts_come_apart;
use crate::xmpp::{
    bare, bare_jid, build_subscribed, subscribed_stanza, CommandView, IncomingPresence,
    PresenceType, PresenceView, XmppCommand,
};
use vstd::prelude::*;

verus! {

/// The answer to a presence: a subscription request is accepted where both the
/// domain and the JID may talk to the agent; nothing else is answered.
pub open spec fn presence_answer(p: PresenceView, config: Config) -> Option<CommandView> {
    if p.presence_type == PresenceType::Subscribe && config.allows_domain(p.from)
        && config.allows(p.from) {
        Some(CommandView::SendRaw(subscribed_stanza(bare(p.from))))
    } else {
        None
    }
}

/// Decides on presences.
#[derive(Debug, Clone, Copy)]
pub struct PresenceActor;

impl PresenceActor {
    /// The decider.
    pub fn new() -> (r: Self)
        ensures
            r == PresenceActor,
    {
        PresenceActor
    }

    /// The answer to a presence.
    pub fn handle(&self, pres: &IncomingPresence, config: &Config) -> (r: Option<XmppCommand>)
        ensures
            r.deep_view() == presence_answer(pres.deep_view(), *config),
    {
        match pres.presence_type {
            PresenceType::Subscribe => {
                if !config.is_domain_allowed(pres.from.as_str()) {
                    return None;
                }
                if config.is_allowed(pres.from.as_str()) {
                    let jid = bare_jid(pres.from.as_str());
                    Some(XmppCommand::SendRaw(build_subscribed(jid.as_str())))
                } else {
                    None
                }
            },
            _ => None,
        }
    }
}

/// The lane of a session that handles presences.
#[derive(Debug, Clone, Copy)]
pub struct SessionPresenceActor {
    pub lane: LaneSettings,
}

impl SessionPresenceActor {
    /// The lane.
    pub fn new(config: &Config) -> (r: Self)
        ensures
            session_lane(*config, r.lane),
    {
        SessionPresenceActor { lane: session_lane_settings(config) }
    }

    /// What the session gets of the lane.
    pub fn handle(outcome: SendOutcome, reply: Option<Result<(), Failure>>) -> (r: Result<
        (),
        Failure,
    >)
        ensures
            lane_gave("session_presence"@, outcome, reply, r),
    {
        lane_result("session_presence", outcome, reply)
    }
}

/// Nobody gets to see the agent who may not talk to it.
pub proof fn strangers_cannot_subscribe(p: PresenceView, config: Config)
    requires
        !config.allows(p.from) || !config.allows_domain(p.from),
    ensures
        presence_answer(p, config) is None,
{
}

/// Someone who may talk to the agent and asks to subscribe is subscribed, under
/// their bare JID; nothing but a request is answered.
pub proof fn people_can_subscribe(
    p: PresenceView,
    config: Config,
    person: Seq<char>,
    resource: Seq<char>,
)
    requires
        p.from == person + seq!['/'] + resource || p.from == person,
        !person.contains('/'),
        config.allows(p.from) && config.allows_domain(p.from),
    ensures
        p.presence_type == PresenceType::Subscribe ==> presence_answer(p, config) == Some(
            CommandView::SendRaw("<presence to='"@ + person + "' type='subscribed'/>"@),
        ),
        p.presence_type != PresenceType::Subscribe ==> presence_answer(p, config) is None,
{
    texts_come_apart(person, '/', resource);
}

} // verus!
