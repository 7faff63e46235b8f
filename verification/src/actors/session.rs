//! The loop of a session: which lane takes an event, and whether the session
//! goes on after it.

use super::user_error::Failure;
use crate::xmpp::{CommandView, DisconnectReason, EventView, ReasonView, XmppEvent};
use vstd::prelude::*;

verus! {

/// The lanes of a session.
#[derive(Clone, Copy, PartialEq, Eq, Structural, Debug)]
pub enum Lane {
    Control,
    Message,
    Presence,
    Reaction,
}

/// The lane that takes an event.
pub open spec fn lane_for(event: EventView) -> Lane {
    match event {
        EventView::Message(_) => Lane::Message,
        EventView::Presence(_) => Lane::Presence,
        EventView::Reaction(_) => Lane::Reaction,
        _ => Lane::Control,
    }
}

/// The lane that takes an event.
pub fn lane_of(event: &XmppEvent) -> (r: Lane)
    ensures
        r == lane_for(event.deep_view()),
{
    match event {
        XmppEvent::Message(_) => Lane::Message,
        XmppEvent::Presence(_) => Lane::Presence,
        XmppEvent::Reaction(_) => Lane::Reaction,
        _ => Lane::Control,
    }
}

/// The name under which the time that an event took is measured, where it is.
pub open spec fn turn_metric(event: EventView) -> Option<Seq<char>> {
    match event {
        EventView::Message(_) => Some("latency.turn.message_ms"@),
        EventView::Reaction(_) => Some("latency.turn.reaction_ms"@),
        _ => None,
    }
}

/// The name under which the time that an event took is measured.
pub fn turn_metric_of(event: &XmppEvent) -> (r: Option<&'static str>)
    ensures
        r.deep_view() == turn_metric(event.deep_view()),
{
    match event {
        XmppEvent::Message(_) => Some("latency.turn.message_ms"),
        XmppEvent::Reaction(_) => Some("latency.turn.reaction_ms"),
        _ => None,
    }
}

/// What a session does next.
#[derive(Debug)]
pub enum SessionStep {
    /// It waits for the next event.
    Continue,
    /// It ends, for this reason.
    Exit(DisconnectReason),
    /// It ends with a failure.
    Fail(Failure),
}

/// The model of [`SessionStep`].
pub ghost enum StepView {
    Continue,
    Exit(ReasonView),
    Fail(Seq<Seq<char>>),
}

impl DeepView for SessionStep {
    type V = StepView;

    open spec fn deep_view(&self) -> StepView {
        match self {
            SessionStep::Continue => StepView::Continue,
            SessionStep::Exit(r) => StepView::Exit(r.deep_view()),
            SessionStep::Fail(f) => StepView::Fail(f.deep_view()),
        }
    }
}

/// What a session does after an event, given what its lane reported: a
/// failure of the lane ends it; a stream error ends it, for the reason that
/// was reported or as a lost connection; a read timeout ends it where a reason
/// was reported; anything else lets it go on.
pub open spec fn next_step(
    event: EventView,
    reported: Option<ReasonView>,
    failure: Option<Seq<Seq<char>>>,
) -> StepView {
    match failure {
        Some(f) => StepView::Fail(f),
        None => match event {
            EventView::StreamError(_) => StepView::Exit(
                match reported {
                    Some(r) => r,
                    None => ReasonView::ConnectionLost,
                },
            ),
            EventView::ReadTimeout => match reported {
                Some(r) => StepView::Exit(r),
                None => StepView::Continue,
            },
            _ => StepView::Continue,
        },
    }
}

/// Decides how a session goes on.
#[derive(Debug)]
pub struct SessionActor {
    pub conversation_id: String,
}

impl SessionActor {
    /// The session of a conversation.
    pub fn new(conversation_id: String) -> (r: Self)
        ensures
            r.conversation_id == conversation_id,
    {
        SessionActor { conversation_id }
    }

    /// What the session does after an event, given what its lane reported.
    pub fn run(
        &self,
        event: &XmppEvent,
        outcome: Result<Option<DisconnectReason>, Failure>,
    ) -> (r: SessionStep)
        ensures
            r.deep_view() == match outcome {
                Ok(reported) => next_step(event.deep_view(), reported.deep_view(), None),
                Err(f) => next_step(event.deep_view(), None, Some(f.deep_view())),
            },
    {
        match outcome {
            Err(f) => SessionStep::Fail(f),
            Ok(reported) => match event {
                XmppEvent::StreamError(_) => SessionStep::Exit(
                    match reported {
                        Some(r) => r,
                        None => DisconnectReason::ConnectionLost,
                    },
                ),
                XmppEvent::ReadTimeout => match reported {
                    Some(r) => SessionStep::Exit(r),
                    None => SessionStep::Continue,
                },
                _ => SessionStep::Continue,
            },
        }
    }

    /// Why the session ended, where no event ended it: its mailbox is closed.
    pub fn mailbox_closed(&self) -> (r: DisconnectReason)
        ensures
            r.deep_view() == ReasonView::ConnectionLost,
    {
        DisconnectReason::ConnectionLost
    }
}

/// Messages, presences and reactions never end a session by themselves.
pub proof fn conversation_goes_on(event: EventView, reported: Option<ReasonView>)
    requires
        lane_for(event) != Lane::Control,
    ensures
        next_step(event, reported, None) == StepView::Continue,
{
}

/// An event as a session handled it: what was sent for it, and what its lane
/// reported.
pub ghost struct HandledView {
    pub event: EventView,
    pub commands: Seq<CommandView>,
    pub reported: Option<ReasonView>,
    pub failure: Option<Seq<Seq<char>>>,
}

/// What a session sends that handles the events of its mailbox one by one,
/// until one of them ends it.
pub open spec fn session_sends(handled: Seq<HandledView>) -> Seq<CommandView>
    decreases handled.len(),
{
    if handled.len() == 0 {
        Seq::empty()
    } else {
        let first = handled[0];
        first.commands + if next_step(first.event, first.reported, first.failure) is Continue {
            session_sends(handled.skip(1))
        } else {
            Seq::empty()
        }
    }
}

/// How many commands are sent for the first `n` events.
pub open spec fn sent_before(handled: Seq<HandledView>, n: int) -> int
    decreases n,
{
    if n <= 0 {
        0
    } else {
        sent_before(handled, n - 1) + handled[n - 1].commands.len()
    }
}

proof fn lemma_sent_before_skips(handled: Seq<HandledView>, n: int)
    requires
        1 <= n <= handled.len(),
    ensures
        sent_before(handled, n) == handled[0].commands.len() + sent_before(handled.skip(1), n - 1),
    decreases n,
{
    if n > 1 {
        lemma_sent_before_skips(handled, n - 1);
        assert(handled.skip(1)[n - 2] == handled[n - 1]);
    } else {
        assert(sent_before(handled, 0) == 0);
    }
}

proof fn lemma_sent_before_grows(handled: Seq<HandledView>, i: int, j: int)
    requires
        0 <= i < j <= handled.len(),
    ensures
        sent_before(handled, i) + handled[i].commands.len() <= sent_before(handled, j),
        sent_before(handled, i) >= 0,
    decreases j,
{
    if j > i + 1 {
        lemma_sent_before_grows(handled, i, j - 1);
    } else if i > 0 {
        lemma_sent_before_grows(handled, i - 1, i);
    }
}

proof fn lemma_place_of_a_command(handled: Seq<HandledView>, i: int, a: int)
    requires
        0 <= i < handled.len(),
        0 <= a < handled[i].commands.len(),
        forall|k: int|
            0 <= k < i ==> next_step(
                (#[trigger] handled[k]).event,
                handled[k].reported,
                handled[k].failure,
            ) is Continue,
    ensures
        0 <= sent_before(handled, i) + a < session_sends(handled).len(),
        session_sends(handled)[sent_before(handled, i) + a] == handled[i].commands[a],
    decreases i,
{
    let first = handled[0];
    let rest = handled.skip(1);
    if i > 0 {
        assert(next_step(first.event, first.reported, first.failure) is Continue);
        assert forall|k: int| 0 <= k < i - 1 implies next_step(
            (#[trigger] rest[k]).event,
            rest[k].reported,
            rest[k].failure,
        ) is Continue by {
            assert(rest[k] == handled[k + 1]);
        }
        lemma_place_of_a_command(rest, i - 1, a);
        lemma_sent_before_skips(handled, i);
    }
}

/// The answers to one conversation keep its order: of two events that wait for
/// a session which goes on until the later one, every command for the earlier
/// one is sent before any for the later one.
pub proof fn answers_keep_the_order(handled: Seq<HandledView>, i: int, j: int, a: int, b: int)
    requires
        0 <= i < j < handled.len(),
        0 <= a < handled[i].commands.len(),
        0 <= b < handled[j].commands.len(),
        forall|k: int|
            0 <= k < j ==> next_step(
                (#[trigger] handled[k]).event,
                handled[k].reported,
                handled[k].failure,
            ) is Continue,
    ensures
        0 <= sent_before(handled, i) + a < sent_before(handled, j) + b < session_sends(
            handled,
        ).len(),
        session_sends(handled)[sent_before(handled, i) + a] == handled[i].commands[a],
        session_sends(handled)[sent_before(handled, j) + b] == handled[j].commands[b],
{
    lemma_place_of_a_command(handled, i, a);
    lemma_place_of_a_command(handled, j, b);
    lemma_sent_before_grows(handled, i, j);
}

/// Each event goes to the lane for its kind: messages, presences and reactions
/// to their own, and everything about the connection to the control lane. Only
/// turns that answer someone are timed, each under its kind.
pub proof fn events_go_to_their_lane(event: EventView)
    ensures
        lane_for(event) == Lane::Message <==> event is Message,
        lane_for(event) == Lane::Presence <==> event is Presence,
        lane_for(event) == Lane::Reaction <==> event is Reaction,
        event is Message ==> turn_metric(event) == Some("latency.turn.message_ms"@),
        event is Reaction ==> turn_metric(event) == Some("latency.turn.reaction_ms"@),
        !(event is Message) && !(event is Reaction) ==> turn_metric(event) is None,
{
}

/// A failure ends a session, whatever the event was, with its causes. A stream
/// error ends it for the reason that was reported, or for a lost connection
/// where none was; silence ends it only where a reason was reported. Nothing
/// else does.
pub proof fn sessions_end_for_a_reason(
    event: EventView,
    reported: Option<ReasonView>,
    failure: Seq<Seq<char>>,
)
    ensures
        next_step(event, reported, Some(failure)) == StepView::Fail(failure),
        event is StreamError && reported is Some ==> next_step(event, reported, None)
            == StepView::Exit(reported->0),
        event is StreamError && reported is None ==> next_step(event, reported, None)
            == StepView::Exit(ReasonView::ConnectionLost),
        event is ReadTimeout && reported is Some ==> next_step(event, reported, None)
            == StepView::Exit(reported->0),
        event is ReadTimeout && reported is None ==> next_step(event, reported, None)
            == StepView::Continue,
        !(event is StreamError) && !(event is ReadTimeout) ==> next_step(event, reported, None)
            == StepView::Continue,
{
}

/// A session that goes on sends everything that its events come to, in their
/// order, and one that ends sends nothing after the event that ended it.
pub proof fn sessions_send_everything(first: HandledView, rest: Seq<HandledView>)
    ensures
        next_step(first.event, first.reported, first.failure) is Continue ==> session_sends(
            seq![first] + rest,
        ) == first.commands + session_sends(rest),
        !(next_step(first.event, first.reported, first.failure) is Continue) ==> session_sends(
            seq![first] + rest,
        ) == first.commands,
{
    let all = seq![first] + rest;
    assert(all.skip(1) =~= rest);
    assert(first.commands + Seq::<CommandView>::empty() =~= first.commands);
}

} // verus!
