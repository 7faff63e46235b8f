//! What happens to events of the connection itself.

use super::mailbox::{
    lane_gave, lane_result, session_lane, session_lane_settings, LaneSettings, SendOutcome,
};
use super::user_error::Failure;
use crate::config::{Config, RoomConfig};
use crate::text::same;
use crate::xmpp::{CommandView, DisconnectReason, ReasonView, XmppCommand};
use vstd::prelude::*;

verus! {

/// The command that joins a room.
pub open spec fn join_command(room: RoomConfig) -> CommandView {
    CommandView::JoinMuc { room: room.jid@, nick: room.nick@ }
}

/// Why a stream error ends the connection.
pub open spec fn stream_reason(condition: Seq<char>) -> ReasonView {
    if condition == "conflict"@ {
        ReasonView::Conflict
    } else {
        ReasonView::StreamError(condition)
    }
}

/// Decides on events of the connection.
#[derive(Debug, Clone, Copy)]
pub struct ControlActor;

impl ControlActor {
    /// The decider.
    pub fn new() -> (r: Self)
        ensures
            r == ControlActor,
    {
        ControlActor
    }

    /// When the connection is up, every configured room is joined, in order.
    pub fn on_connected(&self, config: &Config) -> (r: Vec<XmppCommand>)
        ensures
            r.deep_view() == config.rooms@.map_values(|room: RoomConfig| join_command(room)),
    {
        let mut out: Vec<XmppCommand> = Vec::new();
        let mut i: usize = 0;
        while i < config.rooms.len()
            invariant
                0 <= i <= config.rooms@.len(),
                out.deep_view() == config.rooms@.take(i as int).map_values(
                    |room: RoomConfig| join_command(room),
                ),
            decreases config.rooms@.len() - i,
        {
            let ghost so_far = out.deep_view();
            let room = &config.rooms[i];
            out.push(XmppCommand::JoinMuc { room: room.jid.clone(), nick: room.nick.clone() });
            assert(out.deep_view() =~= so_far.push(join_command(config.rooms@[i as int])));
            assert(out.deep_view() =~= config.rooms@.take(i + 1).map_values(
                |room: RoomConfig| join_command(room),
            ));
            i = i + 1;
        }
        assert(config.rooms@.take(config.rooms@.len() as int) == config.rooms@);
        out
    }

    /// A stream error ends the connection.
    pub fn on_stream_error(&self, condition: String) -> (r: DisconnectReason)
        ensures
            r.deep_view() == stream_reason(condition@),
    {
        if same(condition.as_str(), "conflict") {
            DisconnectReason::Conflict
        } else {
            DisconnectReason::StreamError(condition)
        }
    }

    /// Any other error is only reported: what is reported is the message.
    pub fn on_error(&self, message: String) -> (r: String)
        ensures
            r == message,
    {
        message
    }

    /// Where nothing has come in for long, the connection is probed.
    pub fn on_read_timeout(&self) -> (r: XmppCommand)
        ensures
            r.deep_view() == CommandView::Ping,
    {
        XmppCommand::Ping
    }

    /// A probe that cannot be sent tells that the connection is lost.
    pub fn after_probe(&self, sent: bool) -> (r: Option<DisconnectReason>)
        ensures
            r.deep_view() == if sent {
                None
            } else {
                Some(ReasonView::ConnectionLost)
            },
    {
        if sent {
            None
        } else {
            Some(DisconnectReason::ConnectionLost)
        }
    }
}

/// The lane of a session that handles events of the connection.
#[derive(Debug, Clone, Copy)]
pub struct SessionControlActor {
    pub lane: LaneSettings,
}

impl SessionControlActor {
    /// The lane.
    pub fn new(config: &Config) -> (r: Self)
        ensures
            session_lane(*config, r.lane),
    {
        SessionControlActor { lane: session_lane_settings(config) }
    }

    /// What the session gets of the lane.
    pub fn dispatch(
        outcome: SendOutcome,
        reply: Option<Result<Option<DisconnectReason>, Failure>>,
    ) -> (r: Result<Option<DisconnectReason>, Failure>)
        ensures
            lane_gave("session_control"@, outcome, reply, r),
    {
        lane_result("session_control", outcome, reply)
    }

    /// What the session gets after the connection is up.
    pub fn on_connected(
        outcome: SendOutcome,
        reply: Option<Result<Option<DisconnectReason>, Failure>>,
    ) -> (r: Result<(), Failure>)
        ensures
            reported_nothing(outcome, reply, r),
    {
        match SessionControlActor::dispatch(outcome, reply) {
            Ok(_) => Ok(()),
            Err(e) => Err(e),
        }
    }

    /// What the session gets after a stream error: the reason that was
    /// reported, or that the connection is lost.
    pub fn on_stream_error(
        outcome: SendOutcome,
        reply: Option<Result<Option<DisconnectReason>, Failure>>,
    ) -> (r: Result<DisconnectReason, Failure>)
        ensures
            exists|d: Result<Option<DisconnectReason>, Failure>| #[trigger]
                lane_gave("session_control"@, outcome, reply, d) && match d {
                    Ok(Some(reason)) => r == Ok::<DisconnectReason, Failure>(reason),
                    Ok(None) => r == Ok::<DisconnectReason, Failure>(
                        DisconnectReason::ConnectionLost,
                    ),
                    Err(e) => r == Err::<DisconnectReason, Failure>(e),
                },
    {
        match SessionControlActor::dispatch(outcome, reply) {
            Ok(Some(reason)) => Ok(reason),
            Ok(None) => Ok(DisconnectReason::ConnectionLost),
            Err(e) => Err(e),
        }
    }

    /// What the session gets after any other error.
    pub fn on_error(
        outcome: SendOutcome,
        reply: Option<Result<Option<DisconnectReason>, Failure>>,
    ) -> (r: Result<(), Failure>)
        ensures
            reported_nothing(outcome, reply, r),
    {
        match SessionControlActor::dispatch(outcome, reply) {
            Ok(_) => Ok(()),
            Err(e) => Err(e),
        }
    }

    /// What the session gets after a read timeout.
    pub fn on_read_timeout(
        outcome: SendOutcome,
        reply: Option<Result<Option<DisconnectReason>, Failure>>,
    ) -> (r: Result<Option<DisconnectReason>, Failure>)
        ensures
            lane_gave("session_control"@, outcome, reply, r),
    {
        SessionControlActor::dispatch(outcome, reply)
    }
}

/// Whether a result tells only whether the lane failed.
pub open spec fn reported_nothing(
    outcome: SendOutcome,
    reply: Option<Result<Option<DisconnectReason>, Failure>>,
    r: Result<(), Failure>,
) -> bool {
    exists|d: Result<Option<DisconnectReason>, Failure>| #[trigger]
        lane_gave("session_control"@, outcome, reply, d) && match d {
            Ok(_) => r is Ok,
            Err(e) => r == Err::<(), Failure>(e),
        }
}

/// A configured room is joined under its own address and the nick for it.
pub proof fn rooms_are_joined_under_their_nick(room: RoomConfig)
    ensures
        join_command(room) == (CommandView::JoinMuc { room: room.jid@, nick: room.nick@ }),
{
}

/// Only a conflict ends a stream as one; every other condition is passed on as
/// it came.
pub proof fn stream_errors_are_told_apart(condition: Seq<char>)
    ensures
        stream_reason(condition) == ReasonView::Conflict <==> condition == "conflict"@,
        condition != "conflict"@ ==> stream_reason(condition) == ReasonView::StreamError(condition),
{
}

} // verus!
