//! What is done when a connection has ended or could not be made.

use crate::actors::user_error::Failure;
use crate::backoff::Backoff;
use crate::text::{decimal, number};
use crate::time::{Duration, NANOS_PER_SEC};
use crate::xmpp::DisconnectReason;
use vstd::prelude::*;
use vstd::string::*;

verus! {

/// How long a connection has to be up before it counts as stable, in seconds.
pub const STABILITY_THRESHOLD_SECS: u64 = 60;

/// How many attempts in a row may fail before the agent gives up.
pub const MAX_RECONNECT_ATTEMPTS: u32 = 20;

/// How an attempt to connect ended.
#[derive(Debug)]
pub enum ConnectionEnd {
    /// There was a connection, for so long, until it ended for this reason.
    Ended { reason: DisconnectReason, lasted: Duration },
    /// There was none, and whether it makes sense to try again.
    Refused { error: String, retriable: bool },
}

/// What is done next.
#[derive(Debug)]
pub enum ReconnectStep {
    Wait(Duration),
    Exit(Failure),
}

/// The delays between attempts: from two seconds on, each twice the one
/// before, up to a minute.
pub fn reconnect_backoff() -> (r: Backoff)
    ensures
        r.initial_delay.nanos == 2 * NANOS_PER_SEC,
        r.max_delay.nanos == 60 * NANOS_PER_SEC,
        r.multiplier == 2,
        r.current_delay == r.initial_delay,
        r.attempt == 0,
        is_reconnect_backoff(r),
{
    Backoff::new(Duration::from_secs(2), Duration::from_secs(60), 2)
}

/// Whether these are the delays between attempts, whatever came before.
pub open spec fn is_reconnect_backoff(b: Backoff) -> bool {
    &&& b.initial_delay.nanos == 2 * NANOS_PER_SEC
    &&& b.max_delay.nanos == 60 * NANOS_PER_SEC
    &&& b.multiplier == 2
    &&& 2 * NANOS_PER_SEC <= b.current_delay.nanos <= 60 * NANOS_PER_SEC
}

/// Why the agent gives up, where it does: another client has taken its place,
/// the connection cannot be made at all, or too many attempts have failed.
pub open spec fn gives_up(end: ConnectionEnd, attempts: u32) -> Option<Seq<char>> {
    match end {
        ConnectionEnd::Ended { reason: DisconnectReason::Conflict, .. } => Some(
            "Session replaced by another client (conflict)"@,
        ),
        ConnectionEnd::Ended { .. } => None,
        ConnectionEnd::Refused { error, retriable } => if !retriable {
            Some("Cannot connect: "@ + error@)
        } else if attempts >= MAX_RECONNECT_ATTEMPTS {
            Some(
                "Max reconnection attempts ("@ + decimal(MAX_RECONNECT_ATTEMPTS as nat)
                    + ") exceeded"@,
            )
        } else {
            None
        },
    }
}

/// Whether a connection was up for long enough.
pub open spec fn was_stable(end: ConnectionEnd) -> bool {
    end matches ConnectionEnd::Ended { lasted, .. } && lasted.nanos >= STABILITY_THRESHOLD_SECS
        * NANOS_PER_SEC
}

/// The delays from which the next one is taken: from the start again after a
/// connection that was stable.
pub open spec fn before_wait(b: Backoff, end: ConnectionEnd) -> Backoff {
    if was_stable(end) {
        Backoff { current_delay: b.initial_delay, attempt: 0, ..b }
    } else {
        b
    }
}

/// What is done after an attempt to connect.
pub fn after_connection(backoff: &mut Backoff, end: &ConnectionEnd) -> (r: ReconnectStep)
    requires
        is_reconnect_backoff(*old(backoff)),
        old(backoff).attempt < u32::MAX,
    ensures
        is_reconnect_backoff(*final(backoff)),
        match gives_up(*end, old(backoff).attempt) {
            Some(why) => {
                &&& r is Exit
                &&& r->Exit_0.deep_view() == seq![why]
                &&& *final(backoff) == *old(backoff)
            },
            None => {
                &&& r is Wait
                &&& r->Wait_0 == before_wait(*old(backoff), *end).current_delay
                &&& *final(backoff) == before_wait(*old(backoff), *end).advanced()
            },
        },
{
    match end {
        ConnectionEnd::Ended { reason, lasted } => {
            if let DisconnectReason::Conflict = reason {
                return ReconnectStep::Exit(
                    Failure::new("Session replaced by another client (conflict)"),
                );
            }
            if lasted.nanos >= STABILITY_THRESHOLD_SECS as u128 * NANOS_PER_SEC {
                backoff.reset();
            }
        },
        ConnectionEnd::Refused { error, retriable } => {
            if !*retriable {
                let mut s = "Cannot connect: ".to_owned();
                s.append(error.as_str());
                return ReconnectStep::Exit(Failure::new(s.as_str()));
            }
            if backoff.exceeded_max_attempts(MAX_RECONNECT_ATTEMPTS) {
                let mut s = "Max reconnection attempts (".to_owned();
                s.append(number(MAX_RECONNECT_ATTEMPTS as u64).as_str());
                s.append(") exceeded");
                return ReconnectStep::Exit(Failure::new(s.as_str()));
            }
        },
    }
    ReconnectStep::Wait(backoff.next_delay())
}

// ---- laws --------------------------------------------------------------

/// An agent that was replaced never connects again.
pub proof fn a_conflict_is_final(lasted: Duration, attempts: u32)
    ensures
        gives_up(
            ConnectionEnd::Ended { reason: DisconnectReason::Conflict, lasted },
            attempts,
        ) is Some,
{
}

/// Attempts that fail come to an end: the one after the last that may fail
/// gives up.
pub proof fn failing_attempts_come_to_an_end(b: Backoff, error: String)
    requires
        is_reconnect_backoff(b),
        b.attempt < u32::MAX,
    ensures
        ({
            let end = ConnectionEnd::Refused { error, retriable: true };
            if b.attempt >= MAX_RECONNECT_ATTEMPTS {
                gives_up(end, b.attempt) is Some
            } else {
                before_wait(b, end).advanced().attempt == b.attempt + 1
            }
        }),
{
}

/// A connection that ended is made again, unless another client took its place;
/// one that was refused for good is not, nor is one that was refused after
/// twenty attempts, and before that it is tried again.
pub proof fn connections_are_made_again(
    lasted: Duration,
    condition: String,
    error: String,
    attempts: u32,
)
    ensures
        gives_up(
            ConnectionEnd::Ended { reason: DisconnectReason::ConnectionLost, lasted },
            attempts,
        ) is None,
        gives_up(
            ConnectionEnd::Ended { reason: DisconnectReason::StreamError(condition), lasted },
            attempts,
        ) is None,
        gives_up(ConnectionEnd::Refused { error, retriable: false }, attempts) == Some(
            "Cannot connect: "@ + error@,
        ),
        gives_up(ConnectionEnd::Refused { error, retriable: true }, attempts) is Some
            <==> attempts >= 20,
{
}

/// After a connection that lasted a minute the delays start over; after a
/// shorter one, or none, they go on from where they were.
pub proof fn a_stable_connection_starts_over(
    b: Backoff,
    reason: DisconnectReason,
    lasted: Duration,
    error: String,
)
    ensures
        ({
            let after = before_wait(b, ConnectionEnd::Ended { reason, lasted });
            if lasted.nanos >= 60_000_000_000 {
                &&& after.current_delay == b.initial_delay
                &&& after.attempt == 0
                &&& after.max_delay == b.max_delay && after.multiplier == b.multiplier
                    && after.initial_delay == b.initial_delay
            } else {
                after == b
            }
        }),
        before_wait(b, ConnectionEnd::Refused { error, retriable: true }) == b,
{
}

/// An agent that gives up says why: it was replaced, it cannot connect, or it
/// tried too often.
pub proof fn giving_up_is_explained(lasted: Duration, error: String, attempts: u32)
    requires
        attempts >= 20,
    ensures
        gives_up(ConnectionEnd::Ended { reason: DisconnectReason::Conflict, lasted }, attempts)
            == Some("Session replaced by another client (conflict)"@),
        gives_up(ConnectionEnd::Refused { error, retriable: true }, attempts) == Some(
            "Max reconnection attempts ("@ + decimal(20) + ") exceeded"@,
        ),
{
}

} // verus!
