//! Tests of the delays between attempts, and of what follows an attempt.

use fluux_agent::backoff::Backoff;
use fluux_agent::reconnect::{after_connection, reconnect_backoff, ConnectionEnd, ReconnectStep};
use fluux_agent::time::Duration;
use fluux_agent::xmpp::DisconnectReason;

#[test]
fn test_exponential_growth() {
    let mut b = Backoff::new(
        Duration::from_secs(2),
        Duration::from_secs(60),
        2,
    );
    assert_eq!(b.next_delay(), Duration::from_secs(2));
    assert_eq!(b.next_delay(), Duration::from_secs(4));
    assert_eq!(b.next_delay(), Duration::from_secs(8));
    assert_eq!(b.next_delay(), Duration::from_secs(16));
    assert_eq!(b.next_delay(), Duration::from_secs(32));
}

#[test]
fn test_max_delay_cap() {
    let mut b = Backoff::new(
        Duration::from_secs(2),
        Duration::from_secs(10),
        2,
    );
    assert_eq!(b.next_delay(), Duration::from_secs(2));
    assert_eq!(b.next_delay(), Duration::from_secs(4));
    assert_eq!(b.next_delay(), Duration::from_secs(8));
    // 8 * 2 = 16, capped at 10
    assert_eq!(b.next_delay(), Duration::from_secs(10));
    assert_eq!(b.next_delay(), Duration::from_secs(10));
    assert_eq!(b.next_delay(), Duration::from_secs(10));
}

#[test]
fn test_reset() {
    let mut b = Backoff::new(
        Duration::from_secs(2),
        Duration::from_secs(60),
        2,
    );
    b.next_delay(); // 2
    b.next_delay(); // 4
    b.next_delay(); // 8
    assert_eq!(b.attempt, 3);

    b.reset();
    assert_eq!(b.attempt, 0);
    assert_eq!(b.next_delay(), Duration::from_secs(2));
    assert_eq!(b.attempt, 1);
}

#[test]
fn test_exceeded_max_attempts() {
    let mut b = Backoff::new(
        Duration::from_secs(1),
        Duration::from_secs(60),
        2,
    );
    assert!(!b.exceeded_max_attempts(3));
    b.next_delay();
    assert!(!b.exceeded_max_attempts(3));
    b.next_delay();
    assert!(!b.exceeded_max_attempts(3));
    b.next_delay();
    assert!(b.exceeded_max_attempts(3));
}

#[test]
fn test_attempt_counter() {
    let mut b = Backoff::new(
        Duration::from_secs(1),
        Duration::from_secs(60),
        2,
    );
    assert_eq!(b.attempt, 0);
    b.next_delay();
    assert_eq!(b.attempt, 1);
    b.next_delay();
    assert_eq!(b.attempt, 2);
}

#[test]
fn test_multiplier_three() {
    let mut b = Backoff::new(
        Duration::from_secs(1),
        Duration::from_secs(100),
        3,
    );
    assert_eq!(b.next_delay(), Duration::from_secs(1));
    assert_eq!(b.next_delay(), Duration::from_secs(3));
    assert_eq!(b.next_delay(), Duration::from_secs(9));
    assert_eq!(b.next_delay(), Duration::from_secs(27));
    assert_eq!(b.next_delay(), Duration::from_secs(81));
    // 81 * 3 = 243, capped at 100
    assert_eq!(b.next_delay(), Duration::from_secs(100));
}

fn refused(retriable: bool) -> ConnectionEnd {
    ConnectionEnd::Refused { error: "no route".to_string(), retriable }
}

fn ended(reason: DisconnectReason, secs: u64) -> ConnectionEnd {
    ConnectionEnd::Ended { reason, lasted: Duration::from_secs(secs) }
}

fn waits(step: ReconnectStep) -> Duration {
    match step {
        ReconnectStep::Wait(d) => d,
        ReconnectStep::Exit(e) => panic!("gave up: {:?}", e.causes),
    }
}

fn gives_up(step: ReconnectStep) -> String {
    match step {
        ReconnectStep::Wait(_) => panic!("should give up"),
        ReconnectStep::Exit(e) => e.causes[0].clone(),
    }
}

#[test]
fn delays_grow_as_powers_up_to_the_longest() {
    let mut b = Backoff::new(Duration::from_secs(1), Duration::from_secs(1000), 5);
    let secs: Vec<u64> = (0..6).map(|_| b.next_delay().as_secs()).collect();
    assert_eq!(secs, vec![1, 5, 25, 125, 625, 1000]);
}

#[test]
fn a_first_delay_may_be_longer_than_the_longest() {
    let mut b = Backoff::new(Duration::from_secs(9), Duration::from_secs(3), 1);
    assert_eq!(b.next_delay(), Duration::from_secs(9));
    assert_eq!(b.next_delay(), Duration::from_secs(3));
}

#[test]
fn failing_attempts_end_after_twenty() {
    let mut b = reconnect_backoff();
    let mut total = 0;
    for _ in 0..20 {
        total += waits(after_connection(&mut b, &refused(true))).as_secs();
    }
    assert_eq!(total, 2 + 4 + 8 + 16 + 32 + 15 * 60);
    assert_eq!(
        gives_up(after_connection(&mut b, &refused(true))),
        "Max reconnection attempts (20) exceeded"
    );
}

#[test]
fn a_permanent_error_ends_at_once() {
    let mut b = reconnect_backoff();
    assert_eq!(gives_up(after_connection(&mut b, &refused(false))), "Cannot connect: no route");
    assert_eq!(b.attempt, 0);
}

#[test]
fn a_conflict_ends_at_once() {
    let mut b = reconnect_backoff();
    assert_eq!(
        gives_up(after_connection(&mut b, &ended(DisconnectReason::Conflict, 3600))),
        "Session replaced by another client (conflict)"
    );
}

#[test]
fn a_stable_connection_starts_the_delays_again() {
    let mut b = reconnect_backoff();
    for _ in 0..4 {
        after_connection(&mut b, &refused(true));
    }
    let short = after_connection(&mut b, &ended(DisconnectReason::ConnectionLost, 59));
    assert_eq!(waits(short), Duration::from_secs(32));
    let reason = DisconnectReason::StreamError("shutdown".to_string());
    let stable = after_connection(&mut b, &ended(reason, 60));
    assert_eq!(waits(stable), Duration::from_secs(2));
    assert_eq!(b.attempt, 1);
}
