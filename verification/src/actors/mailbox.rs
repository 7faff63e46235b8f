//! Sending to a bounded mailbox, and trying again.

use super::user_error::Failure;
use crate::config::Config;
use crate::time::{Duration, NANOS_PER_MILLI};
use vstd::arithmetic::power2::pow2;
use vstd::prelude::*;
use vstd::string::*;

verus! {

/// How sending to a mailbox with a time limit ended.
#[derive(Clone, Copy, PartialEq, Eq, Structural, Debug)]
pub enum SendOutcome {
    Sent,
    Closed,
    TimedOut,
}

/// The failure that a sender reports: `<name>_unavailable` where the mailbox
/// is closed, `<name>_busy` where it stayed full, none where the message went.
pub open spec fn send_failure(name: Seq<char>, outcome: SendOutcome) -> Option<Seq<char>> {
    match outcome {
        SendOutcome::Sent => None,
        SendOutcome::Closed => Some(name + "_unavailable"@),
        SendOutcome::TimedOut => Some(name + "_busy"@),
    }
}

/// The failure that a sender reports.
pub fn mailbox_failure(name: &str, outcome: SendOutcome) -> (r: Option<Failure>)
    ensures
        match send_failure(name@, outcome) {
            Some(code) => r is Some && r->0.deep_view() == seq![code],
            None => r is None,
        },
{
    match outcome {
        SendOutcome::Sent => None,
        SendOutcome::Closed => {
            let mut s = name.to_owned();
            s.append("_unavailable");
            Some(Failure::new(s.as_str()))
        },
        SendOutcome::TimedOut => {
            let mut s = name.to_owned();
            s.append("_busy");
            Some(Failure::new(s.as_str()))
        },
    }
}

/// Whether this is what the caller of a lane gets: the lane's failure where
/// the request did not get into it, or where it ended without a reply; else
/// the reply.
pub open spec fn lane_gave<T>(
    name: Seq<char>,
    outcome: SendOutcome,
    reply: Option<Result<T, Failure>>,
    r: Result<T, Failure>,
) -> bool {
    match send_failure(name, outcome) {
        Some(code) => r is Err && r->Err_0.deep_view() == seq![code],
        None => match reply {
            None => r is Err && r->Err_0.deep_view() == seq![name + "_unavailable"@],
            Some(x) => r == x,
        },
    }
}

/// What the caller of a lane gets.
pub fn lane_result<T>(name: &str, outcome: SendOutcome, reply: Option<Result<T, Failure>>) -> (r:
    Result<T, Failure>)
    ensures
        lane_gave(name@, outcome, reply, r),
{
    match mailbox_failure(name, outcome) {
        Some(e) => Err(e),
        None => match reply {
            None => {
                let mut s = name.to_owned();
                s.append("_unavailable");
                Err(Failure::new(s.as_str()))
            },
            Some(x) => x,
        },
    }
}

/// The settings of a lane of a session.
#[derive(Clone, Copy, PartialEq, Eq, Structural, Debug)]
pub struct LaneSettings {
    pub enqueue_timeout: Duration,
    pub mailbox_size: usize,
}

/// Whether these are the settings of a session's lanes: at least a millisecond
/// to enqueue, at least one place.
pub open spec fn session_lane(config: Config, r: LaneSettings) -> bool {
    &&& r.enqueue_timeout.nanos == (if config.actors.tooling.skill_queue_timeout_ms == 0 {
        1
    } else {
        config.actors.tooling.skill_queue_timeout_ms
    }) * NANOS_PER_MILLI
    &&& r.mailbox_size == (if config.actors.session_mailbox == 0 {
        1
    } else {
        config.actors.session_mailbox
    })
}

/// The settings of a session's lanes.
pub fn session_lane_settings(config: &Config) -> (r: LaneSettings)
    ensures
        session_lane(*config, r),
{
    LaneSettings {
        enqueue_timeout: at_least_one_ms(config.actors.tooling.skill_queue_timeout_ms),
        mailbox_size: at_least_one(config.actors.session_mailbox),
    }
}

/// At least one millisecond.
pub fn at_least_one_ms(ms: u64) -> (r: Duration)
    ensures
        r.nanos == (if ms == 0 {
            1
        } else {
            ms
        }) * NANOS_PER_MILLI,
        r.wf(),
{
    Duration::from_millis(if ms == 0 {
        1
    } else {
        ms
    })
}

/// At least one.
pub fn at_least_one(n: usize) -> (r: usize)
    ensures
        r == if n == 0 {
            1
        } else {
            n
        },
{
    if n == 0 {
        1
    } else {
        n
    }
}

/// The milliseconds before the retry with this index: the base, doubled once
/// for each retry before it, sixteen times at most, and no more than `u64`
/// holds.
pub open spec fn retry_millis(base_ms: nat, retry_index: nat) -> nat {
    let doublings = if retry_index < 16 {
        retry_index
    } else {
        16
    };
    let delay = base_ms * pow2(doublings);
    if delay <= u64::MAX {
        delay
    } else {
        u64::MAX as nat
    }
}

/// Two to the power of `n`, for `n` up to sixteen.
pub fn power_of_two(n: u32) -> (r: u64)
    requires
        n <= 16,
    ensures
        r == pow2(n as nat),
{
    let mut r: u64 = 1;
    let mut i: u32 = 0;
    proof {
        vstd::arithmetic::power2::lemma2_to64();
    }
    while i < n
        invariant
            i <= n <= 16,
            r == pow2(i as nat),
            r <= 65536,
            pow2(16) == 65536,
        decreases n - i,
    {
        proof {
            vstd::arithmetic::power2::lemma_pow2_unfold((i + 1) as nat);
            if i + 1 < 16 {
                vstd::arithmetic::power2::lemma_pow2_strictly_increases((i + 1) as nat, 16);
            }
        }
        r = r * 2;
        i = i + 1;
    }
    r
}

/// The delay before the retry with this index.
pub fn retry_delay(base: Duration, retry_index: usize) -> (r: Duration)
    requires
        base.wf(),
    ensures
        r.nanos == retry_millis((base.nanos / NANOS_PER_MILLI) as nat, retry_index as nat)
            * NANOS_PER_MILLI,
        r.wf(),
{
    let base_ms: u128 = base.as_millis();
    let doublings: u32 = if retry_index < 16 {
        retry_index as u32
    } else {
        16
    };
    let factor: u64 = power_of_two(doublings);
    proof {
        vstd::arithmetic::power2::lemma2_to64();
        if doublings < 16 {
            vstd::arithmetic::power2::lemma_pow2_strictly_increases(doublings as nat, 16);
        }
        assert(base_ms * factor <= base_ms * 65536) by (nonlinear_arith)
            requires
                factor <= 65536,
        ;
    }
    let delay: u128 = base_ms * factor as u128;
    let ms: u64 = if delay <= u64::MAX as u128 {
        delay as u64
    } else {
        u64::MAX
    };
    Duration::from_millis(ms)
}

/// What is done after a try that failed.
#[derive(Clone, Copy, PartialEq, Eq, Structural, Debug)]
pub enum RetryStep {
    GiveUp,
    RetryAfter(Duration),
}

/// After the try with this index failed: another one while retries are left,
/// each after a longer delay.
pub fn after_failed_try(attempt: usize, max_retries: usize, base: Duration) -> (r: RetryStep)
    requires
        base.wf(),
    ensures
        match r {
            RetryStep::GiveUp => attempt >= max_retries,
            RetryStep::RetryAfter(d) => attempt < max_retries && d.nanos == retry_millis(
                (base.nanos / NANOS_PER_MILLI) as nat,
                attempt as nat,
            ) * NANOS_PER_MILLI,
        },
{
    if attempt >= max_retries {
        RetryStep::GiveUp
    } else {
        RetryStep::RetryAfter(retry_delay(base, attempt))
    }
}

/// A later retry never waits for a shorter time.
pub proof fn retries_slow_down(base_ms: nat, i: nat, j: nat)
    requires
        i <= j,
    ensures
        retry_millis(base_ms, i) <= retry_millis(base_ms, j),
{
    let a = if i < 16 {
        i
    } else {
        16
    };
    let b = if j < 16 {
        j
    } else {
        16
    };
    if a < b {
        vstd::arithmetic::power2::lemma_pow2_strictly_increases(a, b);
    }
    assert(base_ms * pow2(a) <= base_ms * pow2(b)) by (nonlinear_arith)
        requires
            pow2(a) <= pow2(b),
    ;
}

/// A lane that took a request hands on its reply as it is; one that is closed,
/// or that was dropped before it replied, is unavailable, and one that took too
/// long is busy, each under its name.
pub proof fn lanes_hand_on_replies<T>(
    name: Seq<char>,
    reply: Result<T, Failure>,
    r: Result<T, Failure>,
    late: Option<Result<T, Failure>>,
)
    ensures
        lane_gave(name, SendOutcome::Sent, Some(reply), r) <==> r == reply,
        lane_gave(name, SendOutcome::Sent, None::<Result<T, Failure>>, r) ==> r is Err
            && r->Err_0.deep_view() == seq![name + "_unavailable"@],
        lane_gave(name, SendOutcome::Closed, late, r) ==> r is Err && r->Err_0.deep_view() == seq![
            name + "_unavailable"@,
        ],
        lane_gave(name, SendOutcome::TimedOut, late, r) ==> r is Err && r->Err_0.deep_view()
            == seq![name + "_busy"@],
{
}

/// Only a request that was not taken fails to be sent.
pub proof fn only_what_is_not_taken_fails(name: Seq<char>, outcome: SendOutcome)
    ensures
        send_failure(name, outcome) is None <==> outcome == SendOutcome::Sent,
        outcome == SendOutcome::Closed ==> send_failure(name, outcome) == Some(
            name + "_unavailable"@,
        ),
        outcome == SendOutcome::TimedOut ==> send_failure(name, outcome) == Some(name + "_busy"@),
{
}

/// A lane of a session waits as long as is configured and holds as much, and
/// neither is ever nothing.
pub proof fn lanes_go_by_the_configuration(config: Config, r: LaneSettings)
    requires
        session_lane(config, r),
    ensures
        config.actors.tooling.skill_queue_timeout_ms > 0 ==> r.enqueue_timeout.nanos
            == config.actors.tooling.skill_queue_timeout_ms * 1_000_000,
        config.actors.tooling.skill_queue_timeout_ms == 0 ==> r.enqueue_timeout.nanos == 1_000_000,
        config.actors.session_mailbox > 0 ==> r.mailbox_size == config.actors.session_mailbox,
        config.actors.session_mailbox == 0 ==> r.mailbox_size == 1,
{
}

/// The first retry waits for the base delay and each one after it twice as long
/// as the one before, up to the sixteenth doubling and as far as `u64` goes.
pub proof fn retries_double_their_delay(base_ms: nat, i: nat)
    requires
        2 * retry_millis(base_ms, i) <= u64::MAX,
    ensures
        base_ms <= u64::MAX ==> retry_millis(base_ms, 0) == base_ms,
        i < 16 ==> retry_millis(base_ms, i + 1) == 2 * retry_millis(base_ms, i),
        i >= 16 ==> retry_millis(base_ms, i) == retry_millis(base_ms, 16),
{
    vstd::arithmetic::power2::lemma2_to64();
    assert(base_ms * pow2(0) == base_ms) by (nonlinear_arith)
        requires
            pow2(0) == 1,
    ;
    if i < 16 {
        vstd::arithmetic::power2::lemma_pow2_unfold(i + 1);
        assert(base_ms * pow2(i + 1) == 2 * (base_ms * pow2(i))) by (nonlinear_arith)
            requires
                pow2(i + 1) == 2 * pow2(i),
        ;
    }
}

} // verus!
