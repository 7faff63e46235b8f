//! Delays that grow from one failure to the next.

use crate::time::{Duration, MAX_NANOS};
use vstd::arithmetic::power::pow;
use vstd::prelude::*;

verus! {

/// The delay before the next attempt, and how many attempts there were.
#[derive(Debug, Clone, Copy)]
pub struct Backoff {
    pub initial_delay: Duration,
    pub max_delay: Duration,
    pub multiplier: u32,
    pub current_delay: Duration,
    /// How many attempts there were since the last reset.
    pub attempt: u32,
}

/// The shorter of two spans.
pub open spec fn shorter(a: nat, b: nat) -> nat {
    if a <= b {
        a
    } else {
        b
    }
}

impl Backoff {
    /// Delays from the initial one on, each the multiple of the one before,
    /// up to the longest.
    pub fn new(initial_delay: Duration, max_delay: Duration, multiplier: u32) -> (r: Self)
        ensures
            r == (Backoff {
                initial_delay,
                max_delay,
                multiplier,
                current_delay: initial_delay,
                attempt: 0,
            }),
    {
        Backoff { initial_delay, max_delay, multiplier, current_delay: initial_delay, attempt: 0 }
    }

    /// The state after a delay was taken.
    pub open spec fn advanced(self) -> Backoff {
        Backoff {
            current_delay: Duration {
                nanos: shorter(
                    (self.current_delay.nanos * self.multiplier) as nat,
                    self.max_delay.nanos as nat,
                ) as u128,
            },
            attempt: (self.attempt + 1) as u32,
            ..self
        }
    }

    /// Whether a delay can be taken: the next one is a span, and the attempts
    /// can be counted.
    pub open spec fn can_advance(self) -> bool {
        self.current_delay.nanos * self.multiplier <= MAX_NANOS && self.attempt < u32::MAX
    }

    /// The current delay; the next one is longer.
    pub fn next_delay(&mut self) -> (r: Duration)
        requires
            old(self).can_advance(),
        ensures
            r == old(self).current_delay,
            *final(self) == old(self).advanced(),
    {
        let delay = self.current_delay;
        self.attempt = self.attempt + 1;
        let grown: u128 = self.current_delay.nanos * self.multiplier as u128;
        self.current_delay = Duration {
            nanos: if grown <= self.max_delay.nanos {
                grown
            } else {
                self.max_delay.nanos
            },
        };
        delay
    }

    /// Starts again with the initial delay.
    pub fn reset(&mut self)
        ensures
            *final(self) == (Backoff {
                current_delay: old(self).initial_delay,
                attempt: 0,
                ..*old(self)
            }),
    {
        self.current_delay = self.initial_delay;
        self.attempt = 0;
    }

    /// Whether there were as many attempts as `max`.
    pub fn exceeded_max_attempts(&self, max: u32) -> (r: bool)
        ensures
            r == (self.attempt >= max),
    {
        self.attempt >= max
    }
}

/// The delay of the attempt with index `n` after a start or a reset, in
/// nanoseconds.
pub open spec fn nth_delay(initial: nat, max: nat, multiplier: nat, n: nat) -> nat
    decreases n,
{
    if n == 0 {
        initial
    } else {
        shorter(nth_delay(initial, max, multiplier, (n - 1) as nat) * multiplier, max)
    }
}

/// The state of a backoff after `n` delays were taken from it.
pub open spec fn after_delays(b: Backoff, n: nat) -> Backoff
    decreases n,
{
    if n == 0 {
        b
    } else {
        after_delays(b, (n - 1) as nat).advanced()
    }
}

/// The delays of a new backoff are those of [`nth_delay`].
pub proof fn delays_follow_the_rule(b: Backoff, n: nat)
    requires
        b.current_delay == b.initial_delay,
        b.attempt == 0,
        n <= u32::MAX,
    ensures
        after_delays(b, n).current_delay.nanos == nth_delay(
            b.initial_delay.nanos as nat,
            b.max_delay.nanos as nat,
            b.multiplier as nat,
            n,
        ),
        after_delays(b, n).attempt == n,
        after_delays(b, n).max_delay == b.max_delay,
        after_delays(b, n).multiplier == b.multiplier,
    decreases n,
{
    if n > 0 {
        delays_follow_the_rule(b, (n - 1) as nat);
        let before = after_delays(b, (n - 1) as nat);
        assert(before.current_delay.nanos * b.multiplier >= 0) by (nonlinear_arith);
    }
}

/// The delay grows as a power of the multiplier until it reaches the longest.
pub proof fn delays_grow_as_powers(initial: nat, max: nat, multiplier: nat, n: nat)
    requires
        n > 0,
    ensures
        nth_delay(initial, max, multiplier, n) == shorter(
            (initial * pow(multiplier as int, n)) as nat,
            max,
        ),
    decreases n,
{
    let m = multiplier as int;
    vstd::arithmetic::power::lemma_pow0(m);
    vstd::arithmetic::power::lemma_pow1(m);
    if n == 1 {
        assert(nth_delay(initial, max, multiplier, 0) == initial);
    } else {
        delays_grow_as_powers(initial, max, multiplier, (n - 1) as nat);
        let p = pow(m, (n - 1) as nat);
        assert(pow(m, n) == m * p) by {
            reveal(pow);
        }
        assert(p >= 0) by {
            lemma_pow_not_negative(multiplier, (n - 1) as nat);
        }
        let a = (initial * p) as nat;
        assert(initial * p >= 0) by (nonlinear_arith)
            requires
                p >= 0,
        ;
        assert(initial * (m * p) == (initial * p) * m) by (nonlinear_arith);
        assert(shorter(shorter(a, max) * multiplier, max) == shorter(a * multiplier, max)) by {
            if a > max && multiplier > 0 {
                assert(max * multiplier >= max) by (nonlinear_arith)
                    requires
                        multiplier > 0,
                ;
                assert(a * multiplier >= a) by (nonlinear_arith)
                    requires
                        multiplier > 0,
                ;
            } else if multiplier == 0 {
                assert(shorter(a, max) * multiplier == 0) by (nonlinear_arith)
                    requires
                        multiplier == 0,
                ;
                assert(a * multiplier == 0) by (nonlinear_arith)
                    requires
                        multiplier == 0,
                ;
            }
        }
    }
}

proof fn lemma_pow_not_negative(b: nat, e: nat)
    ensures
        pow(b as int, e) >= 0,
    decreases e,
{
    reveal(pow);
    if e > 0 {
        lemma_pow_not_negative(b, (e - 1) as nat);
        let p = pow(b as int, (e - 1) as nat);
        assert(b * p >= 0) by (nonlinear_arith)
            requires
                p >= 0,
        ;
    }
}

/// After the first, no delay is longer than the longest.
pub proof fn delays_are_bounded(initial: nat, max: nat, multiplier: nat, n: nat)
    requires
        n > 0 || initial <= max,
    ensures
        nth_delay(initial, max, multiplier, n) <= max,
{
}

/// Each delay is the multiple of the one before it, or the longest one where
/// that is shorter; taking it counts one attempt and changes nothing else.
pub proof fn a_delay_is_the_multiple_of_the_last(b: Backoff)
    requires
        b.can_advance(),
    ensures
        b.current_delay.nanos * b.multiplier <= b.max_delay.nanos
            ==> b.advanced().current_delay.nanos == b.current_delay.nanos * b.multiplier,
        b.current_delay.nanos * b.multiplier > b.max_delay.nanos ==> b.advanced().current_delay
            == b.max_delay,
        b.advanced().attempt == b.attempt + 1,
        b.advanced().initial_delay == b.initial_delay,
        b.advanced().max_delay == b.max_delay,
        b.advanced().multiplier == b.multiplier,
{
    assert(b.current_delay.nanos * b.multiplier >= 0) by (nonlinear_arith);
}

} // verus!
