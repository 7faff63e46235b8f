//! The router: which conversation has a session, what is turned away, which
//! sessions are evicted and which are started again.

use super::dead_letter::{DeadLetterRecord, DeadLetterSource, RecordView};
use super::mailbox::{at_least_one, power_of_two};
use super::types::{Envelope, SYSTEM_CONVERSATION_ID};
use crate::text::{decimal, number, same};
use crate::text_map::{deep_insert, deep_remove, TextMap};
use crate::time::{Duration, NANOS_PER_MILLI, NANOS_PER_SEC};
use crate::xmpp::{
    bare, bare_jid, text_command, text_to, CommandView, DisconnectReason, EventView, MessageType,
    ReasonView, XmppCommand, XmppEvent,
};
use vstd::arithmetic::power2::pow2;
use vstd::prelude::*;
use vstd::string::*;

verus! {

/// The settings of the router.
#[derive(Debug, Clone, Copy)]
pub struct RouterActor {
    pub session_mailbox: usize,
    pub max_active_sessions: usize,
    pub session_idle_ttl_secs: u64,
    pub busy_retry_after_secs: u64,
    pub restart_backoff_min_ms: u64,
    pub restart_backoff_max_ms: u64,
    pub max_restarts_per_minute: u64,
}

/// What is remembered of a session's failures.
#[derive(Debug)]
pub struct SessionRestartState {
    pub consecutive_failures: u32,
    /// When the session was started again, the earliest first.
    pub recent_restarts: Vec<Duration>,
}

/// The model of [`SessionRestartState`].
pub ghost struct RestartView {
    pub consecutive_failures: u32,
    pub recent_restarts: Seq<Duration>,
}

impl DeepView for SessionRestartState {
    type V = RestartView;

    open spec fn deep_view(&self) -> RestartView {
        RestartView {
            consecutive_failures: self.consecutive_failures,
            recent_restarts: self.recent_restarts@,
        }
    }
}

/// The sessions of the router: when each was last active, and what is
/// remembered of those that failed. Times count from the start of the router.
pub struct RouterState {
    pub sessions: TextMap<Duration>,
    pub restarts: TextMap<SessionRestartState>,
}

/// The model of [`RouterState`].
pub ghost struct RouterView {
    pub sessions: Map<Seq<char>, Duration>,
    pub restarts: Map<Seq<char>, RestartView>,
}

impl DeepView for RouterState {
    type V = RouterView;

    open spec fn deep_view(&self) -> RouterView {
        RouterView { sessions: self.sessions@, restarts: self.restarts.deep_view() }
    }
}

/// How offering an event to a session's mailbox ended.
#[derive(Clone, Copy, PartialEq, Eq, Structural, Debug)]
pub enum OfferOutcome {
    Taken,
    Full,
    Closed,
}

/// What the router learns of.
#[derive(Debug)]
pub enum RouterEvent {
    /// An event for a conversation has come in.
    Arrived { conversation_id: String },
    /// The event was offered to the session of the conversation.
    Offered { conversation_id: String, outcome: OfferOutcome },
    /// The delay before a session is started again is over.
    RestartDue { conversation_id: String },
    /// It is time to look for idle sessions.
    Sweep,
    /// A session has ended.
    Exited { conversation_id: String, reason: DisconnectReason },
    /// No more events will come in.
    IngressClosed,
}

/// What the router does about it.
#[derive(Debug)]
pub enum RouterAction {
    Nothing,
    /// Offers the event to the session that is there.
    Offer,
    /// Starts a session and offers it the event.
    StartAndOffer,
    /// Turns the event away, for this reason.
    TurnAway { reason: &'static str },
    /// Turns the event away and ends the session that did not take it.
    TurnAwayAndEnd { reason: &'static str },
    /// Starts the session of the conversation again.
    Start,
    /// Ends the sessions of these conversations.
    End { conversations: Vec<String> },
    /// Starts the session again after a delay.
    RestartAfter { delay: Duration },
    /// Leaves the session ended: it has been started again too often.
    RestartSuppressed,
    /// Stops the router.
    Stop { reason: DisconnectReason },
}

/// The model of [`RouterEvent`].
pub ghost enum RouterEventView {
    Arrived(Seq<char>),
    Offered(Seq<char>, OfferOutcome),
    RestartDue(Seq<char>),
    Sweep,
    Exited(Seq<char>, ReasonView),
    IngressClosed,
}

/// The model of [`RouterAction`].
pub ghost enum RouterActionView {
    Nothing,
    Offer,
    StartAndOffer,
    TurnAway(Seq<char>),
    TurnAwayAndEnd(Seq<char>),
    Start,
    End(Set<Seq<char>>),
    RestartAfter(Duration),
    RestartSuppressed,
    Stop(ReasonView),
}

impl DeepView for RouterEvent {
    type V = RouterEventView;

    open spec fn deep_view(&self) -> RouterEventView {
        match self {
            RouterEvent::Arrived { conversation_id } => RouterEventView::Arrived(conversation_id@),
            RouterEvent::Offered { conversation_id, outcome } => RouterEventView::Offered(
                conversation_id@,
                *outcome,
            ),
            RouterEvent::RestartDue { conversation_id } => RouterEventView::RestartDue(
                conversation_id@,
            ),
            RouterEvent::Sweep => RouterEventView::Sweep,
            RouterEvent::Exited { conversation_id, reason } => RouterEventView::Exited(
                conversation_id@,
                reason.deep_view(),
            ),
            RouterEvent::IngressClosed => RouterEventView::IngressClosed,
        }
    }
}

impl DeepView for RouterAction {
    type V = RouterActionView;

    open spec fn deep_view(&self) -> RouterActionView {
        match self {
            RouterAction::Nothing => RouterActionView::Nothing,
            RouterAction::Offer => RouterActionView::Offer,
            RouterAction::StartAndOffer => RouterActionView::StartAndOffer,
            RouterAction::TurnAway { reason } => RouterActionView::TurnAway(reason@),
            RouterAction::TurnAwayAndEnd { reason } => RouterActionView::TurnAwayAndEnd(reason@),
            RouterAction::Start => RouterActionView::Start,
            RouterAction::End { conversations } => RouterActionView::End(
                conversations.deep_view().to_set(),
            ),
            RouterAction::RestartAfter { delay } => RouterActionView::RestartAfter(*delay),
            RouterAction::RestartSuppressed => RouterActionView::RestartSuppressed,
            RouterAction::Stop { reason } => RouterActionView::Stop(reason.deep_view()),
        }
    }
}

// ---- restarts ----------------------------------------------------------

/// The time between two points, none where the second is the earlier one.
pub open spec fn time_since(now: Duration, then: Duration) -> int {
    if now.nanos > then.nanos {
        now.nanos - then.nanos
    } else {
        0
    }
}

/// The time between two points, none where the second is the earlier one.
pub fn elapsed(now: Duration, then: Duration) -> (r: u128)
    ensures
        r == time_since(now, then),
{
    if now.nanos > then.nanos {
        now.nanos - then.nanos
    } else {
        0
    }
}

/// The window in which restarts are counted, in nanoseconds: one minute.
pub const RESTART_WINDOW_NANOS: u128 = 60_000_000_000;

/// The restarts without the leading ones that lie before the window.
pub open spec fn in_window(restarts: Seq<Duration>, now: Duration) -> Seq<Duration>
    decreases restarts.len(),
{
    if restarts.len() > 0 && time_since(now, restarts[0]) > RESTART_WINDOW_NANOS {
        in_window(restarts.drop_first(), now)
    } else {
        restarts
    }
}

/// The delay of a restart in milliseconds: the shortest one, at least one,
/// doubled once for each failure before, sixteen times at most; never more
/// than the longest one, which is at least the shortest.
pub open spec fn restart_delay_ms(min_ms: u64, max_ms: u64, failures: u32) -> nat {
    let shortest: nat = if min_ms == 0 {
        1
    } else {
        min_ms as nat
    };
    let longest: nat = if max_ms < shortest {
        shortest
    } else {
        max_ms as nat
    };
    let doublings: nat = if failures < 16 {
        failures as nat
    } else {
        16
    };
    let delay = shortest * pow2(doublings);
    if delay < longest {
        delay
    } else {
        longest
    }
}

/// What is remembered of a session before its first failure.
pub open spec fn no_failures() -> RestartView {
    RestartView { consecutive_failures: 0, recent_restarts: Seq::empty() }
}

impl RouterActor {
    /// What is remembered of a conversation's failures.
    pub open spec fn remembered(
        restarts: Map<Seq<char>, RestartView>,
        id: Seq<char>,
        now: Duration,
    ) -> RestartView {
        let state = if restarts.contains_key(id) {
            restarts[id]
        } else {
            no_failures()
        };
        RestartView {
            consecutive_failures: state.consecutive_failures,
            recent_restarts: in_window(state.recent_restarts, now),
        }
    }

    /// Whether a session may be started again: the budget is not zero and the
    /// window does not hold that many restarts yet.
    pub open spec fn may_restart(
        self,
        restarts: Map<Seq<char>, RestartView>,
        id: Seq<char>,
        now: Duration,
    ) -> bool {
        self.max_restarts_per_minute > 0 && RouterActor::remembered(
            restarts,
            id,
            now,
        ).recent_restarts.len() < self.max_restarts_per_minute
    }

    /// What is remembered after the decision on a restart.
    pub open spec fn after_restart(
        self,
        restarts: Map<Seq<char>, RestartView>,
        id: Seq<char>,
        now: Duration,
    ) -> Map<Seq<char>, RestartView> {
        let state = RouterActor::remembered(restarts, id, now);
        if self.max_restarts_per_minute == 0 {
            restarts
        } else if !self.may_restart(restarts, id, now) {
            restarts.insert(id, state)
        } else {
            restarts.insert(
                id,
                RestartView {
                    consecutive_failures: if state.consecutive_failures < u32::MAX {
                        (state.consecutive_failures + 1) as u32
                    } else {
                        u32::MAX
                    },
                    recent_restarts: state.recent_restarts.push(now),
                },
            )
        }
    }

    /// The delay after which the session is started again.
    pub open spec fn restart_delay(
        self,
        restarts: Map<Seq<char>, RestartView>,
        id: Seq<char>,
        now: Duration,
    ) -> Duration {
        Duration {
            nanos: (restart_delay_ms(
                self.restart_backoff_min_ms,
                self.restart_backoff_max_ms,
                RouterActor::remembered(restarts, id, now).consecutive_failures,
            ) * NANOS_PER_MILLI) as u128,
        }
    }

    /// A router with the usual limits on restarts.
    pub fn new(
        session_mailbox: usize,
        max_active_sessions: usize,
        session_idle_ttl_secs: u64,
        busy_retry_after_secs: u64,
    ) -> (r: Self)
        ensures
            r == (RouterActor {
                session_mailbox,
                max_active_sessions,
                session_idle_ttl_secs,
                busy_retry_after_secs,
                restart_backoff_min_ms: 200,
                restart_backoff_max_ms: 10_000,
                max_restarts_per_minute: 60,
            }),
    {
        RouterActor::with_supervision(
            session_mailbox,
            max_active_sessions,
            session_idle_ttl_secs,
            busy_retry_after_secs,
            200,
            10_000,
            60,
        )
    }

    /// A router with limits of its own on restarts.
    pub fn with_supervision(
        session_mailbox: usize,
        max_active_sessions: usize,
        session_idle_ttl_secs: u64,
        busy_retry_after_secs: u64,
        restart_backoff_min_ms: u64,
        restart_backoff_max_ms: u64,
        max_restarts_per_minute: u64,
    ) -> (r: Self)
        ensures
            r == (RouterActor {
                session_mailbox,
                max_active_sessions,
                session_idle_ttl_secs,
                busy_retry_after_secs,
                restart_backoff_min_ms,
                restart_backoff_max_ms,
                max_restarts_per_minute,
            }),
    {
        RouterActor {
            session_mailbox,
            max_active_sessions,
            session_idle_ttl_secs,
            busy_retry_after_secs,
            restart_backoff_min_ms,
            restart_backoff_max_ms,
            max_restarts_per_minute,
        }
    }

    fn delay_for(&self, failures: u32) -> (r: Duration)
        ensures
            r.nanos == restart_delay_ms(
                self.restart_backoff_min_ms,
                self.restart_backoff_max_ms,
                failures,
            ) * NANOS_PER_MILLI,
    {
        let shortest: u64 = if self.restart_backoff_min_ms == 0 {
            1
        } else {
            self.restart_backoff_min_ms
        };
        let longest: u64 = if self.restart_backoff_max_ms < shortest {
            shortest
        } else {
            self.restart_backoff_max_ms
        };
        let doublings: u32 = if failures < 16 {
            failures
        } else {
            16
        };
        let factor: u64 = power_of_two(doublings);
        proof {
            vstd::arithmetic::power2::lemma2_to64();
            if doublings < 16 {
                vstd::arithmetic::power2::lemma_pow2_strictly_increases(doublings as nat, 16);
            }
            assert(shortest * factor <= u64::MAX * 65536) by (nonlinear_arith)
                requires
                    factor <= 65536,
                    shortest <= u64::MAX,
            ;
        }
        let delay: u128 = shortest as u128 * factor as u128;
        let ms: u64 = if delay < longest as u128 {
            delay as u64
        } else {
            longest
        };
        Duration::from_millis(ms)
    }

    /// Decides whether a session that failed is started again, and after which
    /// delay.
    pub fn next_restart_delay(
        &self,
        conversation_id: &str,
        restart_state: &mut TextMap<SessionRestartState>,
        now: Duration,
    ) -> (r: Option<Duration>)
        ensures
            final(restart_state).deep_view() == self.after_restart(
                old(restart_state).deep_view(),
                conversation_id@,
                now,
            ),
            r == if self.may_restart(old(restart_state).deep_view(), conversation_id@, now) {
                Some(
                    self.restart_delay(old(restart_state).deep_view(), conversation_id@, now),
                )
            } else {
                None
            },
    {
        if self.max_restarts_per_minute == 0 {
            return None;
        }
        let ghost before = restart_state.deep_view();
        let ghost id = conversation_id@;
        proof {
            deep_remove(restart_state@, id);
        }
        let mut state = match restart_state.remove(conversation_id) {
            Some(s) => s,
            None => SessionRestartState { consecutive_failures: 0, recent_restarts: Vec::new() },
        };
        let ghost wanted = RouterActor::remembered(before, id, now);
        while state.recent_restarts.len() > 0 && elapsed(now, state.recent_restarts[0])
            > RESTART_WINDOW_NANOS
            invariant
                wanted.recent_restarts == in_window(state.recent_restarts@, now),
                state.consecutive_failures == wanted.consecutive_failures,
            decreases state.recent_restarts@.len(),
        {
            let ghost list = state.recent_restarts@;
            let _ = state.recent_restarts.remove(0);
            assert(state.recent_restarts@ =~= list.drop_first());
        }
        assert(state.deep_view() == wanted);
        if state.recent_restarts.len() as u64 >= self.max_restarts_per_minute {
            proof {
                deep_insert(restart_state@, id, state);
            }
            restart_state.insert(conversation_id.to_owned(), state);
            assert(before.remove(id).insert(id, wanted) =~= before.insert(id, wanted));
            return None;
        }
        let delay = self.delay_for(state.consecutive_failures);
        if state.consecutive_failures < u32::MAX {
            state.consecutive_failures = state.consecutive_failures + 1;
        }
        state.recent_restarts.push(now);
        let ghost after = state.deep_view();
        proof {
            deep_insert(restart_state@, id, state);
        }
        restart_state.insert(conversation_id.to_owned(), state);
        assert(before.remove(id).insert(id, after) =~= before.insert(id, after));
        Some(delay)
    }
}

// ---- one step ----------------------------------------------------------

impl RouterActor {
    /// How many sessions there may be: at least one.
    pub open spec fn capacity(self) -> nat {
        if self.max_active_sessions == 0 {
            1
        } else {
            self.max_active_sessions as nat
        }
    }

    /// How long a session may be idle, in nanoseconds: at least a second.
    pub open spec fn idle_limit(self) -> nat {
        ((if self.session_idle_ttl_secs == 0 {
            1
        } else {
            self.session_idle_ttl_secs
        }) * NANOS_PER_SEC) as nat
    }

    /// The conversations whose session has been idle for too long; the system
    /// conversation never is among them.
    pub open spec fn idle(self, sessions: Map<Seq<char>, Duration>, now: Duration) -> Set<
        Seq<char>,
    > {
        sessions.dom().filter(
            |id: Seq<char>|
                id != SYSTEM_CONVERSATION_ID@ && time_since(now, sessions[id])
                    >= self.idle_limit(),
        )
    }

    /// What the router does about an event, and the sessions it has then.
    pub open spec fn stepped(self, state: RouterView, event: RouterEventView, now: Duration) -> (
        RouterView,
        RouterActionView,
    ) {
        let sessions = state.sessions;
        let full = sessions.dom().len() >= self.capacity();
        match event {
            RouterEventView::Arrived(id) => if sessions.contains_key(id) {
                (state, RouterActionView::Offer)
            } else if full && id != SYSTEM_CONVERSATION_ID@ {
                (state, RouterActionView::TurnAway("max_active_sessions_reached"@))
            } else {
                (
                    RouterView { sessions: sessions.insert(id, now), ..state },
                    RouterActionView::StartAndOffer,
                )
            },
            RouterEventView::Offered(id, outcome) => if !sessions.contains_key(id) {
                (state, RouterActionView::TurnAway("session_missing"@))
            } else {
                match outcome {
                    OfferOutcome::Taken => (
                        RouterView {
                            sessions: sessions.insert(id, now),
                            restarts: state.restarts.remove(id),
                        },
                        RouterActionView::Nothing,
                    ),
                    OfferOutcome::Full => (
                        state,
                        RouterActionView::TurnAway("session_mailbox_full"@),
                    ),
                    OfferOutcome::Closed => (
                        RouterView { sessions: sessions.remove(id), ..state },
                        RouterActionView::TurnAwayAndEnd("session_mailbox_closed"@),
                    ),
                }
            },
            RouterEventView::RestartDue(id) => if id == SYSTEM_CONVERSATION_ID@
                || sessions.contains_key(id) || full {
                (state, RouterActionView::Nothing)
            } else {
                (
                    RouterView { sessions: sessions.insert(id, now), ..state },
                    RouterActionView::Start,
                )
            },
            RouterEventView::Sweep => (
                RouterView { sessions: sessions.remove_keys(self.idle(sessions, now)), ..state },
                RouterActionView::End(self.idle(sessions, now)),
            ),
            RouterEventView::Exited(id, reason) => {
                let left = sessions.remove(id);
                if id == SYSTEM_CONVERSATION_ID@ {
                    (RouterView { sessions: left, ..state }, RouterActionView::Stop(reason))
                } else if reason is ConnectionLost {
                    (
                        RouterView {
                            sessions: left,
                            restarts: self.after_restart(state.restarts, id, now),
                        },
                        if self.may_restart(state.restarts, id, now) {
                            RouterActionView::RestartAfter(
                                self.restart_delay(state.restarts, id, now),
                            )
                        } else {
                            RouterActionView::RestartSuppressed
                        },
                    )
                } else {
                    (
                        RouterView { sessions: left, restarts: state.restarts.remove(id) },
                        RouterActionView::Nothing,
                    )
                }
            },
            RouterEventView::IngressClosed => (
                state,
                RouterActionView::Stop(ReasonView::ConnectionLost),
            ),
        }
    }

    /// The router before its first event.
    pub fn start() -> (r: RouterState)
        ensures
            r.deep_view() == (RouterView { sessions: Map::empty(), restarts: Map::empty() }),
    {
        let r = RouterState { sessions: TextMap::new(), restarts: TextMap::new() };
        assert(r.restarts.deep_view() =~= Map::empty());
        r
    }

    fn at_capacity(&self, state: &RouterState) -> (r: bool)
        ensures
            r == (state.deep_view().sessions.dom().len() >= self.capacity()),
    {
        state.sessions.len() >= at_least_one(self.max_active_sessions)
    }

    fn arrived(&self, state: &mut RouterState, id: &str, now: Duration) -> (r: RouterAction)
        ensures
            (final(state).deep_view(), r.deep_view()) == self.stepped(
                old(state).deep_view(),
                RouterEventView::Arrived(id@),
                now,
            ),
    {
        if state.sessions.contains_key(id) {
            RouterAction::Offer
        } else if self.at_capacity(state) && !same(id, SYSTEM_CONVERSATION_ID) {
            RouterAction::TurnAway { reason: "max_active_sessions_reached" }
        } else {
            state.sessions.insert(id.to_owned(), now);
            RouterAction::StartAndOffer
        }
    }

    fn offered(&self, state: &mut RouterState, id: &str, outcome: OfferOutcome, now: Duration) -> (r:
        RouterAction)
        ensures
            (final(state).deep_view(), r.deep_view()) == self.stepped(
                old(state).deep_view(),
                RouterEventView::Offered(id@, outcome),
                now,
            ),
    {
        if !state.sessions.contains_key(id) {
            return RouterAction::TurnAway { reason: "session_missing" };
        }
        match outcome {
            OfferOutcome::Taken => {
                proof {
                    deep_remove(state.restarts@, id@);
                }
                state.sessions.insert(id.to_owned(), now);
                let _ = state.restarts.remove(id);
                RouterAction::Nothing
            },
            OfferOutcome::Full => RouterAction::TurnAway { reason: "session_mailbox_full" },
            OfferOutcome::Closed => {
                let _ = state.sessions.remove(id);
                RouterAction::TurnAwayAndEnd { reason: "session_mailbox_closed" }
            },
        }
    }

    fn restart_due(&self, state: &mut RouterState, id: &str, now: Duration) -> (r: RouterAction)
        ensures
            (final(state).deep_view(), r.deep_view()) == self.stepped(
                old(state).deep_view(),
                RouterEventView::RestartDue(id@),
                now,
            ),
    {
        if same(id, SYSTEM_CONVERSATION_ID) || state.sessions.contains_key(id)
            || self.at_capacity(state) {
            RouterAction::Nothing
        } else {
            state.sessions.insert(id.to_owned(), now);
            RouterAction::Start
        }
    }

    fn idle_nanos(&self) -> (r: u128)
        ensures
            r == self.idle_limit(),
    {
        let secs: u64 = if self.session_idle_ttl_secs == 0 {
            1
        } else {
            self.session_idle_ttl_secs
        };
        secs as u128 * NANOS_PER_SEC
    }

    /// How often idle sessions are looked for, in seconds: as often as they
    /// may be idle, but at least once a minute.
    pub fn sweep_secs(&self) -> (r: u64)
        ensures
            r == if self.session_idle_ttl_secs == 0 {
                1
            } else if self.session_idle_ttl_secs > 60 {
                60
            } else {
                self.session_idle_ttl_secs
            },
    {
        if self.session_idle_ttl_secs == 0 {
            1
        } else if self.session_idle_ttl_secs > 60 {
            60
        } else {
            self.session_idle_ttl_secs
        }
    }

    /// Takes the sessions that have been idle for too long out of the state.
    pub fn evict_idle_sessions(&self, state: &mut RouterState, now: Duration) -> (r: Vec<String>)
        ensures
            final(state).deep_view() == (RouterView {
                sessions: old(state).deep_view().sessions.remove_keys(
                    self.idle(old(state).deep_view().sessions, now),
                ),
                ..old(state).deep_view()
            }),
            r.deep_view().to_set() == self.idle(old(state).deep_view().sessions, now),
            r.deep_view().no_duplicates(),
    {
        let limit: u128 = self.idle_nanos();
        let ghost before = state.sessions@;
        let ghost restarts = state.restarts.deep_view();
        let ghost idle = self.idle(before, now);
        let keys = state.sessions.keys();
        let ghost all = keys.deep_view();
        let ghost mut gone: Set<Seq<char>> = Set::empty();
        let mut out: Vec<String> = Vec::new();
        let mut i: usize = 0;
        assert(before.remove_keys(gone) =~= before);
        assert(out.deep_view().to_set() =~= gone);
        while i < keys.len()
            invariant
                all == keys.deep_view(),
                all.no_duplicates(),
                all.to_set() == before.dom(),
                limit == self.idle_limit(),
                idle == self.idle(before, now),
                0 <= i <= keys@.len(),
                state.restarts.deep_view() == restarts,
                forall|k: Seq<char>|
                    #[trigger] gone.contains(k) <==> idle.contains(k) && exists|j: int|
                        0 <= j < i && #[trigger] all[j] == k,
                state.sessions@ == before.remove_keys(gone),
                out.deep_view().to_set() == gone,
                out.deep_view().no_duplicates(),
            decreases keys@.len() - i,
        {
            let ghost id = all[i as int];
            assert(all.to_set().contains(id));
            assert(!gone.contains(id));
            assert(state.sessions@.contains_key(id) && state.sessions@[id] == before[id]);
            let last = match state.sessions.get(keys[i].as_str()) {
                Some(t) => *t,
                None => now,
            };
            let is_idle = !same(keys[i].as_str(), SYSTEM_CONVERSATION_ID) && elapsed(now, last)
                >= limit;
            assert(is_idle == idle.contains(id));
            if is_idle {
                let ghost list = out.deep_view();
                let ghost so_far = gone;
                let _ = state.sessions.remove(keys[i].as_str());
                out.push(keys[i].clone());
                proof {
                    gone = gone.insert(id);
                    assert(before.remove_keys(so_far).remove(id) =~= before.remove_keys(gone));
                    assert(out.deep_view() =~= list.push(id));
                    lemma_set_of_push(list, id);
                    assert(!list.contains(id)) by {
                        assert(!list.to_set().contains(id));
                    }
                }
            }
            assert forall|k: Seq<char>| #[trigger] gone.contains(k) implies exists|j: int|
                0 <= j < i + 1 && #[trigger] all[j] == k by {
                if k == id {
                    assert(all[i as int] == k);
                }
            }
            i = i + 1;
        }
        assert(gone =~= idle) by {
            assert forall|k: Seq<char>| idle.contains(k) implies gone.contains(k) by {
                assert(all.to_set().contains(k));
                let j = choose|j: int| 0 <= j < all.len() && all[j] == k;
                assert(all[j] == k);
            }
        }
        out
    }

    fn exited(&self, state: &mut RouterState, id: &str, reason: DisconnectReason, now: Duration) -> (r:
        RouterAction)
        ensures
            (final(state).deep_view(), r.deep_view()) == self.stepped(
                old(state).deep_view(),
                RouterEventView::Exited(id@, reason.deep_view()),
                now,
            ),
    {
        let _ = state.sessions.remove(id);
        if same(id, SYSTEM_CONVERSATION_ID) {
            return RouterAction::Stop { reason };
        }
        match reason {
            DisconnectReason::ConnectionLost => match self.next_restart_delay(
                id,
                &mut state.restarts,
                now,
            ) {
                Some(delay) => RouterAction::RestartAfter { delay },
                None => RouterAction::RestartSuppressed,
            },
            _ => {
                proof {
                    deep_remove(state.restarts@, id@);
                }
                let _ = state.restarts.remove(id);
                RouterAction::Nothing
            },
        }
    }

    /// What the router does about an event at a time.
    pub fn run(&self, state: &mut RouterState, event: RouterEvent, now: Duration) -> (r:
        RouterAction)
        ensures
            (final(state).deep_view(), r.deep_view()) == self.stepped(
                old(state).deep_view(),
                event.deep_view(),
                now,
            ),
            r matches RouterAction::End { conversations }
                ==> conversations.deep_view().no_duplicates(),
    {
        match event {
            RouterEvent::Arrived { conversation_id } => self.arrived(
                state,
                conversation_id.as_str(),
                now,
            ),
            RouterEvent::Offered { conversation_id, outcome } => self.offered(
                state,
                conversation_id.as_str(),
                outcome,
                now,
            ),
            RouterEvent::RestartDue { conversation_id } => self.restart_due(
                state,
                conversation_id.as_str(),
                now,
            ),
            RouterEvent::Sweep => {
                let conversations = self.evict_idle_sessions(state, now);
                RouterAction::End { conversations }
            },
            RouterEvent::Exited { conversation_id, reason } => self.exited(
                state,
                conversation_id.as_str(),
                reason,
                now,
            ),
            RouterEvent::IngressClosed => RouterAction::Stop {
                reason: DisconnectReason::ConnectionLost,
            },
        }
    }
}

proof fn lemma_set_of_push(list: Seq<Seq<char>>, x: Seq<char>)
    ensures
        list.push(x).to_set() == list.to_set().insert(x),
{
    assert(list.push(x).to_set() =~= list.to_set().insert(x)) by {
        assert forall|k: Seq<char>| list.to_set().insert(x).contains(k) implies list.push(
            x,
        ).to_set().contains(k) by {
            if k == x {
                assert(list.push(x)[list.len() as int] == k);
            } else {
                let j = choose|j: int| 0 <= j < list.len() && list[j] == k;
                assert(list.push(x)[j] == k);
            }
        }
    }
}

// ---- what is turned away -----------------------------------------------

/// What became of the answer to an event that was turned away.
#[derive(Clone, Copy, Debug, PartialEq, Eq, Structural)]
pub enum BusyResponseOutcome {
    Sent,
    NotApplicable,
    EgressFull,
    EgressClosed,
}

/// The name of an outcome.
pub open spec fn outcome_name(outcome: BusyResponseOutcome) -> Seq<char> {
    match outcome {
        BusyResponseOutcome::Sent => "sent"@,
        BusyResponseOutcome::NotApplicable => "not_applicable"@,
        BusyResponseOutcome::EgressFull => "egress_full"@,
        BusyResponseOutcome::EgressClosed => "egress_closed"@,
    }
}

impl BusyResponseOutcome {
    /// The name of the outcome.
    pub fn as_str(self) -> (r: &'static str)
        ensures
            r@ == outcome_name(self),
    {
        match self {
            BusyResponseOutcome::Sent => "sent",
            BusyResponseOutcome::NotApplicable => "not_applicable",
            BusyResponseOutcome::EgressFull => "egress_full",
            BusyResponseOutcome::EgressClosed => "egress_closed",
        }
    }
}

impl BusyResponseOutcome {
    /// What is counted for the outcome, where anything is.
    pub fn counter(self) -> (r: Option<&'static str>)
        ensures
            match r {
                Some(name) => self != BusyResponseOutcome::NotApplicable && name@
                    == "busy_response."@ + outcome_name(self),
                None => self == BusyResponseOutcome::NotApplicable,
            },
    {
        proof {
            reveal_strlit("busy_response.");
            reveal_strlit("sent");
            reveal_strlit("egress_full");
            reveal_strlit("egress_closed");
            reveal_strlit("busy_response.sent");
            reveal_strlit("busy_response.egress_full");
            reveal_strlit("busy_response.egress_closed");
            assert("busy_response.sent"@ =~= "busy_response."@ + "sent"@);
            assert("busy_response.egress_full"@ =~= "busy_response."@ + "egress_full"@);
            assert("busy_response.egress_closed"@ =~= "busy_response."@ + "egress_closed"@);
        }
        match self {
            BusyResponseOutcome::Sent => Some("busy_response.sent"),
            BusyResponseOutcome::NotApplicable => None,
            BusyResponseOutcome::EgressFull => Some("busy_response.egress_full"),
            BusyResponseOutcome::EgressClosed => Some("busy_response.egress_closed"),
        }
    }
}

/// What is counted where an event is turned away, by the reason.
pub open spec fn counted_overflow(reason: Seq<char>) -> Option<Seq<char>> {
    if reason == "max_active_sessions_reached"@ {
        Some("overflow.router.max_active_sessions"@)
    } else if reason == "session_mailbox_full"@ {
        Some("overflow.session.mailbox_full"@)
    } else if reason == "session_mailbox_closed"@ {
        Some("overflow.session.mailbox_closed"@)
    } else {
        None
    }
}

/// What is counted where an event is turned away, by the reason.
pub fn overflow_counter(reason: &str) -> (r: Option<&'static str>)
    ensures
        r.deep_view() == counted_overflow(reason@),
{
    if same(reason, "max_active_sessions_reached") {
        Some("overflow.router.max_active_sessions")
    } else if same(reason, "session_mailbox_full") {
        Some("overflow.session.mailbox_full")
    } else if same(reason, "session_mailbox_closed") {
        Some("overflow.session.mailbox_closed")
    } else {
        None
    }
}

/// What became of an answer that was offered to the egress, where there was
/// one.
pub fn busy_outcome(offer: Option<OfferOutcome>) -> (r: BusyResponseOutcome)
    ensures
        r == match offer {
            None => BusyResponseOutcome::NotApplicable,
            Some(OfferOutcome::Taken) => BusyResponseOutcome::Sent,
            Some(OfferOutcome::Full) => BusyResponseOutcome::EgressFull,
            Some(OfferOutcome::Closed) => BusyResponseOutcome::EgressClosed,
        },
{
    match offer {
        None => BusyResponseOutcome::NotApplicable,
        Some(OfferOutcome::Taken) => BusyResponseOutcome::Sent,
        Some(OfferOutcome::Full) => BusyResponseOutcome::EgressFull,
        Some(OfferOutcome::Closed) => BusyResponseOutcome::EgressClosed,
    }
}

/// What is said to whom is turned away.
pub open spec fn busy_text(retry_after_secs: u64, correlation_id: Seq<char>) -> Seq<char> {
    "System busy. Please retry in "@ + decimal(retry_after_secs as nat) + "s. (ref: "@
        + correlation_id + ")"@
}

/// The answer to an event that was turned away: to a message only, back to its
/// sender or to its room.
pub open spec fn busy_response(
    event: EventView,
    correlation_id: Seq<char>,
    retry_after_secs: u64,
) -> Option<CommandView> {
    match event {
        EventView::Message(m) => {
            let in_room = m.message_type == MessageType::GroupChat;
            Some(
                text_to(
                    if in_room {
                        bare(m.from)
                    } else {
                        m.from
                    },
                    busy_text(retry_after_secs, correlation_id),
                    None,
                    in_room,
                ),
            )
        },
        _ => None,
    }
}

/// The answer to an event that was turned away.
pub fn build_busy_response_command(envelope: &Envelope, busy_retry_after_secs: u64) -> (r: Option<
    XmppCommand,
>)
    ensures
        r.deep_view() == busy_response(
            envelope.event.deep_view(),
            envelope.correlation_id@,
            busy_retry_after_secs,
        ),
{
    match &envelope.event {
        XmppEvent::Message(message) => {
            let mut body = "System busy. Please retry in ".to_owned();
            body.append(number(busy_retry_after_secs).as_str());
            body.append("s. (ref: ");
            body.append(envelope.correlation_id.as_str());
            body.append(")");
            let in_room = message.message_type == MessageType::GroupChat;
            let to = if in_room {
                bare_jid(message.from.as_str())
            } else {
                message.from.clone()
            };
            Some(text_command(to.as_str(), body, None, in_room))
        },
        _ => None,
    }
}

/// The kind of an event.
pub open spec fn kind_of(event: EventView) -> Seq<char> {
    match event {
        EventView::Connected => "connected"@,
        EventView::Message(_) => "message"@,
        EventView::Presence(_) => "presence"@,
        EventView::Reaction(_) => "reaction"@,
        EventView::StreamError(_) => "stream_error"@,
        EventView::Error(_) => "error"@,
        EventView::ReadTimeout => "read_timeout"@,
    }
}

/// The kind of an event.
pub fn event_kind(event: &XmppEvent) -> (r: &'static str)
    ensures
        r@ == kind_of(event.deep_view()),
{
    match event {
        XmppEvent::Connected => "connected",
        XmppEvent::Message(_) => "message",
        XmppEvent::Presence(_) => "presence",
        XmppEvent::Reaction(_) => "reaction",
        XmppEvent::StreamError(_) => "stream_error",
        XmppEvent::Error(_) => "error",
        XmppEvent::ReadTimeout => "read_timeout",
    }
}

impl RouterActor {
    /// The dead letter of an event that was turned away.
    pub fn record_dead_letter(
        reason: &str,
        envelope: &Envelope,
        busy_response: BusyResponseOutcome,
    ) -> (r: DeadLetterRecord)
        ensures
            r.timestamp_ms >= 0,
            r.deep_view() == (RecordView {
                timestamp_ms: r.timestamp_ms,
                source: DeadLetterSource::Router,
                reason: reason@,
                correlation_id: envelope.correlation_id@,
                conversation_id: Some(envelope.conversation_id@),
                payload_kind: kind_of(envelope.event.deep_view()),
                destination: None,
                attempts: None,
                received_at_ms: Some(envelope.received_at_ms),
                busy_response: Some(outcome_name(busy_response)),
                payload: None,
            }),
    {
        DeadLetterRecord::router(
            reason,
            envelope.conversation_id.clone(),
            envelope.correlation_id.clone(),
            envelope.received_at_ms,
            event_kind(&envelope.event),
            busy_response.as_str(),
        )
    }

    /// The places in a session's mailbox: at least one.
    pub fn session_mailbox_size(&self) -> (r: usize)
        ensures
            r == if self.session_mailbox == 0 {
                1
            } else {
                self.session_mailbox
            },
    {
        at_least_one(self.session_mailbox)
    }
}

// ---- laws --------------------------------------------------------------

/// The state of a router that keeps to its limit: apart from the system
/// conversation there are no more sessions than it may have.
pub open spec fn within_capacity(router: RouterActor, state: RouterView) -> bool {
    &&& state.sessions.dom().finite()
    &&& state.sessions.dom().remove(SYSTEM_CONVERSATION_ID@).len() <= router.capacity()
}

/// Whatever happens, the router keeps to its limit.
pub proof fn capacity_is_kept(
    router: RouterActor,
    state: RouterView,
    event: RouterEventView,
    now: Duration,
)
    requires
        within_capacity(router, state),
    ensures
        within_capacity(router, router.stepped(state, event, now).0),
{
    let system = SYSTEM_CONVERSATION_ID@;
    let before = state.sessions.dom();
    let after = router.stepped(state, event, now).0.sessions.dom();
    match event {
        RouterEventView::Arrived(id) => {
            if !state.sessions.contains_key(id) {
                lemma_insert_within(before, id, system);
                assert(after =~= before || after =~= before.insert(id));
            }
        },
        RouterEventView::RestartDue(id) => {
            if !state.sessions.contains_key(id) {
                lemma_insert_within(before, id, system);
                assert(after =~= before || after =~= before.insert(id));
            }
        },
        RouterEventView::Offered(id, outcome) => {
            assert(after.subset_of(before)) by {
                assert(after =~= before || after =~= before.insert(id) || after =~= before.remove(
                    id,
                ));
            }
            lemma_subset_within(before, after, system);
        },
        RouterEventView::Sweep => {
            assert(after.subset_of(before));
            lemma_subset_within(before, after, system);
        },
        RouterEventView::Exited(id, reason) => {
            assert(after =~= before.remove(id));
            lemma_subset_within(before, after, system);
        },
        RouterEventView::IngressClosed => {},
    }
}

proof fn lemma_insert_within(s: Set<Seq<char>>, x: Seq<char>, system: Seq<char>)
    requires
        s.finite(),
        !s.contains(x),
    ensures
        s.remove(system).len() <= s.len(),
        s.insert(x).finite(),
        s.insert(x).remove(system).len() == s.remove(system).len() + if x == system {
            0int
        } else {
            1int
        },
{
    if x == system {
        assert(s.insert(x).remove(system) =~= s.remove(system));
    } else {
        assert(s.insert(x).remove(system) =~= s.remove(system).insert(x));
    }
}

proof fn lemma_subset_within(s: Set<Seq<char>>, t: Set<Seq<char>>, system: Seq<char>)
    requires
        s.finite(),
        t.subset_of(s),
    ensures
        t.finite(),
        t.remove(system).len() <= s.remove(system).len(),
{
    vstd::set_lib::lemma_set_subset_finite(s, t);
    assert(t.remove(system).subset_of(s.remove(system)));
    vstd::set_lib::lemma_len_subset(t.remove(system), s.remove(system));
}

/// Events of the connection itself are never turned away for want of room.
pub proof fn system_is_always_admitted(router: RouterActor, state: RouterView, now: Duration)
    ensures
        ({
            let (after, action) = router.stepped(
                state,
                RouterEventView::Arrived(SYSTEM_CONVERSATION_ID@),
                now,
            );
            &&& action is Offer || action is StartAndOffer
            &&& after.sessions.contains_key(SYSTEM_CONVERSATION_ID@)
        }),
{
}

/// A conversation is turned away for want of room exactly where it has no
/// session and there are as many as there may be; its arrival changes nothing
/// then.
pub proof fn turned_away_only_when_full(
    router: RouterActor,
    state: RouterView,
    id: Seq<char>,
    now: Duration,
)
    requires
        id != SYSTEM_CONVERSATION_ID@,
    ensures
        ({
            let (after, action) = router.stepped(state, RouterEventView::Arrived(id), now);
            &&& action is TurnAway <==> !state.sessions.contains_key(id)
                && state.sessions.dom().len() >= router.capacity()
            &&& action is TurnAway ==> after == state
            &&& action is StartAndOffer ==> after.sessions.contains_key(id)
        }),
{
}

/// Sweeping ends exactly the sessions that have been idle for as long as they
/// may; the system session stays.
pub proof fn sweeping_ends_the_idle_ones(
    router: RouterActor,
    state: RouterView,
    id: Seq<char>,
    now: Duration,
)
    requires
        state.sessions.contains_key(id),
    ensures
        router.stepped(state, RouterEventView::Sweep, now).0.sessions.contains_key(id) <==> id
            == SYSTEM_CONVERSATION_ID@ || time_since(now, state.sessions[id]) < router.idle_limit(),
{
}

/// The end of the system session stops the router, for the reason it gives.
pub proof fn system_exit_stops_the_router(
    router: RouterActor,
    state: RouterView,
    reason: ReasonView,
    now: Duration,
)
    ensures
        router.stepped(
            state,
            RouterEventView::Exited(SYSTEM_CONVERSATION_ID@, reason),
            now,
        ).1 == RouterActionView::Stop(reason),
{
}

/// Whether an event is about this conversation.
pub open spec fn concerns(event: RouterEventView, id: Seq<char>) -> bool {
    match event {
        RouterEventView::Arrived(i) => i == id,
        RouterEventView::Offered(i, _) => i == id,
        RouterEventView::RestartDue(i) => i == id,
        RouterEventView::Exited(i, _) => i == id,
        RouterEventView::Sweep => false,
        RouterEventView::IngressClosed => false,
    }
}

/// What happens to one conversation leaves the sessions of the others alone.
pub proof fn conversations_are_independent(
    router: RouterActor,
    state: RouterView,
    event: RouterEventView,
    id: Seq<char>,
    other: Seq<char>,
    now: Duration,
)
    requires
        id != other,
        concerns(event, id),
    ensures
        ({
            let after = router.stepped(state, event, now).0;
            &&& after.sessions.contains_key(other) == state.sessions.contains_key(other)
            &&& state.sessions.contains_key(other) ==> after.sessions[other]
                == state.sessions[other]
            &&& after.restarts.contains_key(other) == state.restarts.contains_key(other)
            &&& state.restarts.contains_key(other) ==> after.restarts[other]
                == state.restarts[other]
        }),
{
}

/// Something that comes to the router, and when.
pub ghost struct TickView {
    pub event: RouterEventView,
    pub now: Duration,
}

/// The state after all that has come, one behind the other.
pub open spec fn state_after(router: RouterActor, state: RouterView, ticks: Seq<TickView>) -> RouterView
    decreases ticks.len(),
{
    if ticks.len() == 0 {
        state
    } else {
        let before = state_after(router, state, ticks.drop_last());
        router.stepped(before, ticks.last().event, ticks.last().now).0
    }
}

/// What the router does about the last that has come.
pub open spec fn last_action(router: RouterActor, state: RouterView, ticks: Seq<TickView>) -> RouterActionView {
    let before = state_after(router, state, ticks.drop_last());
    router.stepped(before, ticks.last().event, ticks.last().now).1
}

/// The places of a conversation's events among all that has come, in order.
pub open spec fn arrivals(ticks: Seq<TickView>, id: Seq<char>) -> Seq<int>
    decreases ticks.len(),
{
    if ticks.len() == 0 {
        Seq::empty()
    } else {
        let rest = arrivals(ticks.drop_last(), id);
        if ticks.last().event == RouterEventView::Arrived(id) {
            rest.push(ticks.len() - 1)
        } else {
            rest
        }
    }
}

/// The places of the events that the session which was there is offered, in
/// the order of the offers.
pub open spec fn offers(
    router: RouterActor,
    state: RouterView,
    ticks: Seq<TickView>,
    id: Seq<char>,
) -> Seq<int>
    decreases ticks.len(),
{
    if ticks.len() == 0 {
        Seq::empty()
    } else {
        let rest = offers(router, state, ticks.drop_last(), id);
        if concerns(ticks.last().event, id) && last_action(router, state, ticks) is Offer {
            rest.push(ticks.len() - 1)
        } else {
            rest
        }
    }
}

/// Whether the session of a conversation is there at every moment.
pub open spec fn lives_through(
    router: RouterActor,
    state: RouterView,
    ticks: Seq<TickView>,
    id: Seq<char>,
) -> bool {
    forall|n: int|
        0 <= n <= ticks.len() ==> (#[trigger] state_after(
            router,
            state,
            ticks.take(n),
        )).sessions.contains_key(id)
}

/// The events of one conversation keep their order: while its session lives,
/// each of them is offered to that session once, in the order in which they
/// came, whatever comes for other conversations in between; and no other
/// session is started for it.
pub proof fn conversations_keep_their_order(
    router: RouterActor,
    state: RouterView,
    ticks: Seq<TickView>,
    id: Seq<char>,
)
    requires
        lives_through(router, state, ticks, id),
    ensures
        offers(router, state, ticks, id) == arrivals(ticks, id),
        forall|n: int|
            0 < n <= ticks.len() && concerns(#[trigger] ticks[n - 1].event, id) ==> !(last_action(
                router,
                state,
                ticks.take(n),
            ) is Start) && !(last_action(router, state, ticks.take(n)) is StartAndOffer),
    decreases ticks.len(),
{
    if ticks.len() > 0 {
        let before = ticks.drop_last();
        assert forall|n: int| 0 <= n <= before.len() implies (#[trigger] state_after(
            router,
            state,
            before.take(n),
        )).sessions.contains_key(id) by {
            assert(before.take(n) =~= ticks.take(n));
        }
        conversations_keep_their_order(router, state, before, id);
        assert(ticks.take(ticks.len() - 1) =~= before);
        assert(state_after(router, state, before).sessions.contains_key(id));
        assert(ticks.take(ticks.len() as int) =~= ticks);
        assert forall|n: int|
            0 < n <= ticks.len() && concerns(#[trigger] ticks[n - 1].event, id) implies !(
        last_action(router, state, ticks.take(n)) is Start) && !(last_action(
            router,
            state,
            ticks.take(n),
        ) is StartAndOffer) by {
            if n < ticks.len() {
                assert(before[n - 1] == ticks[n - 1]);
                assert(before.take(n) =~= ticks.take(n));
            }
        }
    }
}

/// The delay of a restart lies between the shortest and the longest one.
pub proof fn restart_delays_are_bounded(min_ms: u64, max_ms: u64, failures: u32)
    ensures
        restart_delay_ms(min_ms, max_ms, failures) >= 1,
        restart_delay_ms(min_ms, max_ms, failures) >= min_ms,
        min_ms <= max_ms && 1 <= max_ms ==> restart_delay_ms(min_ms, max_ms, failures) <= max_ms,
{
    let shortest: nat = if min_ms == 0 {
        1
    } else {
        min_ms as nat
    };
    let doublings: nat = if failures < 16 {
        failures as nat
    } else {
        16
    };
    vstd::arithmetic::power2::lemma_pow2_pos(doublings);
    assert(shortest * pow2(doublings) >= shortest) by (nonlinear_arith)
        requires
            pow2(doublings) >= 1,
    ;
}

/// After one more failure the delay is not shorter.
pub proof fn restart_delays_grow(min_ms: u64, max_ms: u64, a: u32, b: u32)
    requires
        a <= b,
    ensures
        restart_delay_ms(min_ms, max_ms, a) <= restart_delay_ms(min_ms, max_ms, b),
{
    let shortest: nat = if min_ms == 0 {
        1
    } else {
        min_ms as nat
    };
    let x: nat = if a < 16 {
        a as nat
    } else {
        16
    };
    let y: nat = if b < 16 {
        b as nat
    } else {
        16
    };
    if x < y {
        vstd::arithmetic::power2::lemma_pow2_strictly_increases(x, y);
    }
    assert(shortest * pow2(x) <= shortest * pow2(y)) by (nonlinear_arith)
        requires
            pow2(x) <= pow2(y),
    ;
}

/// However often a session fails, no more restarts are remembered for it than
/// the budget allows, and a budget of zero allows none.
pub proof fn restart_budget_is_kept(
    router: RouterActor,
    restarts: Map<Seq<char>, RestartView>,
    id: Seq<char>,
    now: Duration,
)
    requires
        restarts.contains_key(id) ==> restarts[id].recent_restarts.len()
            <= router.max_restarts_per_minute,
    ensures
        ({
            let after = router.after_restart(restarts, id, now);
            after.contains_key(id) ==> after[id].recent_restarts.len()
                <= router.max_restarts_per_minute
        }),
        router.max_restarts_per_minute == 0 ==> !router.may_restart(restarts, id, now),
{
    if restarts.contains_key(id) {
        lemma_window_shrinks(restarts[id].recent_restarts, now);
    }
}

proof fn lemma_window_shrinks(restarts: Seq<Duration>, now: Duration)
    ensures
        in_window(restarts, now).len() <= restarts.len(),
    decreases restarts.len(),
{
    if restarts.len() > 0 && time_since(now, restarts[0]) > RESTART_WINDOW_NANOS {
        lemma_window_shrinks(restarts.drop_first(), now);
    }
}

/// An event that is taken wipes out the memory of failures: the next one
/// counts as the first.
pub proof fn success_forgets_failures(
    router: RouterActor,
    state: RouterView,
    id: Seq<char>,
    now: Duration,
    later: Duration,
)
    requires
        state.sessions.contains_key(id),
    ensures
        ({
            let after = router.stepped(
                state,
                RouterEventView::Offered(id, OfferOutcome::Taken),
                now,
            ).0;
            RouterActor::remembered(after.restarts, id, later).consecutive_failures == 0
        }),
{
}

/// A session that takes an event is active from then on: a sweep that comes
/// sooner than it may be idle does not end it, and one that comes later does.
pub proof fn activity_renews_a_session(
    router: RouterActor,
    state: RouterView,
    id: Seq<char>,
    now: Duration,
    later: Duration,
)
    requires
        state.sessions.contains_key(id),
        id != SYSTEM_CONVERSATION_ID@,
        now.nanos <= later.nanos,
    ensures
        ({
            let taken = router.stepped(
                state,
                RouterEventView::Offered(id, OfferOutcome::Taken),
                now,
            ).0;
            let (swept, action) = router.stepped(taken, RouterEventView::Sweep, later);
            let secs: int = if router.session_idle_ttl_secs == 0 {
                1
            } else {
                router.session_idle_ttl_secs as int
            };
            let idle = later.nanos - now.nanos >= secs * 1_000_000_000;
            &&& taken.sessions[id] == now
            &&& swept.sessions.contains_key(id) == !idle
            &&& action matches RouterActionView::End(ended) && ended.contains(id) == idle
        }),
{
}

/// A conversation without a session gets one where there is room, which is
/// active from that moment; one that has a session keeps it as it is.
pub proof fn arrivals_find_a_session(
    router: RouterActor,
    state: RouterView,
    id: Seq<char>,
    now: Duration,
)
    requires
        state.sessions.contains_key(id) || state.sessions.dom().len()
            < router.max_active_sessions || state.sessions.dom().len() == 0,
    ensures
        ({
            let (after, action) = router.stepped(state, RouterEventView::Arrived(id), now);
            if state.sessions.contains_key(id) {
                action is Offer && after == state
            } else {
                &&& action is StartAndOffer
                &&& after.sessions == state.sessions.insert(id, now)
                &&& after.restarts == state.restarts
            }
        }),
{
}

/// What a full session does not take is turned away and the session stays;
/// where its mailbox is closed the session is ended with it. Neither touches
/// any other session.
pub proof fn refusals_are_answered(
    router: RouterActor,
    state: RouterView,
    id: Seq<char>,
    now: Duration,
)
    requires
        state.sessions.contains_key(id),
    ensures
        router.stepped(state, RouterEventView::Offered(id, OfferOutcome::Full), now) == (
            state,
            RouterActionView::TurnAway("session_mailbox_full"@),
        ),
        ({
            let (after, action) = router.stepped(
                state,
                RouterEventView::Offered(id, OfferOutcome::Closed),
                now,
            );
            &&& action == RouterActionView::TurnAwayAndEnd("session_mailbox_closed"@)
            &&& after.sessions == state.sessions.remove(id)
            &&& after.restarts == state.restarts
        }),
        router.stepped(state, RouterEventView::Offered(id, OfferOutcome::Taken), now).1 is Nothing,
{
}

/// A session that ended is no longer there. Where it was lost it is started
/// again after a delay, as long as the last minute holds fewer restarts than
/// the budget, and the failure and the restart are remembered; where it ended
/// for another reason all is forgotten.
pub proof fn lost_sessions_are_started_again(
    router: RouterActor,
    state: RouterView,
    id: Seq<char>,
    reason: ReasonView,
    now: Duration,
)
    requires
        id != SYSTEM_CONVERSATION_ID@,
    ensures
        ({
            let (after, action) = router.stepped(state, RouterEventView::Exited(id, reason), now);
            &&& after.sessions == state.sessions.remove(id)
            &&& reason is ConnectionLost ==> (action is RestartAfter || action is RestartSuppressed)
            &&& !(reason is ConnectionLost) ==> action is Nothing && after.restarts
                == state.restarts.remove(id)
            &&& reason is ConnectionLost && !state.restarts.contains_key(id)
                && router.max_restarts_per_minute > 0 ==> {
                &&& action is RestartAfter
                &&& after.restarts.contains_key(id)
                &&& after.restarts[id].consecutive_failures == 1
                &&& after.restarts[id].recent_restarts == seq![now]
            }
            &&& action is RestartAfter && state.restarts.contains_key(id)
                && state.restarts[id].consecutive_failures < u32::MAX ==> {
                &&& after.restarts[id].consecutive_failures
                    == state.restarts[id].consecutive_failures + 1
                &&& after.restarts[id].recent_restarts.last() == now
            }
        }),
{
    if !state.restarts.contains_key(id) {
        assert(in_window(Seq::<Duration>::empty(), now) =~= Seq::empty());
        assert(Seq::<Duration>::empty().push(now) =~= seq![now]);
    }
}

/// Only restarts of the last minute count against the budget, and all of them
/// do: the window cuts off the restarts that are older, and no other.
pub proof fn the_window_is_a_minute(restarts: Seq<Duration>, now: Duration, i: int)
    requires
        0 <= i < restarts.len(),
        forall|a: int, b: int|
            0 <= a <= b < restarts.len() ==> (#[trigger] restarts[a]).nanos <= (
            #[trigger] restarts[b]).nanos,
        forall|a: int| 0 <= a < restarts.len() ==> (#[trigger] restarts[a]).nanos <= now.nanos,
    ensures
        ({
            let kept = in_window(restarts, now);
            let cut = restarts.len() - kept.len();
            &&& 0 <= cut <= restarts.len()
            &&& kept == restarts.skip(cut)
            &&& i >= cut <==> now.nanos - restarts[i].nanos <= 60_000_000_000
        }),
    decreases restarts.len(),
{
    if time_since(now, restarts[0]) > RESTART_WINDOW_NANOS {
        let rest = restarts.drop_first();
        assert(restarts[0].nanos <= restarts[i].nanos);
        assert forall|a: int, b: int| 0 <= a <= b < rest.len() implies (#[trigger] rest[a]).nanos <= (
        #[trigger] rest[b]).nanos by {
            assert(rest[a] == restarts[a + 1] && rest[b] == restarts[b + 1]);
        }
        assert forall|a: int| 0 <= a < rest.len() implies (#[trigger] rest[a]).nanos
            <= now.nanos by {
            assert(rest[a] == restarts[a + 1]);
        }
        if i > 0 {
            the_window_is_a_minute(rest, now, i - 1);
        } else {
            lemma_window_shrinks(rest, now);
            if rest.len() > 0 {
                the_window_is_a_minute(rest, now, 0);
            }
        }
        let kept = in_window(restarts, now);
        let cut = restarts.len() - kept.len();
        assert(restarts.skip(cut) =~= rest.skip(cut - 1));
        assert(rest[i - 1] == restarts[i] || i == 0);
    } else {
        assert(restarts[0].nanos <= restarts[i].nanos);
        assert(restarts.skip(0) =~= restarts);
    }
}

/// The first restart comes after the shortest delay, and each failure after it
/// doubles the delay, sixteen times at most, until it has reached the longest
/// one.
pub proof fn restart_delays_double(min_ms: u64, max_ms: u64, failures: u32)
    requires
        1 <= min_ms <= max_ms,
    ensures
        restart_delay_ms(min_ms, max_ms, 0) == min_ms,
        failures < 16 ==> restart_delay_ms(min_ms, max_ms, (failures + 1) as u32) == if 2
            * restart_delay_ms(min_ms, max_ms, failures) < max_ms {
            2 * restart_delay_ms(min_ms, max_ms, failures)
        } else {
            max_ms as nat
        },
        failures >= 16 ==> restart_delay_ms(min_ms, max_ms, failures) == restart_delay_ms(
            min_ms,
            max_ms,
            16,
        ),
{
    vstd::arithmetic::power2::lemma2_to64();
    if failures < 16 {
        let n = failures as nat;
        vstd::arithmetic::power2::lemma_pow2_unfold(n + 1);
        assert(min_ms * pow2(n + 1) == 2 * (min_ms * pow2(n))) by (nonlinear_arith)
            requires
                pow2(n + 1) == 2 * pow2(n),
        ;
    }
}

/// A session whose delay is over is started again, unless it is there already
/// or there is no room; the system session never is.
pub proof fn due_restarts_take_place(
    router: RouterActor,
    state: RouterView,
    id: Seq<char>,
    now: Duration,
)
    ensures
        ({
            let (after, action) = router.stepped(state, RouterEventView::RestartDue(id), now);
            let room = state.sessions.dom().len() < router.max_active_sessions
                || state.sessions.dom().len() == 0;
            if id != SYSTEM_CONVERSATION_ID@ && !state.sessions.contains_key(id) && room {
                &&& action is Start
                &&& after.sessions == state.sessions.insert(id, now)
                &&& after.restarts == state.restarts
            } else {
                action is Nothing && after == state
            }
        }),
{
}

/// A sweep changes nothing but the sessions that it ends.
pub proof fn sweeping_touches_nothing_else(
    router: RouterActor,
    state: RouterView,
    id: Seq<char>,
    now: Duration,
)
    ensures
        ({
            let (after, action) = router.stepped(state, RouterEventView::Sweep, now);
            &&& after.restarts == state.restarts
            &&& after.sessions.contains_key(id) ==> state.sessions.contains_key(id)
                && after.sessions[id] == state.sessions[id]
            &&& action matches RouterActionView::End(ended) && (ended.contains(id)
                <==> state.sessions.contains_key(id) && !after.sessions.contains_key(id))
        }),
{
}

/// When nothing more comes in, the router stops as after a lost connection.
pub proof fn the_end_of_input_stops_the_router(
    router: RouterActor,
    state: RouterView,
    now: Duration,
)
    ensures
        router.stepped(state, RouterEventView::IngressClosed, now) == (
            state,
            RouterActionView::Stop(ReasonView::ConnectionLost),
        ),
{
}

/// Only messages are answered when they are turned away: a chat message to its
/// sender, a room message to its room, with the time to wait and the
/// identifier of the event.
pub proof fn busy_answers_go_back(event: EventView, id: Seq<char>, retry_after_secs: u64)
    ensures
        match event {
            EventView::Message(m) => {
                let text = "System busy. Please retry in "@ + decimal(retry_after_secs as nat)
                    + "s. (ref: "@ + id + ")"@;
                busy_response(event, id, retry_after_secs) == Some(
                    if m.message_type == MessageType::GroupChat {
                        CommandView::SendMucMessage { to: bare(m.from), body: text, id: None }
                    } else {
                        CommandView::SendMessage { to: m.from, body: text, id: None }
                    },
                )
            },
            _ => busy_response(event, id, retry_after_secs) is None,
        },
{
}

/// Where there are as many sessions as there may be, an event of a conversation
/// without one is turned away, and nothing changes; one of the system never is.
pub proof fn full_routers_turn_newcomers_away(
    router: RouterActor,
    state: RouterView,
    id: Seq<char>,
    now: Duration,
)
    requires
        !state.sessions.contains_key(id),
        state.sessions.dom().len() >= router.max_active_sessions,
        state.sessions.dom().len() > 0,
    ensures
        id != SYSTEM_CONVERSATION_ID@ ==> router.stepped(state, RouterEventView::Arrived(id), now)
            == (state, RouterActionView::TurnAway("max_active_sessions_reached"@)),
        id == SYSTEM_CONVERSATION_ID@ ==> {
            let (after, action) = router.stepped(state, RouterEventView::Arrived(id), now);
            &&& action is StartAndOffer
            &&& after.sessions == state.sessions.insert(id, now)
        },
{
}

/// What is offered to a session that is no longer there is turned away.
pub proof fn offers_need_a_session(
    router: RouterActor,
    state: RouterView,
    id: Seq<char>,
    outcome: OfferOutcome,
    now: Duration,
)
    requires
        !state.sessions.contains_key(id),
    ensures
        router.stepped(state, RouterEventView::Offered(id, outcome), now) == (
            state,
            RouterActionView::TurnAway("session_missing"@),
        ),
{
}

/// A lost session is started again exactly where the budget is larger than the
/// number of its restarts in the last minute, after the delay for the failures
/// that it had; otherwise what is remembered of it stays as it was.
pub proof fn restarts_follow_the_budget(
    router: RouterActor,
    state: RouterView,
    id: Seq<char>,
    now: Duration,
)
    requires
        id != SYSTEM_CONVERSATION_ID@,
        state.restarts.contains_key(id),
        forall|k: int|
            0 <= k < state.restarts[id].recent_restarts.len() ==> now.nanos - (
            #[trigger] state.restarts[id].recent_restarts[k]).nanos <= 60_000_000_000,
        state.restarts[id].consecutive_failures < u32::MAX,
    ensures
        ({
            let had = state.restarts[id];
            let (after, action) = router.stepped(
                state,
                RouterEventView::Exited(id, ReasonView::ConnectionLost),
                now,
            );
            if had.recent_restarts.len() < router.max_restarts_per_minute {
                &&& match action {
                    RouterActionView::RestartAfter(delay) => delay.nanos == restart_delay_ms(
                        router.restart_backoff_min_ms,
                        router.restart_backoff_max_ms,
                        had.consecutive_failures,
                    ) * 1_000_000,
                    _ => false,
                }
                &&& after.restarts == state.restarts.insert(
                    id,
                    RestartView {
                        consecutive_failures: (had.consecutive_failures + 1) as u32,
                        recent_restarts: had.recent_restarts.push(now),
                    },
                )
            } else {
                action is RestartSuppressed && after.restarts == state.restarts
            }
        }),
{
    let had = state.restarts[id];
    let recent = had.recent_restarts;
    if recent.len() > 0 {
        assert(now.nanos - recent[0].nanos <= 60_000_000_000);
    }
    assert(in_window(recent, now) == recent);
    assert(state.restarts.insert(id, had) =~= state.restarts);
    restart_delays_are_bounded(
        router.restart_backoff_min_ms,
        router.restart_backoff_max_ms,
        had.consecutive_failures,
    );
}

/// Without a budget nothing is started again or remembered.
pub proof fn without_a_budget_nothing_restarts(
    router: RouterActor,
    state: RouterView,
    id: Seq<char>,
    now: Duration,
)
    requires
        id != SYSTEM_CONVERSATION_ID@,
        router.max_restarts_per_minute == 0,
    ensures
        ({
            let (after, action) = router.stepped(
                state,
                RouterEventView::Exited(id, ReasonView::ConnectionLost),
                now,
            );
            action is RestartSuppressed && after.restarts == state.restarts
        }),
{
}

/// Every reason to turn an event away is counted under its own name, and no
/// other reason is counted.
pub proof fn overflows_are_counted(reason: Seq<char>)
    ensures
        reason == "max_active_sessions_reached"@ ==> counted_overflow(reason) == Some(
            "overflow.router.max_active_sessions"@,
        ),
        reason == "session_mailbox_full"@ ==> counted_overflow(reason) == Some(
            "overflow.session.mailbox_full"@,
        ),
        reason == "session_mailbox_closed"@ ==> counted_overflow(reason) == Some(
            "overflow.session.mailbox_closed"@,
        ),
        reason != "max_active_sessions_reached"@ && reason != "session_mailbox_full"@ && reason
            != "session_mailbox_closed"@ ==> counted_overflow(reason) is None,
{
    reveal_strlit("max_active_sessions_reached");
    reveal_strlit("session_mailbox_full");
    reveal_strlit("session_mailbox_closed");
    assert("max_active_sessions_reached"@.len() == 27);
    assert("session_mailbox_full"@.len() == 20);
    assert("session_mailbox_closed"@.len() == 22);
}

/// Two kinds of events have different names.
pub proof fn kinds_have_their_names(event: EventView)
    ensures
        event is Connected <==> kind_of(event) == "connected"@,
        event is Message <==> kind_of(event) == "message"@,
        event is Presence <==> kind_of(event) == "presence"@,
        event is Reaction <==> kind_of(event) == "reaction"@,
        event is StreamError <==> kind_of(event) == "stream_error"@,
        event is Error <==> kind_of(event) == "error"@,
        event is ReadTimeout <==> kind_of(event) == "read_timeout"@,
{
    reveal_strlit("connected");
    reveal_strlit("message");
    reveal_strlit("presence");
    reveal_strlit("reaction");
    reveal_strlit("stream_error");
    reveal_strlit("error");
    reveal_strlit("read_timeout");
    assert("connected"@[0] == 'c' && "message"@[0] == 'm' && "presence"@[0] == 'p'
        && "stream_error"@[0] == 's' && "error"@[0] == 'e');
    assert("reaction"@.len() == 8 && "read_timeout"@.len() == 12);
    assert("reaction"@[0] == 'r' && "read_timeout"@[0] == 'r');
}

/// What became of a busy answer is named by whether it was sent, and if not,
/// why.
pub proof fn busy_outcomes_have_their_names(outcome: BusyResponseOutcome)
    ensures
        outcome == BusyResponseOutcome::Sent ==> outcome_name(outcome) == "sent"@,
        outcome == BusyResponseOutcome::NotApplicable ==> outcome_name(outcome)
            == "not_applicable"@,
        outcome == BusyResponseOutcome::EgressFull ==> outcome_name(outcome) == "egress_full"@,
        outcome == BusyResponseOutcome::EgressClosed ==> outcome_name(outcome)
            == "egress_closed"@,
{
}

} // verus!
