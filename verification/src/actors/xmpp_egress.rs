//! Commands on their way out to the transport.

use super::dead_letter::{DeadLetterRecord, DeadLetterSource, RecordView};
use super::mailbox::{
    after_failed_try, at_least_one_ms, retry_millis, RetryStep, SendOutcome,
};
use super::router::{busy_response, busy_text};
use super::user_error::{class_of, class_sentence, safe_message, UserErrorClass};
use crate::text::{
    chars_of, decimal, find, find_from, index_from, is_blank, lemma_decimal_value, lemma_find_from,
    lemma_index_from, occurs_at, string_of, trim, trimmed,
};
use crate::time::{Duration, NANOS_PER_MILLI};
use crate::xmpp::{ChatState, CommandView, EventView, XmppCommand};
use vstd::arithmetic::power2::pow2;
use vstd::prelude::*;
use vstd::string::*;

verus! {

/// The settings of the way out.
#[derive(Debug, Clone, Copy)]
pub struct XmppEgressActor {
    pub send_timeout: Duration,
    pub retry_backoff: Duration,
    pub max_retries: usize,
}

/// Why a command did not get out.
#[derive(Debug, Clone, Copy, PartialEq, Eq, Structural)]
pub enum EgressFailureReason {
    SendTimeoutExhausted,
    TransportClosed,
}

/// The name of a reason.
pub open spec fn reason_name(reason: EgressFailureReason) -> Seq<char> {
    match reason {
        EgressFailureReason::SendTimeoutExhausted => "send_timeout_exhausted"@,
        EgressFailureReason::TransportClosed => "transport_closed"@,
    }
}

impl EgressFailureReason {
    /// The name of the reason.
    pub fn as_str(self) -> (r: &'static str)
        ensures
            r@ == reason_name(self),
    {
        match self {
            EgressFailureReason::SendTimeoutExhausted => "send_timeout_exhausted",
            EgressFailureReason::TransportClosed => "transport_closed",
        }
    }
}

/// What follows a try to send a command.
#[derive(Debug, Clone, Copy, PartialEq, Eq, Structural)]
pub enum ForwardStep {
    Sent,
    RetryAfter(Duration),
    Failed { reason: EgressFailureReason, attempts: usize },
}

impl XmppEgressActor {
    /// The way out; a try takes at least a millisecond.
    pub fn new(send_timeout_ms: u64, retry_backoff_ms: u64, max_retries: usize) -> (r: Self)
        ensures
            r.wf(),
            r.send_timeout.nanos == (if send_timeout_ms == 0 {
                1
            } else {
                send_timeout_ms
            }) * NANOS_PER_MILLI,
            r.retry_backoff.nanos == retry_backoff_ms * NANOS_PER_MILLI,
            r.max_retries == max_retries,
    {
        XmppEgressActor {
            send_timeout: at_least_one_ms(send_timeout_ms),
            retry_backoff: Duration::from_millis(retry_backoff_ms),
            max_retries,
        }
    }

    /// Whether the delays are within their limits.
    pub open spec fn wf(self) -> bool {
        self.retry_backoff.wf()
    }

    /// What follows the try with this index: a full transport is tried again
    /// while retries are left, each after a longer delay; a closed one is not.
    pub open spec fn forwarded(self, attempt: usize, outcome: SendOutcome) -> ForwardStep {
        match outcome {
            SendOutcome::Sent => ForwardStep::Sent,
            SendOutcome::Closed => ForwardStep::Failed {
                reason: EgressFailureReason::TransportClosed,
                attempts: (attempt + 1) as usize,
            },
            SendOutcome::TimedOut => if attempt >= self.max_retries {
                ForwardStep::Failed {
                    reason: EgressFailureReason::SendTimeoutExhausted,
                    attempts: (attempt + 1) as usize,
                }
            } else {
                ForwardStep::RetryAfter(
                    Duration {
                        nanos: (retry_millis(
                            (self.retry_backoff.nanos / NANOS_PER_MILLI) as nat,
                            attempt as nat,
                        ) * NANOS_PER_MILLI) as u128,
                    },
                )
            },
        }
    }

    /// What follows the try with this index.
    pub fn forward_with_retries(&self, attempt: usize, outcome: SendOutcome) -> (r: ForwardStep)
        requires
            self.wf(),
            attempt < usize::MAX,
        ensures
            r == self.forwarded(attempt, outcome),
    {
        match outcome {
            SendOutcome::Sent => ForwardStep::Sent,
            SendOutcome::Closed => ForwardStep::Failed {
                reason: EgressFailureReason::TransportClosed,
                attempts: attempt + 1,
            },
            SendOutcome::TimedOut => match after_failed_try(
                attempt,
                self.max_retries,
                self.retry_backoff,
            ) {
                RetryStep::GiveUp => ForwardStep::Failed {
                    reason: EgressFailureReason::SendTimeoutExhausted,
                    attempts: attempt + 1,
                },
                RetryStep::RetryAfter(delay) => ForwardStep::RetryAfter(delay),
            },
        }
    }

    /// Whether the way out ends after a failure: where the transport is gone.
    pub fn stops(reason: EgressFailureReason) -> (r: bool)
        ensures
            r == (reason == EgressFailureReason::TransportClosed),
    {
        reason == EgressFailureReason::TransportClosed
    }

    /// What is recorded of a command that did not get out.
    pub fn record_dead_letter(
        cmd: &XmppCommand,
        reason: EgressFailureReason,
        attempts: usize,
        payload: Option<serde_json::Value>,
    ) -> (r: DeadLetterRecord)
        ensures
            r.timestamp_ms >= 0,
            r.deep_view() == (RecordView {
                timestamp_ms: r.timestamp_ms,
                source: DeadLetterSource::XmppEgress,
                reason: reason_name(reason),
                correlation_id: correlation_of_command(cmd.deep_view()),
                conversation_id: None,
                payload_kind: kind_of(cmd.deep_view()),
                destination: destination_of(cmd.deep_view()),
                attempts: Some(attempts),
                received_at_ms: None,
                busy_response: None,
                payload,
            }),
    {
        DeadLetterRecord::xmpp_egress_with_payload(
            reason.as_str(),
            correlation_id_for_command(cmd),
            command_kind(cmd),
            command_destination(cmd),
            attempts,
            payload,
        )
    }
}

/// The reference in a text: what stands between `(ref: ` and the next closing
/// bracket, unless that is blank.
pub open spec fn reference_in(body: Seq<char>) -> Option<Seq<char>> {
    match find_from(body, "(ref: "@, 0) {
        None => None,
        Some(start) => {
            let rest = body.skip(start + "(ref: "@.len());
            match index_from(rest, ')', 0) {
                None => None,
                Some(end) => if trimmed(rest.take(end)).len() == 0 {
                    None
                } else {
                    Some(trimmed(rest.take(end)))
                },
            }
        },
    }
}

/// The identifier under which a command is followed: its own, or the reference
/// in its text.
pub open spec fn correlation_of_command(cmd: CommandView) -> Seq<char> {
    let of_text = |id: Option<Seq<char>>, body: Seq<char>|
        match id {
            Some(i) => i,
            None => match reference_in(body) {
                Some(r) => r,
                None => "unknown"@,
            },
        };
    match cmd {
        CommandView::SendMessage { body, id, .. } => of_text(id, body),
        CommandView::SendMucMessage { body, id, .. } => of_text(id, body),
        _ => "unknown"@,
    }
}

/// The kind of a command.
pub open spec fn kind_of(cmd: CommandView) -> Seq<char> {
    match cmd {
        CommandView::SendMessage { .. } => "send_message"@,
        CommandView::SendChatState { .. } => "send_chat_state"@,
        CommandView::SendMucMessage { .. } => "send_muc_message"@,
        CommandView::JoinMuc { .. } => "join_muc"@,
        CommandView::SendRaw(_) => "send_raw"@,
        CommandView::Ping => "ping"@,
    }
}

/// Where a command goes.
pub open spec fn destination_of(cmd: CommandView) -> Option<Seq<char>> {
    match cmd {
        CommandView::SendMessage { to, .. } => Some(to),
        CommandView::SendChatState { to, .. } => Some(to),
        CommandView::SendMucMessage { to, .. } => Some(to),
        CommandView::JoinMuc { room, .. } => Some(room),
        _ => None,
    }
}

fn up_to_bracket(rest: &str) -> (r: Option<String>)
    ensures
        match index_from(rest@, ')', 0) {
            Some(end) => r is Some && r->0@ == rest@.take(end),
            None => r is None,
        },
{
    let chars = chars_of(rest);
    let mut i: usize = 0;
    while i < chars.len()
        invariant
            chars@ == rest@,
            0 <= i <= chars@.len(),
            index_from(rest@, ')', 0) == index_from(rest@, ')', i as int),
        decreases chars@.len() - i,
    {
        if chars[i] == ')' {
            let held = string_of(&chars, 0, i);
            assert(held@ =~= rest@.take(i as int));
            return Some(held);
        }
        i = i + 1;
    }
    None
}

/// The reference in a text.
pub fn extract_ref_correlation_id(body: &str) -> (r: Option<String>)
    ensures
        r.deep_view() == reference_in(body@),
{
    let chars = chars_of(body);
    match find(body, "(ref: ") {
        None => None,
        Some(start) => {
            proof {
                reveal_strlit("(ref: ");
                lemma_find_from(body@, "(ref: "@, 0);
            }
            let n: usize = chars.len();
            assert(start + 6 <= n);
            let rest = string_of(&chars, start + 6, n);
            assert(rest@ =~= body@.skip(start + 6));
            match up_to_bracket(rest.as_str()) {
                None => None,
                Some(held) => {
                    let value = trim(held.as_str());
                    if value.as_str().is_empty() {
                        None
                    } else {
                        Some(value)
                    }
                },
            }
        },
    }
}

/// The identifier under which a command is followed.
pub fn correlation_id_for_command(cmd: &XmppCommand) -> (r: String)
    ensures
        r@ == correlation_of_command(cmd.deep_view()),
{
    match cmd {
        XmppCommand::SendMessage { body, id, .. } => own_or_reference(id, body.as_str()),
        XmppCommand::SendMucMessage { body, id, .. } => own_or_reference(id, body.as_str()),
        _ => "unknown".to_owned(),
    }
}

fn own_or_reference(id: &Option<String>, body: &str) -> (r: String)
    ensures
        r@ == match id.deep_view() {
            Some(i) => i,
            None => match reference_in(body@) {
                Some(r) => r,
                None => "unknown"@,
            },
        },
{
    match id {
        Some(i) => i.clone(),
        None => match extract_ref_correlation_id(body) {
            Some(r) => r,
            None => "unknown".to_owned(),
        },
    }
}

/// The kind of a command.
pub fn command_kind(cmd: &XmppCommand) -> (r: &'static str)
    ensures
        r@ == kind_of(cmd.deep_view()),
{
    match cmd {
        XmppCommand::SendMessage { .. } => "send_message",
        XmppCommand::SendChatState { .. } => "send_chat_state",
        XmppCommand::SendMucMessage { .. } => "send_muc_message",
        XmppCommand::JoinMuc { .. } => "join_muc",
        XmppCommand::SendRaw(_) => "send_raw",
        XmppCommand::Ping => "ping",
    }
}

/// Where a command goes.
pub fn command_destination(cmd: &XmppCommand) -> (r: Option<String>)
    ensures
        r.deep_view() == destination_of(cmd.deep_view()),
{
    match cmd {
        XmppCommand::SendMessage { to, .. } => Some(to.clone()),
        XmppCommand::SendChatState { to, .. } => Some(to.clone()),
        XmppCommand::SendMucMessage { to, .. } => Some(to.clone()),
        XmppCommand::JoinMuc { room, .. } => Some(room.clone()),
        _ => None,
    }
}

// ---- laws --------------------------------------------------------------

/// No command is tried more often than once and the retries, and one that is
/// given up for time has used them all.
pub proof fn tries_are_bounded(actor: XmppEgressActor, attempt: usize, outcome: SendOutcome)
    requires
        attempt <= actor.max_retries < usize::MAX,
    ensures
        match actor.forwarded(attempt, outcome) {
            ForwardStep::Sent => outcome == SendOutcome::Sent,
            ForwardStep::RetryAfter(_) => attempt < actor.max_retries,
            ForwardStep::Failed { reason, attempts } => {
                &&& attempts <= actor.max_retries + 1
                &&& reason == EgressFailureReason::SendTimeoutExhausted ==> attempts
                    == actor.max_retries + 1
            },
        },
{
}

/// A closed transport is not tried again.
pub proof fn a_closed_transport_is_final(actor: XmppEgressActor, attempt: usize)
    requires
        attempt < usize::MAX,
    ensures
        actor.forwarded(attempt, SendOutcome::Closed) == (ForwardStep::Failed {
            reason: EgressFailureReason::TransportClosed,
            attempts: (attempt + 1) as usize,
        }),
{
}

proof fn lemma_sentences_hold_no_bracket(class: UserErrorClass)
    ensures
        forall|j: int|
            0 <= j < class_sentence(class).len() ==> #[trigger] class_sentence(class)[j] != '(',
{
    reveal_strlit("System busy. Please retry in a few seconds.");
    reveal_strlit("Service temporarily unavailable. Please retry in a few seconds.");
    reveal_strlit("Sorry, an internal error occurred. Please try again.");
    reveal_with_fuel(index_from, 65);
    lemma_index_from(class_sentence(class), '(', 0);
}

proof fn lemma_reference_reads_back(head: Seq<char>, id: Seq<char>)
    requires
        forall|j: int| 0 <= j < head.len() ==> #[trigger] head[j] != '(',
        !is_blank(id),
        !id.contains(')'),
    ensures
        reference_in(head + "(ref: "@ + id + ")"@) == Some(trimmed(id)),
{
    reveal_strlit("(ref: ");
    reveal_strlit(")");
    let body = head + "(ref: "@ + id + ")"@;
    let p = "(ref: "@;
    let k = head.len() as int;
    assert(body.subrange(k, k + 6) =~= p);
    assert(occurs_at(body, p, k));
    lemma_find_from(body, p, 0);
    assert forall|j: int| 0 <= j < k implies !occurs_at(body, p, j) by {
        if occurs_at(body, p, j) {
            assert(body.subrange(j, j + 6)[0] == body[j]);
            assert(body[j] == head[j]);
        }
    }
    assert(find_from(body, p, 0) == Some(k));
    let rest = body.skip(k + 6);
    assert(rest =~= id + ")"@);
    lemma_index_from(rest, ')', 0);
    assert(rest[id.len() as int] == ')');
    assert forall|j: int| 0 <= j < id.len() implies rest[j] != ')' by {
        assert(rest[j] == id[j]);
    }
    assert(index_from(rest, ')', 0) == Some(id.len() as int));
    assert(rest.take(id.len() as int) =~= id);
}

/// A command that tells a user of a failure is followed under the reference
/// that it gives: the one in its text reads back.
pub proof fn references_read_back(chain: Seq<Seq<char>>, id: Seq<char>, to: Seq<char>)
    requires
        !is_blank(id),
        !id.contains(')'),
    ensures
        reference_in(safe_message(chain, id)) == Some(trimmed(id)),
        correlation_of_command(
            CommandView::SendMessage { to, body: safe_message(chain, id), id: None },
        ) == trimmed(id),
{
    reveal_strlit(" (ref: ");
    reveal_strlit("(ref: ");
    let sentence = class_sentence(class_of(chain));
    let head = sentence.push(' ');
    lemma_sentences_hold_no_bracket(class_of(chain));
    assert forall|j: int| 0 <= j < head.len() implies #[trigger] head[j] != '(' by {
        if j < sentence.len() {
            assert(head[j] == sentence[j]);
        }
    }
    lemma_reference_reads_back(head, id);
    assert(safe_message(chain, id) =~= head + "(ref: "@ + id + ")"@);
}

/// The answer to an event that was turned away is followed under the
/// identifier of that event.
pub proof fn busy_answers_read_back(event: EventView, id: Seq<char>, retry_after_secs: u64)
    requires
        event is Message,
        !is_blank(id),
        !id.contains(')'),
    ensures
        busy_response(event, id, retry_after_secs) is Some,
        correlation_of_command(busy_response(event, id, retry_after_secs)->0) == trimmed(id),
{
    reveal_strlit("System busy. Please retry in ");
    reveal_strlit("s. (ref: ");
    reveal_strlit("(ref: ");
    let start = "System busy. Please retry in "@;
    let n = decimal(retry_after_secs as nat);
    let head = start + n + seq!['s', '.', ' '];
    lemma_decimal_value(retry_after_secs as nat);
    reveal_with_fuel(index_from, 31);
    lemma_index_from(start, '(', 0);
    assert forall|j: int| 0 <= j < head.len() implies #[trigger] head[j] != '(' by {
        if j < start.len() {
            assert(head[j] == start[j]);
        } else if j < start.len() + n.len() {
            assert(head[j] == n[j - start.len()]);
        }
    }
    lemma_reference_reads_back(head, id);
    assert(busy_text(retry_after_secs, id) =~= head + "(ref: "@ + id + ")"@);
}

/// A command that was taken is done; one that took too long is tried again,
/// after the base delay at first and twice the delay before after that, as long
/// as there are retries left.
pub proof fn retries_are_made(actor: XmppEgressActor, attempt: usize, base_ms: nat)
    requires
        actor.retry_backoff.nanos == base_ms * 1_000_000,
        attempt < actor.max_retries,
        attempt < 16,
        base_ms * pow2((attempt + 1) as nat) <= u64::MAX,
    ensures
        actor.forwarded(attempt, SendOutcome::Sent) == ForwardStep::Sent,
        match actor.forwarded(attempt, SendOutcome::TimedOut) {
            ForwardStep::RetryAfter(d) => d.nanos == base_ms * pow2(attempt as nat) * 1_000_000,
            _ => false,
        },
{
    vstd::arithmetic::power2::lemma_pow2_unfold((attempt + 1) as nat);
    let p = pow2(attempt as nat);
    assert(base_ms * p <= base_ms * pow2((attempt + 1) as nat)) by (nonlinear_arith)
        requires
            pow2((attempt + 1) as nat) == 2 * p,
    ;
    assert(actor.retry_backoff.nanos / NANOS_PER_MILLI == base_ms);
    assert(base_ms * p >= 0) by (nonlinear_arith);
}

/// A command that carries an identifier is followed under it; where it goes is
/// where it is addressed to, and its kind is that of the command.
pub proof fn commands_are_followed(
    to: Seq<char>,
    body: Seq<char>,
    id: Seq<char>,
    state: ChatState,
    msg_type: Seq<char>,
    other: Option<Seq<char>>,
)
    ensures
        correlation_of_command(CommandView::SendMessage { to, body, id: Some(id) }) == id,
        correlation_of_command(CommandView::SendMucMessage { to, body, id: Some(id) }) == id,
        correlation_of_command(CommandView::SendChatState { to, state, msg_type }) == "unknown"@,
        destination_of(CommandView::SendMessage { to, body, id: other }) == Some(to),
        destination_of(CommandView::SendMucMessage { to, body, id: other }) == Some(to),
        destination_of(CommandView::SendChatState { to, state, msg_type }) == Some(to),
        destination_of(CommandView::JoinMuc { room: to, nick: body }) == Some(to),
        destination_of(CommandView::SendRaw(body)) is None,
        destination_of(CommandView::Ping) is None,
        kind_of(CommandView::SendMessage { to, body, id: other }) == "send_message"@,
        kind_of(CommandView::SendMucMessage { to, body, id: other }) == "send_muc_message"@,
        kind_of(CommandView::SendChatState { to, state, msg_type }) == "send_chat_state"@,
        kind_of(CommandView::JoinMuc { room: to, nick: body }) == "join_muc"@,
        kind_of(CommandView::SendRaw(body)) == "send_raw"@,
        kind_of(CommandView::Ping) == "ping"@,
{
}

/// A text without a reference in it is followed under no identifier of its own.
pub proof fn texts_without_a_reference_are_unknown(to: Seq<char>, body: Seq<char>)
    requires
        !body.contains('('),
    ensures
        reference_in(body) is None,
        correlation_of_command(CommandView::SendMessage { to, body, id: None }) == "unknown"@,
        correlation_of_command(CommandView::SendMucMessage { to, body, id: None }) == "unknown"@,
{
    reveal_strlit("(ref: ");
    lemma_find_from(body, "(ref: "@, 0);
    assert forall|i: int| !#[trigger] occurs_at(body, "(ref: "@, i) by {
        if occurs_at(body, "(ref: "@, i) {
            assert(body.subrange(i, i + 6)[0] == '(');
            assert(body.contains(body[i]));
        }
    }
}

/// A command is given up either because it took too long too often or because
/// the transport is closed, and says which.
pub proof fn giving_up_has_a_reason(reason: EgressFailureReason)
    ensures
        reason == EgressFailureReason::SendTimeoutExhausted ==> reason_name(reason)
            == "send_timeout_exhausted"@,
        reason == EgressFailureReason::TransportClosed ==> reason_name(reason)
            == "transport_closed"@,
{
}

} // verus!
