//! Dead letters: records of what could not be delivered.

use super::mailbox::{
    after_failed_try, at_least_one, at_least_one_ms, lane_gave, lane_result, retry_millis, RetryStep,
    SendOutcome,
};
use super::skill_router::SkillContext;
use super::user_error::Failure;
use crate::agent::entries::{Attachment, AttachmentView, Reaction, StoredReactionView};
use crate::clock::now_millis;
use crate::text::{
    blank, chars_of, decimal, is_blank, number, split, split_at_char, string_of,
};
use crate::time::{Duration, NANOS_PER_MILLI};
use vstd::prelude::*;
use vstd::string::*;

verus! {

/// Where a dead letter comes from.
#[derive(Debug, Clone, Copy, PartialEq, Eq, Structural)]
pub enum DeadLetterSource {
    Router,
    XmppEgress,
    SkillRouter,
    MemoryActor,
    Unknown,
}

impl Default for DeadLetterSource {
    fn default() -> (r: Self)
        ensures
            r == DeadLetterSource::Unknown,
    {
        DeadLetterSource::Unknown
    }
}

/// A dead letter.
#[derive(Debug)]
pub struct DeadLetterRecord {
    pub timestamp_ms: i64,
    pub source: DeadLetterSource,
    pub reason: String,
    pub correlation_id: String,
    pub conversation_id: Option<String>,
    pub payload_kind: String,
    pub destination: Option<String>,
    pub attempts: Option<usize>,
    pub received_at_ms: Option<i64>,
    pub busy_response: Option<String>,
    pub payload: Option<serde_json::Value>,
}

/// The model of [`DeadLetterRecord`].
pub ghost struct RecordView {
    pub timestamp_ms: i64,
    pub source: DeadLetterSource,
    pub reason: Seq<char>,
    pub correlation_id: Seq<char>,
    pub conversation_id: Option<Seq<char>>,
    pub payload_kind: Seq<char>,
    pub destination: Option<Seq<char>>,
    pub attempts: Option<usize>,
    pub received_at_ms: Option<i64>,
    pub busy_response: Option<Seq<char>>,
    pub payload: Option<serde_json::Value>,
}

impl DeepView for DeadLetterRecord {
    type V = RecordView;

    open spec fn deep_view(&self) -> RecordView {
        RecordView {
            timestamp_ms: self.timestamp_ms,
            source: self.source,
            reason: self.reason@,
            correlation_id: self.correlation_id@,
            conversation_id: self.conversation_id.deep_view(),
            payload_kind: self.payload_kind@,
            destination: self.destination.deep_view(),
            attempts: self.attempts,
            received_at_ms: self.received_at_ms,
            busy_response: self.busy_response.deep_view(),
            payload: self.payload,
        }
    }
}

/// The name of a source.
pub open spec fn source_name(source: DeadLetterSource) -> Seq<char> {
    match source {
        DeadLetterSource::Router => "Router"@,
        DeadLetterSource::XmppEgress => "XmppEgress"@,
        DeadLetterSource::SkillRouter => "SkillRouter"@,
        DeadLetterSource::MemoryActor => "MemoryActor"@,
        DeadLetterSource::Unknown => "Unknown"@,
    }
}

impl DeadLetterSource {
    /// The name of the source.
    pub fn name(&self) -> (r: &'static str)
        ensures
            r@ == source_name(*self),
    {
        match self {
            DeadLetterSource::Router => "Router",
            DeadLetterSource::XmppEgress => "XmppEgress",
            DeadLetterSource::SkillRouter => "SkillRouter",
            DeadLetterSource::MemoryActor => "MemoryActor",
            DeadLetterSource::Unknown => "Unknown",
        }
    }
}

/// A write to memory, kept so that it can be done again.
#[derive(Debug)]
pub enum DeadLetterMemoryReplayPayload {
    StoreMessageStructured {
        jid: String,
        role: String,
        content: String,
        msg_id: Option<String>,
        sender: Option<String>,
    },
    StoreMessageFull {
        jid: String,
        role: String,
        content: String,
        msg_id: Option<String>,
        sender: Option<String>,
        attachments: Option<Vec<Attachment>>,
        reaction: Option<Reaction>,
    },
}

/// A run of a skill, kept so that it can be done again.
#[derive(Debug)]
pub struct DeadLetterSkillReplayPayload {
    pub skill_name: String,
    pub params: serde_json::Value,
    pub context: SkillContext,
}

/// The model of a write to memory.
pub ghost struct StoreView {
    /// Whether attachments and a reaction can come with the message.
    pub full: bool,
    pub jid: Seq<char>,
    pub role: Seq<char>,
    pub content: Seq<char>,
    pub msg_id: Option<Seq<char>>,
    pub sender: Option<Seq<char>>,
    pub attachments: Option<Seq<AttachmentView>>,
    pub reaction: Option<StoredReactionView>,
}

impl DeepView for DeadLetterMemoryReplayPayload {
    type V = StoreView;

    open spec fn deep_view(&self) -> StoreView {
        match self {
            DeadLetterMemoryReplayPayload::StoreMessageStructured {
                jid,
                role,
                content,
                msg_id,
                sender,
            } => StoreView {
                full: false,
                jid: jid@,
                role: role@,
                content: content@,
                msg_id: msg_id.deep_view(),
                sender: sender.deep_view(),
                attachments: None,
                reaction: None,
            },
            DeadLetterMemoryReplayPayload::StoreMessageFull {
                jid,
                role,
                content,
                msg_id,
                sender,
                attachments,
                reaction,
            } => StoreView {
                full: true,
                jid: jid@,
                role: role@,
                content: content@,
                msg_id: msg_id.deep_view(),
                sender: sender.deep_view(),
                attachments: attachments.deep_view(),
                reaction: reaction.deep_view(),
            },
        }
    }
}

impl DeadLetterRecord {
    /// The record of an event that the router dropped.
    pub fn router(
        reason: &str,
        conversation_id: String,
        correlation_id: String,
        received_at_ms: i64,
        event_kind: &str,
        busy_response: &str,
    ) -> (r: Self)
        ensures
            r.timestamp_ms >= 0,
            r.deep_view() == (RecordView {
                timestamp_ms: r.timestamp_ms,
                source: DeadLetterSource::Router,
                reason: reason@,
                correlation_id: correlation_id@,
                conversation_id: Some(conversation_id@),
                payload_kind: event_kind@,
                destination: None,
                attempts: None,
                received_at_ms: Some(received_at_ms),
                busy_response: Some(busy_response@),
                payload: None,
            }),
    {
        DeadLetterRecord {
            timestamp_ms: now_millis(),
            source: DeadLetterSource::Router,
            reason: reason.to_owned(),
            correlation_id,
            conversation_id: Some(conversation_id),
            payload_kind: event_kind.to_owned(),
            destination: None,
            attempts: None,
            received_at_ms: Some(received_at_ms),
            busy_response: Some(busy_response.to_owned()),
            payload: None,
        }
    }

    /// The record of a command that did not get out, without its payload.
    pub fn xmpp_egress(
        reason: &str,
        correlation_id: String,
        command_kind: &str,
        destination: Option<String>,
        attempts: usize,
    ) -> (r: Self)
        ensures
            r.timestamp_ms >= 0,
            r.deep_view() == (RecordView {
                timestamp_ms: r.timestamp_ms,
                source: DeadLetterSource::XmppEgress,
                reason: reason@,
                correlation_id: correlation_id@,
                conversation_id: None,
                payload_kind: command_kind@,
                destination: destination.deep_view(),
                attempts: Some(attempts),
                received_at_ms: None,
                busy_response: None,
                payload: None,
            }),
    {
        DeadLetterRecord::xmpp_egress_with_payload(
            reason,
            correlation_id,
            command_kind,
            destination,
            attempts,
            None,
        )
    }

    /// The record of a command that did not get out.
    pub fn xmpp_egress_with_payload(
        reason: &str,
        correlation_id: String,
        command_kind: &str,
        destination: Option<String>,
        attempts: usize,
        payload: Option<serde_json::Value>,
    ) -> (r: Self)
        ensures
            r.timestamp_ms >= 0,
            r.deep_view() == (RecordView {
                timestamp_ms: r.timestamp_ms,
                source: DeadLetterSource::XmppEgress,
                reason: reason@,
                correlation_id: correlation_id@,
                conversation_id: None,
                payload_kind: command_kind@,
                destination: destination.deep_view(),
                attempts: Some(attempts),
                received_at_ms: None,
                busy_response: None,
                payload,
            }),
    {
        DeadLetterRecord {
            timestamp_ms: now_millis(),
            source: DeadLetterSource::XmppEgress,
            reason: reason.to_owned(),
            correlation_id,
            conversation_id: None,
            payload_kind: command_kind.to_owned(),
            destination,
            attempts: Some(attempts),
            received_at_ms: None,
            busy_response: None,
            payload,
        }
    }

    /// The record of a skill that could not run.
    pub fn skill_router_with_payload(
        reason: &str,
        conversation_id: String,
        correlation_id: String,
        skill_name: &str,
        payload: Option<serde_json::Value>,
    ) -> (r: Self)
        ensures
            r.timestamp_ms >= 0,
            r.deep_view() == (RecordView {
                timestamp_ms: r.timestamp_ms,
                source: DeadLetterSource::SkillRouter,
                reason: reason@,
                correlation_id: correlation_id@,
                conversation_id: Some(conversation_id@),
                payload_kind: skill_name@,
                destination: None,
                attempts: None,
                received_at_ms: None,
                busy_response: None,
                payload,
            }),
    {
        DeadLetterRecord {
            timestamp_ms: now_millis(),
            source: DeadLetterSource::SkillRouter,
            reason: reason.to_owned(),
            correlation_id,
            conversation_id: Some(conversation_id),
            payload_kind: skill_name.to_owned(),
            destination: None,
            attempts: None,
            received_at_ms: None,
            busy_response: None,
            payload,
        }
    }

    /// The record of a write that did not get to memory.
    pub fn memory_actor_with_payload(
        reason: &str,
        conversation_id: String,
        correlation_id: String,
        operation: &str,
        payload: Option<serde_json::Value>,
    ) -> (r: Self)
        ensures
            r.timestamp_ms >= 0,
            r.deep_view() == (RecordView {
                timestamp_ms: r.timestamp_ms,
                source: DeadLetterSource::MemoryActor,
                reason: reason@,
                correlation_id: correlation_id@,
                conversation_id: Some(conversation_id@),
                payload_kind: operation@,
                destination: None,
                attempts: None,
                received_at_ms: None,
                busy_response: None,
                payload,
            }),
    {
        DeadLetterRecord {
            timestamp_ms: now_millis(),
            source: DeadLetterSource::MemoryActor,
            reason: reason.to_owned(),
            correlation_id,
            conversation_id: Some(conversation_id),
            payload_kind: operation.to_owned(),
            destination: None,
            attempts: None,
            received_at_ms: None,
            busy_response: None,
            payload,
        }
    }
}

/// The settings of the service that keeps dead letters.
#[derive(Debug)]
pub struct DeadLetterService {
    pub path: String,
    pub enqueue_timeout: Duration,
    pub mailbox_size: usize,
    pub write_max_retries: usize,
    pub write_retry_backoff: Duration,
}

impl DeadLetterService {
    /// The service with its usual settings.
    pub fn new(path: String) -> (r: Self)
        ensures
            r.path@ == path@,
            r.enqueue_timeout.nanos == 200 * NANOS_PER_MILLI,
            r.mailbox_size == 1024,
            r.write_max_retries == 3,
            r.write_retry_backoff.nanos == 20 * NANOS_PER_MILLI,
            r.write_retry_backoff.wf(),
    {
        DeadLetterService::with_config(path, 1024, 200, 3, 20)
    }

    /// The service with settings of its own; the mailbox holds at least one
    /// request and the time limit is at least a millisecond.
    pub fn with_config(
        path: String,
        mailbox_size: usize,
        enqueue_timeout_ms: u64,
        write_max_retries: usize,
        write_retry_backoff_ms: u64,
    ) -> (r: Self)
        ensures
            r.path@ == path@,
            r.enqueue_timeout.nanos == (if enqueue_timeout_ms == 0 {
                1
            } else {
                enqueue_timeout_ms
            }) * NANOS_PER_MILLI,
            r.mailbox_size == (if mailbox_size == 0 {
                1
            } else {
                mailbox_size
            }),
            r.write_max_retries == write_max_retries,
            r.write_retry_backoff.nanos == write_retry_backoff_ms * NANOS_PER_MILLI,
            r.write_retry_backoff.wf(),
    {
        DeadLetterService {
            path,
            enqueue_timeout: at_least_one_ms(enqueue_timeout_ms),
            mailbox_size: at_least_one(mailbox_size),
            write_max_retries,
            write_retry_backoff: Duration::from_millis(write_retry_backoff_ms),
        }
    }

    /// What the caller gets who has a dead letter recorded.
    pub fn record(outcome: SendOutcome, reply: Option<Result<(), Failure>>) -> (r: Result<
        (),
        Failure,
    >)
        ensures
            lane_gave("dead_letter_service"@, outcome, reply, r),
    {
        lane_result("dead_letter_service", outcome, reply)
    }

    /// What the caller gets who asks for the dead letters.
    pub fn replay(
        outcome: SendOutcome,
        reply: Option<Result<Vec<DeadLetterRecord>, Failure>>,
    ) -> (r: Result<Vec<DeadLetterRecord>, Failure>)
        ensures
            lane_gave("dead_letter_service"@, outcome, reply, r),
    {
        lane_result("dead_letter_service", outcome, reply)
    }

    /// What is done after the try with this index to write a dead letter
    /// failed.
    pub fn append_with_retries(&self, attempt: usize) -> (r: RetryStep)
        requires
            self.write_retry_backoff.wf(),
        ensures
            match r {
                RetryStep::GiveUp => attempt >= self.write_max_retries,
                RetryStep::RetryAfter(d) => attempt < self.write_max_retries && d.nanos
                    == retry_millis(
                    (self.write_retry_backoff.nanos / NANOS_PER_MILLI) as nat,
                    attempt as nat,
                ) * NANOS_PER_MILLI,
            },
    {
        after_failed_try(attempt, self.write_max_retries, self.write_retry_backoff)
    }

    /// Where the dead letters are kept.
    pub fn path(&self) -> (r: &str)
        ensures
            r@ == self.path@,
    {
        self.path.as_str()
    }
}

// ---- reading back ------------------------------------------------------

/// A line of the file with its number, counted from one.
#[derive(Debug)]
pub struct NumberedLine {
    pub number: usize,
    pub text: String,
}

impl DeepView for NumberedLine {
    type V = (usize, Seq<char>);

    open spec fn deep_view(&self) -> (usize, Seq<char>) {
        (self.number, self.text@)
    }
}

/// A line that ends in a carriage return and a line feed, without both; any
/// other without the line feed.
pub open spec fn line_at(parts: Seq<Seq<char>>, i: int) -> Seq<char> {
    if i < parts.len() - 1 && parts[i].len() > 0 && parts[i].last() == '\r' {
        parts[i].drop_last()
    } else {
        parts[i]
    }
}

/// The lines among the first `n` that are not blank, with their numbers.
pub open spec fn lines_upto(parts: Seq<Seq<char>>, n: int) -> Seq<(usize, Seq<char>)>
    decreases n,
{
    if n <= 0 {
        Seq::empty()
    } else if is_blank(line_at(parts, n - 1)) {
        lines_upto(parts, n - 1)
    } else {
        lines_upto(parts, n - 1).push((n as usize, line_at(parts, n - 1)))
    }
}

/// The lines of the file that hold a record, with their numbers.
pub open spec fn record_lines(raw: Seq<char>) -> Seq<(usize, Seq<char>)> {
    let parts = split(raw, '\n');
    lines_upto(parts, parts.len() as int)
}

fn without_carriage_return(s: &str) -> (r: String)
    ensures
        r@ == if s@.len() > 0 && s@.last() == '\r' {
            s@.drop_last()
        } else {
            s@
        },
{
    let chars = chars_of(s);
    let n: usize = chars.len();
    if n > 0 && chars[n - 1] == '\r' {
        let r = string_of(&chars, 0, n - 1);
        assert(r@ =~= s@.drop_last());
        r
    } else {
        s.to_owned()
    }
}

/// The lines of the file that hold a record, with their numbers.
pub fn lines_with_numbers(raw: &str) -> (r: Vec<NumberedLine>)
    ensures
        r.deep_view() == record_lines(raw@),
{
    let parts = split_at_char(raw, '\n');
    let ghost all = parts.deep_view();
    let mut out: Vec<NumberedLine> = Vec::new();
    let n: usize = parts.len();
    let mut i: usize = 0;
    while i < n
        invariant
            all == parts.deep_view(),
            n == parts@.len(),
            0 <= i <= n,
            out.deep_view() == lines_upto(all, i as int),
        decreases n - i,
    {
        let ghost so_far = out.deep_view();
        let line = if i < n - 1 {
            without_carriage_return(parts[i].as_str())
        } else {
            parts[i].clone()
        };
        assert(line@ == line_at(all, i as int));
        if !blank(line.as_str()) {
            out.push(NumberedLine { number: i + 1, text: line });
            assert(out.deep_view() =~= so_far.push(((i + 1) as usize, line_at(all, i as int))));
        }
        i = i + 1;
    }
    out
}

/// A line that was read: its number, and the record or why there is none.
#[derive(Debug)]
pub struct ReadLine {
    pub number: usize,
    pub outcome: Result<DeadLetterRecord, String>,
}

/// The first line at or behind `i` without a record.
pub open spec fn first_bad(lines: Seq<ReadLine>, i: int) -> Option<int>
    decreases lines.len() - i,
{
    if i >= lines.len() {
        None
    } else if lines[i].outcome is Err {
        Some(i)
    } else {
        first_bad(lines, i + 1)
    }
}

/// What is said of a line without a record.
pub open spec fn bad_line(number: nat) -> Seq<char> {
    "invalid dead-letter JSON on line "@ + decimal(number)
}

/// The records of the lines; where a line has none, the failure that names
/// the first such line.
pub fn read_dead_letters(lines: Vec<ReadLine>) -> (r: Result<Vec<DeadLetterRecord>, Failure>)
    ensures
        match first_bad(lines@, 0) {
            Some(k) => r is Err && r->Err_0.deep_view() == seq![
                bad_line(lines@[k].number as nat),
                lines@[k].outcome->Err_0@,
            ],
            None => r is Ok && r->Ok_0@ == lines@.map_values(|l: ReadLine| l.outcome->Ok_0),
        },
{
    let ghost all = lines@;
    let mut i: usize = 0;
    while i < lines.len()
        invariant
            all == lines@,
            0 <= i <= all.len(),
            first_bad(all, 0) == first_bad(all, i as int),
        decreases all.len() - i,
    {
        if let Err(reason) = &lines[i].outcome {
            let mut s = "invalid dead-letter JSON on line ".to_owned();
            s.append(number(lines[i].number as u64).as_str());
            let mut causes: Vec<String> = Vec::new();
            let ghost text = s@;
            causes.push(s);
            causes.push(reason.clone());
            assert(causes.deep_view() =~= seq![text, reason@]);
            return Err(Failure { causes });
        }
        i = i + 1;
    }
    proof {
        lemma_all_good(all, 0);
    }
    let mut records: Vec<DeadLetterRecord> = Vec::new();
    let ghost wanted = all.map_values(|l: ReadLine| l.outcome->Ok_0);
    let mut rest = lines;
    while rest.len() > 0
        invariant
            rest@ == all.skip(records@.len() as int),
            records@.len() <= all.len(),
            wanted == all.map_values(|l: ReadLine| l.outcome->Ok_0),
            records@ == wanted.take(records@.len() as int),
            forall|j: int| 0 <= j < all.len() ==> #[trigger] all[j].outcome is Ok,
        decreases rest@.len(),
    {
        let ghost done = records@.len() as int;
        let line = rest.remove(0);
        assert(line == all[done]);
        assert(rest@ =~= all.skip(done + 1));
        match line.outcome {
            Ok(record) => {
                records.push(record);
            },
            Err(_) => {},
        }
        assert(records@ =~= wanted.take(done + 1));
    }
    assert(wanted.take(wanted.len() as int) == wanted);
    Ok(records)
}

proof fn lemma_all_good(lines: Seq<ReadLine>, i: int)
    requires
        0 <= i <= lines.len(),
        first_bad(lines, i) is None,
    ensures
        forall|j: int| i <= j < lines.len() ==> #[trigger] lines[j].outcome is Ok,
    decreases lines.len() - i,
{
    if i < lines.len() {
        lemma_all_good(lines, i + 1);
    }
}

/// The lines that say anything are read under their place in the file, counted
/// from one, without the carriage return before a line break, and in order.
pub proof fn lines_keep_their_number(parts: Seq<Seq<char>>, n: int, i: int)
    requires
        0 <= i < n <= parts.len(),
        parts.len() <= usize::MAX,
    ensures
        !is_blank(parts[i]) && !parts[i].contains('\r') ==> lines_upto(parts, n).contains(
            ((i + 1) as usize, parts[i]),
        ),
        is_blank(parts[i]) && !parts[i].contains('\r') ==> forall|k: int|
            0 <= k < lines_upto(parts, n).len() ==> (#[trigger] lines_upto(parts, n)[k]).0 != i + 1,
        forall|k: int|
            0 <= k < lines_upto(parts, n).len() ==> 1 <= (#[trigger] lines_upto(parts, n)[k]).0
                <= n,
        forall|k: int, l: int|
            0 <= k < l < lines_upto(parts, n).len() ==> (#[trigger] lines_upto(parts, n)[k]).0 < (
            #[trigger] lines_upto(parts, n)[l]).0,
    decreases n,
{
    lemma_numbers(parts, n);
    if !parts[i].contains('\r') {
        assert(line_at(parts, i) == parts[i]) by {
            if parts[i].len() > 0 {
                assert(parts[i].contains(parts[i].last()));
            }
        }
        lemma_line_is_read(parts, n, i);
    }
}

proof fn lemma_numbers(parts: Seq<Seq<char>>, n: int)
    requires
        0 <= n <= parts.len(),
        parts.len() <= usize::MAX,
    ensures
        forall|k: int|
            0 <= k < lines_upto(parts, n).len() ==> 1 <= (#[trigger] lines_upto(parts, n)[k]).0
                <= n,
        forall|k: int, l: int|
            0 <= k < l < lines_upto(parts, n).len() ==> (#[trigger] lines_upto(parts, n)[k]).0 < (
            #[trigger] lines_upto(parts, n)[l]).0,
    decreases n,
{
    if n > 0 {
        lemma_numbers(parts, n - 1);
        let before = lines_upto(parts, n - 1);
        let after = lines_upto(parts, n);
        assert forall|k: int| 0 <= k < after.len() implies 1 <= (#[trigger] after[k]).0 <= n by {
            if k < before.len() {
                assert(after[k] == before[k]);
            }
        }
        assert forall|k: int, l: int| 0 <= k < l < after.len() implies (#[trigger] after[k]).0 < (
        #[trigger] after[l]).0 by {
            assert(after[k] == before[k]);
            if l < before.len() {
                assert(after[l] == before[l]);
            }
        }
    }
}

proof fn lemma_line_is_read(parts: Seq<Seq<char>>, n: int, i: int)
    requires
        0 <= i < n <= parts.len(),
        parts.len() <= usize::MAX,
        line_at(parts, i) == parts[i],
    ensures
        !is_blank(parts[i]) ==> lines_upto(parts, n).contains(((i + 1) as usize, parts[i])),
        is_blank(parts[i]) ==> forall|k: int|
            0 <= k < lines_upto(parts, n).len() ==> (#[trigger] lines_upto(parts, n)[k]).0 != i + 1,
    decreases n,
{
    let before = lines_upto(parts, n - 1);
    let after = lines_upto(parts, n);
    lemma_numbers(parts, n - 1);
    if i == n - 1 {
        if !is_blank(parts[i]) {
            assert(after.last() == ((i + 1) as usize, parts[i]));
            assert(after.contains(after.last()));
        }
    } else {
        lemma_line_is_read(parts, n - 1, i);
        if !is_blank(parts[i]) {
            let k = before.index_of(((i + 1) as usize, parts[i]));
            assert(after[k] == before[k]);
        } else {
            assert forall|k: int| 0 <= k < after.len() implies (#[trigger] after[k]).0 != i + 1 by {
                if k < before.len() {
                    assert(after[k] == before[k]);
                }
            }
        }
    }
}

/// A carriage return before a line break is part of the break.
pub proof fn carriage_returns_are_dropped(parts: Seq<Seq<char>>, i: int, line: Seq<char>)
    requires
        0 <= i < parts.len() - 1,
        parts[i] == line.push('\r'),
    ensures
        line_at(parts, i) == line,
{
    assert(line.push('\r').drop_last() =~= line);
}

/// Records are read only where every line is good; otherwise the first bad one
/// is what is complained of, with its number.
pub proof fn the_first_bad_line_is_named(lines: Seq<ReadLine>, i: int, number: nat)
    requires
        0 <= i <= lines.len(),
    ensures
        match first_bad(lines, i) {
            Some(k) => i <= k < lines.len() && lines[k].outcome is Err && forall|j: int|
                i <= j < k ==> (#[trigger] lines[j]).outcome is Ok,
            None => forall|j: int| i <= j < lines.len() ==> (#[trigger] lines[j]).outcome is Ok,
        },
        bad_line(number) == "invalid dead-letter JSON on line "@ + decimal(number),
    decreases lines.len() - i,
{
    if i < lines.len() && lines[i].outcome is Ok {
        the_first_bad_line_is_named(lines, i + 1, number);
    }
}

/// Two places that dead letters come from have different names.
pub proof fn sources_have_different_names(a: DeadLetterSource, b: DeadLetterSource)
    requires
        a != b,
    ensures
        source_name(a) != source_name(b),
        a == DeadLetterSource::Router ==> source_name(a) == "Router"@,
        a == DeadLetterSource::XmppEgress ==> source_name(a) == "XmppEgress"@,
        a == DeadLetterSource::SkillRouter ==> source_name(a) == "SkillRouter"@,
        a == DeadLetterSource::MemoryActor ==> source_name(a) == "MemoryActor"@,
{
    reveal_strlit("Router");
    reveal_strlit("XmppEgress");
    reveal_strlit("SkillRouter");
    reveal_strlit("MemoryActor");
    reveal_strlit("Unknown");
    assert("SkillRouter"@[0] == 'S' && "MemoryActor"@[0] == 'M' && "Router"@[0] == 'R'
        && "XmppEgress"@[0] == 'X' && "Unknown"@[0] == 'U');
}

} // verus!
