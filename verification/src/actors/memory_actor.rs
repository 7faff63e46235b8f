//! The lane that writes to memory: requests, batches and shards.

use super::dead_letter::{DeadLetterMemoryReplayPayload, DeadLetterRecord, RecordView, StoreView};
use super::mailbox::{
    at_least_one, at_least_one_ms, mailbox_failure, send_failure, SendOutcome,
};
use super::user_error::Failure;
use crate::agent::entries::{
    copy_attachments, copy_reaction, copy_text, lend_text, Attachment, Reaction,
};
use crate::agent::memory::{message_stored, Memory};
use crate::ids::{is_uuid_text, new_id};
use crate::time::{Duration, NANOS_PER_MILLI};
use vstd::prelude::*;
use vstd::string::*;

verus! {

/// A write to memory.
#[derive(Debug)]
pub enum MemoryRequest {
    StoreMessageStructured {
        jid: String,
        role: String,
        content: String,
        msg_id: Option<String>,
        sender: Option<String>,
    },
    StoreMessageFull {
        jid: String,
        role: String,
        content: String,
        msg_id: Option<String>,
        sender: Option<String>,
        attachments: Option<Vec<Attachment>>,
        reaction: Option<Reaction>,
    },
}

impl DeepView for MemoryRequest {
    type V = StoreView;

    open spec fn deep_view(&self) -> StoreView {
        match self {
            MemoryRequest::StoreMessageStructured { jid, role, content, msg_id, sender } =>
                StoreView {
                full: false,
                jid: jid@,
                role: role@,
                content: content@,
                msg_id: msg_id.deep_view(),
                sender: sender.deep_view(),
                attachments: None,
                reaction: None,
            },
            MemoryRequest::StoreMessageFull {
                jid,
                role,
                content,
                msg_id,
                sender,
                attachments,
                reaction,
            } => StoreView {
                full: true,
                jid: jid@,
                role: role@,
                content: content@,
                msg_id: msg_id.deep_view(),
                sender: sender.deep_view(),
                attachments: attachments.deep_view(),
                reaction: reaction.deep_view(),
            },
        }
    }
}

/// The name of a write.
pub open spec fn operation_name(request: StoreView) -> Seq<char> {
    if request.full {
        "store_message_full"@
    } else {
        "store_message_structured"@
    }
}

impl MemoryRequest {
    /// The conversation that the write belongs to.
    pub fn conversation_id(&self) -> (r: &str)
        ensures
            r@ == self.deep_view().jid,
    {
        match self {
            MemoryRequest::StoreMessageStructured { jid, .. } => jid.as_str(),
            MemoryRequest::StoreMessageFull { jid, .. } => jid.as_str(),
        }
    }

    /// The identifier of the message, where it has one.
    pub fn correlation_id(&self) -> (r: Option<&str>)
        ensures
            r.deep_view() == self.deep_view().msg_id,
    {
        match self {
            MemoryRequest::StoreMessageStructured { msg_id, .. } => lend_text(msg_id),
            MemoryRequest::StoreMessageFull { msg_id, .. } => lend_text(msg_id),
        }
    }

    /// The name of the write.
    pub fn operation(&self) -> (r: &'static str)
        ensures
            r@ == operation_name(self.deep_view()),
    {
        match self {
            MemoryRequest::StoreMessageStructured { .. } => "store_message_structured",
            MemoryRequest::StoreMessageFull { .. } => "store_message_full",
        }
    }

    /// The write as it is kept to be done again.
    pub fn replay_payload(&self) -> (r: DeadLetterMemoryReplayPayload)
        ensures
            r.deep_view() == self.deep_view(),
    {
        match self {
            MemoryRequest::StoreMessageStructured { jid, role, content, msg_id, sender } => {
                DeadLetterMemoryReplayPayload::StoreMessageStructured {
                    jid: jid.clone(),
                    role: role.clone(),
                    content: content.clone(),
                    msg_id: copy_text(msg_id),
                    sender: copy_text(sender),
                }
            },
            MemoryRequest::StoreMessageFull {
                jid,
                role,
                content,
                msg_id,
                sender,
                attachments,
                reaction,
            } => DeadLetterMemoryReplayPayload::StoreMessageFull {
                jid: jid.clone(),
                role: role.clone(),
                content: content.clone(),
                msg_id: copy_text(msg_id),
                sender: copy_text(sender),
                attachments: copy_attachments(attachments),
                reaction: copy_reaction(reaction),
            },
        }
    }
}

/// Whatever writes messages to memory.
pub trait SessionMemoryWriter {
    fn store_message_structured(
        &mut self,
        jid: &str,
        role: &str,
        content: &str,
        msg_id: Option<&str>,
        sender: Option<&str>,
    );

    #[allow(clippy::too_many_arguments)]
    fn store_message_full(
        &mut self,
        jid: &str,
        role: &str,
        content: &str,
        msg_id: Option<&str>,
        sender: Option<&str>,
        attachments: Option<Vec<Attachment>>,
        reaction: Option<Reaction>,
    );
}

impl SessionMemoryWriter for Memory {
    fn store_message_structured(
        &mut self,
        jid: &str,
        role: &str,
        content: &str,
        msg_id: Option<&str>,
        sender: Option<&str>,
    )
        ensures
            message_stored(
                old(self).deep_view(),
                final(self).deep_view(),
                jid@,
                role@,
                content@,
                msg_id.deep_view(),
                sender.deep_view(),
                None,
                None,
            ),
    {
        Memory::store_message_structured(self, jid, role, content, msg_id, sender)
    }

    fn store_message_full(
        &mut self,
        jid: &str,
        role: &str,
        content: &str,
        msg_id: Option<&str>,
        sender: Option<&str>,
        attachments: Option<Vec<Attachment>>,
        reaction: Option<Reaction>,
    )
        ensures
            message_stored(
                old(self).deep_view(),
                final(self).deep_view(),
                jid@,
                role@,
                content@,
                msg_id.deep_view(),
                sender.deep_view(),
                attachments.deep_view(),
                reaction.deep_view(),
            ),
    {
        Memory::store_message_full(
            self,
            jid,
            role,
            content,
            msg_id,
            sender,
            attachments,
            reaction,
        )
    }
}

/// Does a write.
pub fn process_request(memory: &mut Memory, request: MemoryRequest)
    ensures
        message_stored(
            old(memory).deep_view(),
            final(memory).deep_view(),
            request.deep_view().jid,
            request.deep_view().role,
            request.deep_view().content,
            request.deep_view().msg_id,
            request.deep_view().sender,
            request.deep_view().attachments,
            request.deep_view().reaction,
        ),
{
    match request {
        MemoryRequest::StoreMessageStructured { jid, role, content, msg_id, sender } => {
            Memory::store_message_structured(
                memory,
                jid.as_str(),
                role.as_str(),
                content.as_str(),
                lend_text(&msg_id),
                lend_text(&sender),
            );
        },
        MemoryRequest::StoreMessageFull {
            jid,
            role,
            content,
            msg_id,
            sender,
            attachments,
            reaction,
        } => {
            Memory::store_message_full(
                memory,
                jid.as_str(),
                role.as_str(),
                content.as_str(),
                lend_text(&msg_id),
                lend_text(&sender),
                attachments,
                reaction,
            );
        },
    }
}

/// The settings of a memory lane.
#[derive(Debug, Clone, Copy)]
pub struct MemoryActor {
    pub enqueue_timeout: Duration,
    pub mailbox_size: usize,
    pub write_batch_max: usize,
    pub write_batch_max_delay: Duration,
}

/// What the sender of a write learns, and what is recorded of it.
#[derive(Debug)]
pub struct DispatchOutcome {
    /// The failure, where the write did not get into the mailbox.
    pub failure: Option<Failure>,
    /// The reason under which it is a dead letter then.
    pub dead_letter_reason: Option<&'static str>,
}

impl MemoryActor {
    /// A lane; its sizes and its time limit are at least one.
    pub fn new(
        enqueue_timeout_ms: u64,
        mailbox_size: usize,
        write_batch_max: usize,
        write_batch_max_delay_ms: u64,
    ) -> (r: Self)
        ensures
            r.enqueue_timeout.nanos == (if enqueue_timeout_ms == 0 {
                1
            } else {
                enqueue_timeout_ms
            }) * NANOS_PER_MILLI,
            r.mailbox_size == (if mailbox_size == 0 {
                1
            } else {
                mailbox_size
            }),
            r.write_batch_max == (if write_batch_max == 0 {
                1
            } else {
                write_batch_max
            }),
            r.write_batch_max_delay.nanos == write_batch_max_delay_ms * NANOS_PER_MILLI,
    {
        MemoryActor {
            enqueue_timeout: at_least_one_ms(enqueue_timeout_ms),
            mailbox_size: at_least_one(mailbox_size),
            write_batch_max: at_least_one(write_batch_max),
            write_batch_max_delay: Duration::from_millis(write_batch_max_delay_ms),
        }
    }

    /// How long a batch that holds `held` requests and was begun `elapsed` ago
    /// waits for another one; `None` where it is written now.
    pub fn wait_for_more(&self, held: usize, elapsed: Duration) -> (r: Option<Duration>)
        ensures
            match r {
                Some(wait) => {
                    &&& self.write_batch_max > 1
                    &&& held < self.write_batch_max
                    &&& elapsed.nanos < self.write_batch_max_delay.nanos
                    &&& wait.nanos == self.write_batch_max_delay.nanos - elapsed.nanos
                },
                None => {
                    ||| self.write_batch_max <= 1
                    ||| held >= self.write_batch_max
                    ||| elapsed.nanos >= self.write_batch_max_delay.nanos
                },
            },
    {
        if self.write_batch_max > 1 && held < self.write_batch_max && elapsed.nanos
            < self.write_batch_max_delay.nanos {
            Some(Duration { nanos: self.write_batch_max_delay.nanos - elapsed.nanos })
        } else {
            None
        }
    }

    /// What follows from trying to put a write into the mailbox.
    pub fn dispatch(outcome: SendOutcome) -> (r: DispatchOutcome)
        ensures
            match send_failure("memory"@, outcome) {
                Some(code) => r.failure is Some && r.failure->0.deep_view() == seq![code],
                None => r.failure is None,
            },
            r.dead_letter_reason.deep_view() == match outcome {
                SendOutcome::Sent => None,
                SendOutcome::Closed => Some("memory_mailbox_closed"@),
                SendOutcome::TimedOut => Some("memory_enqueue_timeout"@),
            },
    {
        DispatchOutcome {
            failure: mailbox_failure("memory", outcome),
            dead_letter_reason: match outcome {
                SendOutcome::Sent => None,
                SendOutcome::Closed => Some("memory_mailbox_closed"),
                SendOutcome::TimedOut => Some("memory_enqueue_timeout"),
            },
        }
    }

    /// The dead letter of a write, with the payload to do it again; a write
    /// without a message id is followed under a fresh identifier.
    pub fn record_dead_letter(
        reason: &str,
        request: &MemoryRequest,
        payload: Option<serde_json::Value>,
    ) -> (r: DeadLetterRecord)
        ensures
            match request.deep_view().msg_id {
                Some(id) => r.correlation_id@ == id,
                None => is_uuid_text(r.correlation_id@),
            },
            r.timestamp_ms >= 0,
            r.deep_view() == (RecordView {
                timestamp_ms: r.timestamp_ms,
                source: super::dead_letter::DeadLetterSource::MemoryActor,
                reason: reason@,
                correlation_id: r.correlation_id@,
                conversation_id: Some(request.deep_view().jid),
                payload_kind: operation_name(request.deep_view()),
                destination: None,
                attempts: None,
                received_at_ms: None,
                busy_response: None,
                payload,
            }),
    {
        let correlation_id = match request.correlation_id() {
            Some(id) => id.to_owned(),
            None => new_id(),
        };
        DeadLetterRecord::memory_actor_with_payload(
            reason,
            request.conversation_id().to_owned(),
            correlation_id,
            request.operation(),
            payload,
        )
    }
}

/// The hash by which conversations are spread over the lanes.
pub uninterp spec fn lane_hash(jid: Seq<char>) -> u64;

/// Calls `BuildHasher::hash_one` of a default `DefaultHasher`, whose keys are
/// fixed: the hash is a function of the text. The contract names it.
#[verifier::external_body]
fn hash_text(jid: &str) -> (h: u64)
    ensures
        h == lane_hash(jid@),
{
    std::hash::BuildHasher::hash_one(
        &std::hash::BuildHasherDefault::<std::collections::hash_map::DefaultHasher>::default(),
        jid,
    )
}

/// The lane of a hash among `lanes`.
pub open spec fn lane_of(hash: u64, lanes: int) -> int {
    (hash as usize) as int % lanes
}

/// The lane of a hash among `lanes`.
pub fn lane_for_hash(hash: u64, lanes: usize) -> (r: usize)
    requires
        lanes > 0,
    ensures
        r == lane_of(hash, lanes as int),
        r < lanes,
{
    #[verifier::truncate]
    let h: usize = hash as usize;
    h % lanes
}

/// Writers side by side, each conversation always with the same one.
#[derive(Debug, Clone, Copy)]
pub struct ShardedMemoryWriter {
    pub shards: usize,
}

impl ShardedMemoryWriter {
    /// Writers side by side; there is at least one.
    pub fn new(shards: usize) -> (r: Self)
        requires
            shards > 0,
        ensures
            r.shards == shards,
    {
        ShardedMemoryWriter { shards }
    }

    /// The writer of a conversation.
    pub fn shard_index_for(&self, jid: &str) -> (r: usize)
        requires
            self.shards > 0,
        ensures
            r == lane_of(lane_hash(jid@), self.shards as int),
            r < self.shards,
    {
        lane_for_hash(hash_text(jid), self.shards)
    }
}

/// Every JID has one lane, and it is one that there is.
pub proof fn lanes_are_there(hash: u64, lanes: int)
    requires
        lanes > 0,
    ensures
        0 <= lane_of(hash, lanes) < lanes,
        exists|k: int| #[trigger] (k * lanes) + lane_of(hash, lanes) == hash as usize,
{
    let h = (hash as usize) as int;
    vstd::arithmetic::div_mod::lemma_fundamental_div_mod(h, lanes);
    vstd::arithmetic::div_mod::lemma_mod_bound(h, lanes);
    assert((h / lanes) * lanes == lanes * (h / lanes)) by (nonlinear_arith);
    assert((h / lanes) * lanes + lane_of(hash, lanes) == h);
}

/// What is written to memory is named by whether it comes with files or a
/// reaction.
pub proof fn operations_have_their_names(request: StoreView)
    ensures
        request.full ==> operation_name(request) == "store_message_full"@,
        !request.full ==> operation_name(request) == "store_message_structured"@,
{
}

} // verus!
