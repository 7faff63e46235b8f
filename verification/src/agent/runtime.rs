//! What outlives a connection: the dead letters and the writers of memory.

use crate::actors::dead_letter::DeadLetterService;
use crate::actors::mailbox::at_least_one;
use crate::actors::memory_actor::{MemoryActor, ShardedMemoryWriter};
use crate::config::Config;
use crate::time::NANOS_PER_MILLI;
use vstd::prelude::*;

verus! {

/// What outlives a connection.
#[derive(Debug)]
pub struct ActorRuntimeDependencies {
    pub dead_letter_service: DeadLetterService,
    /// How many writers of memory stand side by side.
    pub writers: ShardedMemoryWriter,
    /// How each of them is set.
    pub memory_actor: MemoryActor,
}

/// What outlives a connection, as it is configured; there is at least one
/// writer of memory, and its mailbox holds one batch.
pub fn build_actor_runtime_dependencies(config: &Config) -> (r: ActorRuntimeDependencies)
    ensures
        r.dead_letter_service.path@ == config.actors.dead_letter_path@,
        r.dead_letter_service.enqueue_timeout.nanos == 200 * NANOS_PER_MILLI,
        r.dead_letter_service.mailbox_size == 1024,
        r.dead_letter_service.write_max_retries == 3,
        r.dead_letter_service.write_retry_backoff.nanos == 20 * NANOS_PER_MILLI,
        r.dead_letter_service.write_retry_backoff.wf(),
        r.writers.shards == (if config.actors.memory.writer_shards == 0 {
            1
        } else {
            config.actors.memory.writer_shards
        }),
        r.memory_actor.enqueue_timeout.nanos == (if config.actors.memory.enqueue_timeout_ms == 0 {
            1
        } else {
            config.actors.memory.enqueue_timeout_ms
        }) * NANOS_PER_MILLI,
        r.memory_actor.write_batch_max == (if config.actors.memory.write_batch_max == 0 {
            1
        } else {
            config.actors.memory.write_batch_max
        }),
        r.memory_actor.mailbox_size == r.memory_actor.write_batch_max,
        r.memory_actor.write_batch_max_delay.nanos == config.actors.memory.write_batch_max_delay_ms
            * NANOS_PER_MILLI,
{
    ActorRuntimeDependencies {
        dead_letter_service: DeadLetterService::new(config.actors.dead_letter_path.clone()),
        writers: ShardedMemoryWriter::new(at_least_one(config.actors.memory.writer_shards)),
        memory_actor: MemoryActor::new(
            config.actors.memory.enqueue_timeout_ms,
            config.actors.memory.write_batch_max,
            config.actors.memory.write_batch_max,
            config.actors.memory.write_batch_max_delay_ms,
        ),
    }
}

} // verus!
