//! The engine for large files: one pipeline for each file.

use vstd::prelude::*;

use crate::bandwidth::Throttle;
use crate::buffer_pool::BufferPool;
use crate::config::EngineConfig;
use crate::error::{CoreError, Result};
use crate::pipeline::writer::{text_of, WriteFinish};
use crate::pipeline::BlockWriter;

verus! {

/// Copies large files block by block.
pub struct BlockEngine {
    config: EngineConfig,
}

/// The bucket that a configuration asks for, if it limits the bandwidth.
pub fn configured_throttle(config: &EngineConfig) -> (throttle: Option<Throttle>)
    ensures
        match throttle {
            Some(t) => config.bandwidth_limit_bytes_per_sec > 0 && t.limit()
                == config.bandwidth_limit_bytes_per_sec && t.burst()
                == config.bandwidth_burst_bytes && t.tokens() == config.bandwidth_burst_bytes,
            None => config.bandwidth_limit_bytes_per_sec == 0,
        },
{
    if config.bandwidth_limit_bytes_per_sec > 0 {
        Some(Throttle::new(config.bandwidth_limit_bytes_per_sec, config.bandwidth_burst_bytes))
    } else {
        None
    }
}

impl BlockEngine {
    /// The configuration of the engine.
    pub closed spec fn config(self) -> EngineConfig {
        self.config
    }

    pub fn new(config: EngineConfig) -> (engine: Self)
        ensures
            engine.config() == config,
    {
        BlockEngine { config }
    }

    /// How many buffers a pipeline needs: those in the channel, one that the
    /// reader fills and one that the writer empties.
    pub fn pool_size(&self) -> (size: usize)
        requires
            self.config().channel_capacity + 2 <= usize::MAX,
        ensures
            size == self.config().channel_capacity + 2,
    {
        self.config.channel_capacity + 2
    }

    /// Brings the two ends of a pipeline together once both have ended.
    /// `source` is what the reader gave, `None` where it broke down; `written`
    /// is what writing and flushing gave. A failure of the reader comes first,
    /// then one of the writer; without either, the writer decides by the digest
    /// of the source.
    pub fn copy_file(
        &self,
        source: Option<Result<Option<String>>>,
        written: Result<()>,
        writer: BlockWriter,
    ) -> (finish: Result<WriteFinish>)
        requires
            writer.wf(),
        ensures
            match (source, written) {
                (None, _) => finish is Err && finish->Err_0 is PipelineDisconnected,
                (Some(Err(error)), _) => finish == Err::<WriteFinish, CoreError>(error),
                (Some(Ok(_)), Err(error)) => finish == Err::<WriteFinish, CoreError>(error),
                (Some(Ok(hash)), Ok(())) => finish is Ok && finish->Ok_0.is_due(
                    writer,
                    text_of(hash),
                ),
            },
    {
        match source {
            None => Err(CoreError::PipelineDisconnected),
            Some(Err(error)) => Err(error),
            Some(Ok(hash)) => match written {
                Err(error) => Err(error),
                Ok(()) => Ok(writer.finish(hash)),
            },
        }
    }
}

/// Where the buffers of a pipeline are besides its pool.
pub struct BuffersOut {
    /// The reader holds so many.
    pub at_reader: nat,
    /// So many wait in the channel.
    pub in_channel: nat,
    /// The writer holds so many.
    pub at_writer: nat,
}

/// Whether every buffer of a pipeline is accounted for: it is in the pool, in the
/// channel, or one of the two ends holds it.
pub open spec fn all_accounted_for(
    config: EngineConfig,
    pool: BufferPool,
    out: BuffersOut,
) -> bool {
    &&& pool.wf()
    &&& pool.pool_size() == config.channel_capacity + 2
    &&& out.at_reader <= 1
    &&& out.in_channel <= config.channel_capacity
    &&& out.at_writer <= 1
    &&& pool.free() + out.at_reader + out.in_channel + out.at_writer == pool.pool_size()
}

/// Whether `after` is `before` once one buffer was acquired.
pub open spec fn one_acquired(before: BufferPool, after: BufferPool) -> bool {
    &&& after.wf()
    &&& after.pool_size() == before.pool_size()
    &&& after.free() == before.free() - 1
}

/// Whether `after` is `before` once one buffer was released.
pub open spec fn one_released(before: BufferPool, after: BufferPool) -> bool {
    &&& after.wf()
    &&& after.pool_size() == before.pool_size()
    &&& after.free() == if before.free() < before.pool_size() {
        before.free() + 1
    } else {
        before.free()
    }
}

/// Whether one buffer moved: from the pool to the reader, from there to the
/// channel, on to the writer and back to the pool; at the end of a file the reader
/// returns its buffer itself.
pub open spec fn one_buffer_moved(
    config: EngineConfig,
    pool: BufferPool,
    out: BuffersOut,
    pool_after: BufferPool,
    after: BuffersOut,
) -> bool {
    ||| out.at_reader == 0 && one_acquired(pool, pool_after) && after == (BuffersOut {
        at_reader: 1,
        ..out
    })
    ||| out.at_reader == 1 && out.in_channel < config.channel_capacity && pool_after == pool
        && after == (BuffersOut { at_reader: 0, in_channel: out.in_channel + 1, ..out })
    ||| out.in_channel > 0 && out.at_writer == 0 && pool_after == pool && after == (BuffersOut {
        in_channel: (out.in_channel - 1) as nat,
        at_writer: 1,
        ..out
    })
    ||| out.at_writer == 1 && one_released(pool, pool_after) && after == (BuffersOut {
        at_writer: 0,
        ..out
    })
    ||| out.at_reader == 1 && one_released(pool, pool_after) && after == (BuffersOut {
        at_reader: 0,
        ..out
    })
}

/// However full the channel is, the pool has a buffer for a reader that holds
/// none, and no move of a buffer changes that.
pub proof fn law_pool_never_runs_dry(
    config: EngineConfig,
    pool: BufferPool,
    out: BuffersOut,
    pool_after: BufferPool,
    after: BuffersOut,
)
    requires
        all_accounted_for(config, pool, out),
        one_buffer_moved(config, pool, out, pool_after, after),
    ensures
        out.at_reader == 0 ==> pool.free() > 0,
        all_accounted_for(config, pool_after, after),
        after.at_reader == 0 ==> pool_after.free() > 0,
{
}

/// The bandwidth is limited if and only if the configuration says so, by just what
/// it says; the burst is there from the start.
pub proof fn law_limit_is_as_configured(config: EngineConfig, throttle: Option<Throttle>)
    requires
        call_ensures(configured_throttle, (&config,), throttle),
    ensures
        throttle is Some <==> config.bandwidth_limit_bytes_per_sec > 0,
        throttle is Some ==> throttle->0.limit() == config.bandwidth_limit_bytes_per_sec
            && throttle->0.burst() == config.bandwidth_burst_bytes && throttle->0.tokens()
            == config.bandwidth_burst_bytes,
{
}

/// A pool has as many buffers as fit into the channel and one for each end.
pub proof fn law_pool_serves_both_ends(engine: BlockEngine, size: usize)
    requires
        call_ensures(BlockEngine::pool_size, (&engine,), size),
    ensures
        size - engine.config().channel_capacity == 2,
{
}

/// A large file is finished only if both ends of its pipeline succeeded. The failure
/// of the reader is reported before that of the writer, each as it was. A damaged copy
/// is thrown away, and any other published.
pub proof fn law_copy_needs_both_ends(
    engine: BlockEngine,
    source: Option<Result<Option<String>>>,
    written: Result<()>,
    writer: BlockWriter,
    finish: Result<WriteFinish>,
)
    requires
        call_ensures(BlockEngine::copy_file, (&engine, source, written, writer), finish),
    ensures
        finish is Ok <==> source is Some && source->0 is Ok && written is Ok,
        source is None ==> finish->Err_0 is PipelineDisconnected,
        source is Some && source->0 is Err ==> finish->Err_0 == source->0->Err_0,
        source is Some && source->0 is Ok && written is Err ==> finish->Err_0 == written->Err_0,
        finish is Ok ==> {
            let expected = source->0->Ok_0;
            let damaged = expected is Some && writer.copy_digest() is Some && writer.copy_digest()
                != Some(expected->0@);
            &&& damaged <==> finish->Ok_0 is Discard
            &&& damaged ==> finish->Ok_0->remove@ == writer.target()
            &&& !damaged ==> finish->Ok_0->result.final_path@ == writer.dest()
                && finish->Ok_0->result.bytes_written == writer.data().len()
        },
{
}

} // verus!
