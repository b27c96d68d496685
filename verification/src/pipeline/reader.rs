//! The reading end of the pipeline.

use vstd::prelude::*;

use crate::buffer_pool::Buffer;
use crate::checkpoint::{FlowControl, FlowVerdict};
use crate::config::EngineConfig;
use crate::error::{CoreError, Result};
use crate::hash::{digest, Algorithm, HasherDispatch, MAX_HASHED_BYTES};
use crate::pipeline::writer::text_of;
use crate::pipeline::{is_stream_of, Block};
use crate::telemetry::{counts, Counted, TelemetrySink};

verus! {

/// Whether the reader may go on to the next block.
#[derive(Debug, Clone, Copy, PartialEq, Eq, Structural)]
pub enum Gate {
    Proceed,
    /// The job is paused: wait for it to be resumed.
    Wait,
}

/// Whether `gate` is the answer to a job whose flags say `verdict`: a running job
/// goes on, a paused one waits, a cancelled one fails.
pub open spec fn gate_answers(verdict: FlowVerdict, gate: Result<Gate>) -> bool {
    match verdict {
        FlowVerdict::Run => gate == Ok::<Gate, CoreError>(Gate::Proceed),
        FlowVerdict::Wait => gate == Ok::<Gate, CoreError>(Gate::Wait),
        FlowVerdict::Stop => gate is Err && gate->Err_0 is PipelineDisconnected,
    }
}

/// What a read from the source gave.
pub enum ReadStep {
    /// The end of the file; the buffer goes back to the pool.
    EndOfFile(Buffer),
    /// A block to send.
    Send(Block),
}

/// Cuts a source file into blocks.
pub struct BlockReader {
    algorithm: Algorithm,
    hasher: Option<HasherDispatch>,
    offset: u64,
    sequence: u64,
    sent: Ghost<Seq<Block>>,
    read: Ghost<Seq<u8>>,
}

impl BlockReader {
    /// What has been read so far.
    pub closed spec fn data(self) -> Seq<u8> {
        self.read@
    }

    /// The blocks that were made so far.
    pub closed spec fn blocks(self) -> Seq<Block> {
        self.sent@
    }

    /// Whether the reader hashes what it reads.
    pub closed spec fn verifies(self) -> bool {
        self.hasher is Some
    }

    /// The hash function in use, if any is.
    pub closed spec fn algorithm(self) -> Algorithm {
        self.algorithm
    }

    /// The digest of what has been read, if the reader hashes.
    pub open spec fn source_digest(self) -> Option<Seq<char>> {
        if self.verifies() {
            Some(digest(self.algorithm(), self.data()))
        } else {
            None
        }
    }

    /// Whether the reader is in order: it knows where it is, its blocks are
    /// those of what it has read, and its hasher has absorbed just that.
    pub closed spec fn wf(self) -> bool {
        &&& self.offset == self.read@.len()
        &&& self.sequence == self.sent@.len()
        &&& self.read@.len() <= MAX_HASHED_BYTES
        &&& is_stream_of(self.sent@, self.read@)
        &&& self.hasher matches Some(hasher) ==> hasher.algorithm() == self.algorithm
            && hasher.absorbed() == self.read@
    }

    /// A reader at the start of a file.
    pub fn new(config: &EngineConfig) -> (reader: Self)
        ensures
            reader.wf(),
            reader.data() == Seq::<u8>::empty(),
            reader.blocks() == Seq::<Block>::empty(),
            reader.verifies() == config.verify,
            reader.algorithm() == config.hash_algorithm,
    {
        let hasher = if config.verify {
            Some(HasherDispatch::new(config.hash_algorithm))
        } else {
            None
        };
        BlockReader {
            algorithm: config.hash_algorithm,
            hasher,
            offset: 0,
            sequence: 0,
            sent: Ghost(Seq::empty()),
            read: Ghost(Seq::empty()),
        }
    }

    /// Looks at the flags of the job. The reader does so between blocks, never
    /// within one.
    pub fn gate(&self, flow: &FlowControl) -> (gate: Result<Gate>)
        ensures
            gate_answers(flow.verdict(), gate),
    {
        match flow.check() {
            Ok(()) => Ok(Gate::Proceed),
            Err(CoreError::Paused) => Ok(Gate::Wait),
            Err(error) => Err(error),
        }
    }

    /// How far the reader is.
    pub fn position(&self) -> (position: u64)
        requires
            self.wf(),
        ensures
            position == self.data().len(),
    {
        self.offset
    }

    /// Takes in a read of `n` bytes into the front of `buf`. No bytes are the
    /// end of the file; else they are the next block, and its bytes are counted.
    pub fn on_read(&mut self, telemetry: &mut TelemetrySink, buf: Buffer, n: usize) -> (
        step: ReadStep)
        requires
            old(self).wf(),
            n <= buf@.len() <= buf.size(),
            old(self).data().len() + n <= MAX_HASHED_BYTES,
        ensures
            final(self).wf(),
            final(self).verifies() == old(self).verifies(),
            final(self).algorithm() == old(self).algorithm(),
            final(self).data() == old(self).data() + buf@.take(n as int),
            n == 0 ==> step == ReadStep::EndOfFile(buf) && final(self).blocks() == old(
                self,
            ).blocks(),
            n > 0 ==> {
                &&& step is Send
                &&& step->Send_0@ == buf@.take(n as int)
                &&& step->Send_0.offset == old(self).data().len()
                &&& step->Send_0.sequence == old(self).blocks().len()
                &&& final(self).blocks() == old(self).blocks().push(step->Send_0)
            },
            n == 0 ==> *final(telemetry) == *old(telemetry),
            n > 0 ==> counts(*old(telemetry), *final(telemetry), Counted::Bytes(n as u64)),
    {
        if n == 0 {
            assert(self.data() =~= old(self).data() + buf@.take(0));
            return ReadStep::EndOfFile(buf);
        }
        telemetry.add_bytes(n as u64);
        let mut buf = buf;
        let ghost chunk = buf@.take(n as int);
        buf.set_len(n);
        assert(buf@ =~= chunk);
        if let Some(hasher) = &mut self.hasher {
            hasher.update(buf.as_slice());
        }
        let block = Block::new(buf, self.offset, self.sequence);
        proof {
            lemma_stream_is_no_longer_than_data(self.sent@, self.read@);
            let data = self.read@ + chunk;
            assert(data.skip(self.offset as int) =~= chunk);
            assert(data.take(self.offset as int) =~= self.read@);
            assert(self.sent@.push(block).drop_last() =~= self.sent@);
        }
        self.offset = self.offset + n as u64;
        self.sequence = self.sequence + 1;
        self.sent = Ghost(self.sent@.push(block));
        self.read = Ghost(self.read@ + chunk);
        ReadStep::Send(block)
    }

    /// The digest of what was read, if the reader hashes.
    pub fn finish(self) -> (hash: Option<String>)
        requires
            self.wf(),
        ensures
            text_of(hash) == self.source_digest(),
    {
        match self.hasher {
            Some(hasher) => Some(hasher.finalize()),
            None => None,
        }
    }
}

/// The blocks of a reader are those of what it has read.
pub proof fn lemma_blocks_are_those_of_data(reader: BlockReader)
    requires
        reader.wf(),
    ensures
        is_stream_of(reader.blocks(), reader.data()),
{
}

/// The blocks of some data are at most as many as its bytes.
proof fn lemma_stream_is_no_longer_than_data(blocks: Seq<Block>, data: Seq<u8>)
    requires
        is_stream_of(blocks, data),
    ensures
        blocks.len() <= data.len(),
    decreases blocks.len(),
{
    if blocks.len() > 0 {
        lemma_stream_is_no_longer_than_data(
            blocks.drop_last(),
            data.take(blocks.last().offset as int),
        );
    }
}

/// A reader hashes what it reads if and only if copies are verified, with the hash
/// function of the configuration, and starts at the start.
pub proof fn law_reader_obeys_the_configuration(config: EngineConfig, reader: BlockReader)
    requires
        call_ensures(BlockReader::new, (&config,), reader),
    ensures
        reader.verifies() == config.verify,
        reader.algorithm() == config.hash_algorithm,
        reader.data().len() == 0,
        reader.blocks().len() == 0,
{
}

/// A reader goes on while the job runs, waits while it is paused, and fails once it
/// is cancelled, paused or not.
pub proof fn law_reader_obeys_the_flags(
    reader: BlockReader,
    flow: FlowControl,
    gate: Result<Gate>,
)
    requires
        call_ensures(BlockReader::gate, (&reader, &flow), gate),
    ensures
        flow.cancelled() <==> gate is Err,
        flow.cancelled() ==> gate->Err_0 is PipelineDisconnected,
        !flow.cancelled() && flow.paused() ==> gate->Ok_0 == Gate::Wait,
        !flow.cancelled() && !flow.paused() ==> gate->Ok_0 == Gate::Proceed,
{
}

/// Only a read of no bytes is the end of a file. Any other gives one block: of just
/// the bytes that were read, at the place where they were, numbered after those
/// before; and its bytes are counted.
pub proof fn law_read_gives_the_next_block(
    reader: &mut BlockReader,
    telemetry: &mut TelemetrySink,
    buf: Buffer,
    n: usize,
    step: ReadStep,
)
    requires
        call_ensures(BlockReader::on_read, (reader, telemetry, buf, n), step),
        n <= buf@.len(),
    ensures
        n == 0 <==> step is EndOfFile,
        n == 0 ==> final(reader).data() == old(reader).data() && final(reader).blocks() == old(
            reader,
        ).blocks() && *final(telemetry) == *old(telemetry),
        n > 0 ==> {
            let block = step->Send_0;
            &&& block@.len() == n
            &&& forall|i: int| 0 <= i < n ==> #[trigger] block@[i] == buf@[i]
            &&& block.offset == old(reader).data().len()
            &&& block.sequence == old(reader).blocks().len()
            &&& final(reader).data() == old(reader).data() + block@
            &&& final(reader).blocks() == old(reader).blocks().push(block)
            &&& counts(*old(telemetry), *final(telemetry), Counted::Bytes(n as u64))
        },
{
    if n == 0 {
        assert(buf@.take(0) =~= Seq::<u8>::empty());
        assert(old(reader).data() + Seq::<u8>::empty() =~= old(reader).data());
    }
}

/// What a reader says of the source is the digest of all that it read.
pub proof fn law_source_digest_is_of_all_that_was_read(reader: BlockReader, hash: Option<String>)
    requires
        call_ensures(BlockReader::finish, (reader,), hash),
    ensures
        reader.verifies() <==> hash is Some,
        reader.verifies() ==> hash->0@ == digest(reader.algorithm(), reader.data()),
{
}

} // verus!
