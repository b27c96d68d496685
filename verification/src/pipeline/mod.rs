//! The block pipeline for large files.
//!
//! A reader cuts the source into blocks, which travel through a bounded channel
//! to a writer. Reader and writer each hash what passes, so that source and copy
//! can be compared without reading either again.

use vstd::prelude::*;

use crate::buffer_pool::Buffer;
use crate::checkpoint::{FlowControl, FlowVerdict};
use crate::error::{CoreError, Result};
use crate::hash::absorbed_chunks;
use crate::pipeline::reader::{gate_answers, lemma_blocks_are_those_of_data, Gate};
use crate::pipeline::writer::WriteFinish;
use crate::telemetry::{bytes_among, Counted};

pub mod reader;
pub mod writer;

pub use reader::BlockReader;
pub use writer::BlockWriter;

verus! {

/// A block of the source on its way to the writer.
pub struct Block {
    /// The bytes of the block.
    pub buf: Buffer,
    /// Where the block starts in the file.
    pub offset: u64,
    /// The number of the block, counted from 0.
    pub sequence: u64,
}

impl View for Block {
    type V = Seq<u8>;

    open spec fn view(&self) -> Seq<u8> {
        self.buf@
    }
}

impl Block {
    pub fn new(buf: Buffer, offset: u64, sequence: u64) -> (block: Self)
        ensures
            block == (Block { buf, offset, sequence }),
    {
        Block { buf, offset, sequence }
    }

    /// The number of bytes in the block.
    pub fn len(&self) -> (len: usize)
        ensures
            len == self@.len(),
    {
        self.buf.len()
    }

    pub fn is_empty(&self) -> (empty: bool)
        ensures
            empty == (self@.len() == 0),
    {
        self.buf.is_empty()
    }

    /// The bytes of the block.
    pub fn as_slice(&self) -> (slice: &[u8])
        ensures
            slice@ == self@,
    {
        self.buf.as_slice()
    }
}

/// Whether `blocks` are the blocks of `data`: numbered from 0, none of them
/// empty, each starting where the one before ends, together all of `data`.
pub open spec fn is_stream_of(blocks: Seq<Block>, data: Seq<u8>) -> bool
    decreases blocks.len(),
{
    if blocks.len() == 0 {
        data.len() == 0
    } else {
        let block = blocks.last();
        &&& block@.len() > 0
        &&& block.sequence == blocks.len() - 1
        &&& block.offset + block@.len() == data.len()
        &&& data.skip(block.offset as int) == block@
        &&& is_stream_of(blocks.drop_last(), data.take(block.offset as int))
    }
}

/// The blocks of a file, written one after the other, give the file: a writer
/// that took in all blocks of a reader has written what the reader read.
pub proof fn law_blocks_rebuild_the_file(blocks: Seq<Block>, data: Seq<u8>)
    requires
        is_stream_of(blocks, data),
    ensures
        absorbed_chunks(blocks.map_values(|block: Block| block@)) == data,
    decreases blocks.len(),
{
    let chunks = blocks.map_values(|block: Block| block@);
    if blocks.len() > 0 {
        let offset = blocks.last().offset as int;
        law_blocks_rebuild_the_file(blocks.drop_last(), data.take(offset));
        assert(chunks.drop_last() =~= blocks.drop_last().map_values(|block: Block| block@));
        assert(data =~= data.take(offset) + data.skip(offset));
    }
}

/// What a reader counts while it makes `blocks`.
pub open spec fn counted_blocks(blocks: Seq<Block>) -> Seq<Counted> {
    blocks.map_values(|block: Block| Counted::Bytes(block@.len() as u64))
}

/// Every byte of a file is counted once while its blocks pass.
pub proof fn law_every_byte_is_counted(blocks: Seq<Block>, data: Seq<u8>)
    requires
        is_stream_of(blocks, data),
        data.len() <= u64::MAX,
    ensures
        bytes_among(counted_blocks(blocks)) == data.len(),
    decreases blocks.len(),
{
    if blocks.len() > 0 {
        let offset = blocks.last().offset as int;
        law_every_byte_is_counted(blocks.drop_last(), data.take(offset));
        assert(counted_blocks(blocks).drop_last() =~= counted_blocks(blocks.drop_last()));
        assert(counted_blocks(blocks).last() == Counted::Bytes(blocks.last()@.len() as u64));
    }
}

/// A writer that took in every block of a reader has a copy of the source, and
/// that copy passes verification.
pub proof fn law_complete_copy_is_published(
    reader: BlockReader,
    writer: BlockWriter,
    finish: WriteFinish,
)
    requires
        reader.wf(),
        writer.algorithm() == reader.algorithm(),
        writer.data() == absorbed_chunks(reader.blocks().map_values(|block: Block| block@)),
        finish.is_due(writer, reader.source_digest()),
    ensures
        writer.data() == reader.data(),
        finish is Publish,
{
    lemma_blocks_are_those_of_data(reader);
    law_blocks_rebuild_the_file(reader.blocks(), reader.data());
}

/// A pause is clean: the reader begins no block, and once the writer has taken in
/// the blocks that were sent, all that was read is written. `gate` is what the
/// reader was told, `writers` are the states of the writer, which had taken in
/// `done` blocks when the job was paused.
pub proof fn law_pause_is_clean(
    flow: FlowControl,
    gate: Result<Gate>,
    reader: BlockReader,
    writers: Seq<BlockWriter>,
    done: nat,
)
    requires
        flow.verdict() == FlowVerdict::Wait,
        gate_answers(flow.verdict(), gate),
        reader.wf(),
        done <= reader.blocks().len(),
        writers.len() == reader.blocks().len() - done + 1,
        writers[0].data() == absorbed_chunks(
            reader.blocks().take(done as int).map_values(|block: Block| block@),
        ),
        forall|i: int|
            0 <= i < writers.len() - 1 ==> (#[trigger] writers[i + 1]).data() == writers[i].data()
                + reader.blocks()[done + i]@,
    ensures
        gate == Ok::<Gate, CoreError>(Gate::Wait),
        writers.last().data() == reader.data(),
{
    let blocks = reader.blocks();
    lemma_blocks_are_those_of_data(reader);
    law_blocks_rebuild_the_file(blocks, reader.data());
    lemma_blocks_are_taken_in(blocks, writers, done, (writers.len() - 1) as nat);
    assert(blocks.take(blocks.len() as int) =~= blocks);
}

proof fn lemma_blocks_are_taken_in(
    blocks: Seq<Block>,
    writers: Seq<BlockWriter>,
    done: nat,
    n: nat,
)
    requires
        n < writers.len(),
        done + n <= blocks.len(),
        writers[0].data() == absorbed_chunks(
            blocks.take(done as int).map_values(|block: Block| block@),
        ),
        forall|i: int|
            0 <= i < writers.len() - 1 ==> (#[trigger] writers[i + 1]).data() == writers[i].data()
                + blocks[done + i]@,
    ensures
        writers[n as int].data() == absorbed_chunks(
            blocks.take((done + n) as int).map_values(|block: Block| block@),
        ),
    decreases n,
{
    if n > 0 {
        lemma_blocks_are_taken_in(blocks, writers, done, (n - 1) as nat);
        let chunks = blocks.take((done + n) as int).map_values(|block: Block| block@);
        assert(chunks.drop_last() =~= blocks.take(done + n - 1).map_values(
            |block: Block| block@,
        ));
        assert(chunks.last() == blocks[done + (n - 1)]@);
        assert(writers[(n - 1) + 1].data() == writers[n - 1].data() + blocks[done + (n - 1)]@);
    }
}

/// A copy is discarded only where it really differs from the source.
pub proof fn law_discarded_copy_differs(
    reader: BlockReader,
    writer: BlockWriter,
    finish: WriteFinish,
)
    requires
        writer.algorithm() == reader.algorithm(),
        finish.is_due(writer, reader.source_digest()),
        finish is Discard,
    ensures
        writer.data() != reader.data(),
{
}

/// The blocks of a file are numbered in order and follow each other without a gap
/// from the start of the file to its end: block `i` holds what stands in the file from
/// its offset on.
pub proof fn law_blocks_cover_the_file(blocks: Seq<Block>, data: Seq<u8>, i: int)
    requires
        is_stream_of(blocks, data),
        0 <= i < blocks.len(),
    ensures
        blocks[i].sequence == i,
        blocks[i]@.len() > 0,
        blocks[0].offset == 0,
        i + 1 < blocks.len() ==> blocks[i + 1].offset == blocks[i].offset + blocks[i]@.len(),
        i + 1 == blocks.len() ==> data.len() == blocks[i].offset + blocks[i]@.len(),
        blocks[i].offset + blocks[i]@.len() <= data.len(),
        data.subrange(blocks[i].offset as int, blocks[i].offset + blocks[i]@.len()) == blocks[i]@,
    decreases blocks.len(),
{
    let last = blocks.last();
    let before = blocks.drop_last();
    let front = data.take(last.offset as int);
    assert(is_stream_of(before, front));
    if before.len() == 0 {
        assert(front.len() == 0);
    } else {
        law_blocks_cover_the_file(before, front, 0);
        law_blocks_cover_the_file(before, front, before.len() - 1);
    }
    if i < before.len() {
        law_blocks_cover_the_file(before, front, i);
        assert(blocks[i] == before[i]);
        let from = blocks[i].offset as int;
        let to = from + blocks[i]@.len();
        assert(data.subrange(from, to) =~= front.subrange(from, to));
    } else {
        assert(data.subrange(last.offset as int, data.len() as int) =~= data.skip(
            last.offset as int,
        ));
    }
}

} // verus!
