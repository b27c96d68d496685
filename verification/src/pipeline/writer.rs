//! The writing end of the pipeline.

use vstd::prelude::*;

use crate::config::EngineConfig;
use crate::error::CoreError;
use crate::hash::{digest, Algorithm, HasherDispatch, MAX_HASHED_BYTES};
use crate::path::PathStyle;
use crate::pipeline::Block;
use crate::seqs::{lemma_only_at, occurs_once, precedes};

verus! {

/// What a finished write amounts to.
#[derive(Debug)]
pub struct WriteResult {
    /// The digest of what was written, if the writer hashes.
    pub dest_hash: Option<String>,
    pub bytes_written: u64,
    /// Where the file lies.
    pub final_path: String,
}

/// What is left to do once every block is written and flushed.
pub enum WriteFinish {
    /// The copy is good: give it its final name where it has not got it
    /// (`rename` says from where), then copy the metadata.
    Publish { rename: Option<String>, result: WriteResult },
    /// The copy differs from the source: remove the file at `remove` and fail.
    Discard { remove: String, error: CoreError },
}

/// A step of the writer.
#[derive(Debug, Clone, Copy, PartialEq, Eq, Structural)]
pub enum WriterStep {
    /// Make the directory of the target.
    CreateParent,
    /// Create the target, empty.
    Create,
    /// Reserve space for the target, while writing goes on.
    Preallocate { bytes: u64 },
    /// Wait until the bandwidth limit lets a block through.
    Throttle { bytes: u64 },
    /// Write a block at the end of the target.
    Write,
    /// Write out what is buffered.
    Flush,
}

/// What is done before the first block is written; `in_dir` says whether the
/// target lies in a directory.
pub open spec fn opening_steps(in_dir: bool, file_size: u64) -> Seq<WriterStep> {
    (if in_dir {
        seq![WriterStep::CreateParent]
    } else {
        Seq::empty()
    }) + seq![WriterStep::Create] + (if file_size > 0 {
        seq![WriterStep::Preallocate { bytes: file_size }]
    } else {
        Seq::empty()
    })
}

/// What is done with a block of `bytes` bytes.
pub open spec fn steps_per_block(throttled: bool, bytes: u64) -> Seq<WriterStep> {
    if throttled {
        seq![WriterStep::Throttle { bytes }, WriterStep::Write]
    } else {
        seq![WriterStep::Write]
    }
}

/// What is done once every block is written.
pub open spec fn steps_at_end() -> Seq<WriterStep> {
    seq![WriterStep::Flush]
}

/// Whether `error` says that the copy at `path` should have the digest
/// `expected` and has `actual`.
pub open spec fn is_hash_mismatch(
    error: CoreError,
    path: Seq<char>,
    expected: Seq<char>,
    actual: Seq<char>,
) -> bool {
    match error {
        CoreError::HashMismatch { path: p, expected: e, actual: a } => p@ == path && e@ == expected
            && a@ == actual,
        _ => false,
    }
}

impl WriteFinish {
    /// Whether this is what has to follow when `writer` is done and the source
    /// has the digest `source`: a copy whose digest differs is discarded, any
    /// other is published.
    pub open spec fn is_due(self, writer: BlockWriter, source: Option<Seq<char>>) -> bool {
        match self {
            WriteFinish::Discard { remove, error } => {
                &&& digests_differ(source, writer.copy_digest())
                &&& remove@ == writer.target()
                &&& is_hash_mismatch(error, writer.dest(), source->0, writer.copy_digest()->0)
            },
            WriteFinish::Publish { rename, result } => {
                &&& !digests_differ(source, writer.copy_digest())
                &&& text_of(rename) == (if writer.uses_partial() {
                    Some(writer.target())
                } else {
                    None
                })
                &&& text_of(result.dest_hash) == writer.copy_digest()
                &&& result.bytes_written == writer.data().len()
                &&& result.final_path@ == writer.dest()
            },
        }
    }
}

/// Writes the blocks of a file.
pub struct BlockWriter {
    style: PathStyle,
    dest: String,
    target: String,
    use_partial: bool,
    algorithm: Algorithm,
    hasher: Option<HasherDispatch>,
    bytes_written: u64,
    written: Ghost<Seq<u8>>,
}

/// Whether digests of source and copy are both known and differ.
pub open spec fn digests_differ(source: Option<Seq<char>>, copy: Option<Seq<char>>) -> bool {
    source is Some && copy is Some && source->0 != copy->0
}

/// The characters of an optional string.
pub open spec fn text_of(text: Option<String>) -> Option<Seq<char>> {
    match text {
        Some(t) => Some(t@),
        None => None,
    }
}

impl BlockWriter {
    /// How paths are written.
    pub closed spec fn style(self) -> PathStyle {
        self.style
    }

    /// The final path of the file.
    pub closed spec fn dest(self) -> Seq<char> {
        self.dest@
    }

    /// Whether the file is written under a partial name.
    pub closed spec fn uses_partial(self) -> bool {
        self.use_partial
    }

    /// Where the blocks are written.
    pub open spec fn target(self) -> Seq<char> {
        if self.uses_partial() {
            self.style().partial_of(self.dest())
        } else {
            self.dest()
        }
    }

    /// What has been written so far.
    pub closed spec fn data(self) -> Seq<u8> {
        self.written@
    }

    /// Whether the writer hashes what it writes.
    pub closed spec fn verifies(self) -> bool {
        self.hasher is Some
    }

    /// The hash function in use, if any is.
    pub closed spec fn algorithm(self) -> Algorithm {
        self.algorithm
    }

    /// The digest of what has been written, if the writer hashes.
    pub open spec fn copy_digest(self) -> Option<Seq<char>> {
        if self.verifies() {
            Some(digest(self.algorithm(), self.data()))
        } else {
            None
        }
    }

    /// Whether the writer is in order: it counts what it has written, and its
    /// hasher has absorbed just that.
    pub closed spec fn wf(self) -> bool {
        &&& self.target@ == if self.use_partial {
            self.style.partial_of(self.dest@)
        } else {
            self.dest@
        }
        &&& self.bytes_written == self.written@.len()
        &&& self.written@.len() <= MAX_HASHED_BYTES
        &&& self.hasher matches Some(hasher) ==> hasher.algorithm() == self.algorithm
            && hasher.absorbed() == self.written@
    }

    /// A writer of the file `dest` that has written nothing.
    pub fn new(config: &EngineConfig, style: PathStyle, dest: String) -> (writer: Self)
        requires
            config.use_partial_files ==> style.file_name_of(dest@) is Some,
        ensures
            writer.wf(),
            writer.style() == style,
            writer.dest() == dest@,
            writer.uses_partial() == config.use_partial_files,
            writer.data() == Seq::<u8>::empty(),
            writer.verifies() == config.verify,
            writer.algorithm() == config.hash_algorithm,
    {
        let target = if config.use_partial_files {
            style.partial_path(dest.as_str())
        } else {
            dest.clone()
        };
        let hasher = if config.verify {
            Some(HasherDispatch::new(config.hash_algorithm))
        } else {
            None
        };
        BlockWriter {
            style,
            dest,
            target,
            use_partial: config.use_partial_files,
            algorithm: config.hash_algorithm,
            hasher,
            bytes_written: 0,
            written: Ghost(Seq::empty()),
        }
    }

    /// Where the blocks are to be written.
    pub fn target_path(&self) -> (path: &String)
        requires
            self.wf(),
        ensures
            path@ == self.target(),
    {
        &self.target
    }

    /// What to do before the first block; `file_size` is the size that the scan
    /// found.
    pub fn opening(&self, file_size: u64) -> (steps: Vec<WriterStep>)
        requires
            self.wf(),
        ensures
            steps@ == opening_steps(self.style().parent_of(self.target()) is Some, file_size),
    {
        let mut steps: Vec<WriterStep> = Vec::new();
        if self.style.parent(self.target.as_str()).is_some() {
            steps.push(WriterStep::CreateParent);
        }
        steps.push(WriterStep::Create);
        if file_size > 0 {
            steps.push(WriterStep::Preallocate { bytes: file_size });
        }
        assert(steps@ =~= opening_steps(self.style().parent_of(self.target()) is Some, file_size));
        steps
    }

    /// What to do with a block of `bytes` bytes: where there is a bandwidth limit,
    /// they pass that before they are written.
    pub fn block_steps(&self, throttled: bool, bytes: u64) -> (steps: Vec<WriterStep>)
        ensures
            steps@ == steps_per_block(throttled, bytes),
    {
        let mut steps: Vec<WriterStep> = Vec::new();
        if throttled {
            steps.push(WriterStep::Throttle { bytes });
        }
        steps.push(WriterStep::Write);
        assert(steps@ =~= steps_per_block(throttled, bytes));
        steps
    }

    /// What to do once every block is written.
    pub fn closing_steps(&self) -> (steps: Vec<WriterStep>)
        ensures
            steps@ == steps_at_end(),
    {
        let steps: Vec<WriterStep> = vec![WriterStep::Flush];
        assert(steps@ =~= steps_at_end());
        steps
    }

    /// What the failure of a step means: an error that ends the copy, or nothing,
    /// where the step is best effort.
    pub fn fault(&self, step: WriterStep, message: String) -> (error: Option<CoreError>)
        requires
            self.wf(),
        ensures
            match step {
                WriterStep::CreateParent => match self.style().parent_of(self.target()) {
                    Some(dir) => error is Some && error->0 is Io && error->0->Io_path@ == dir
                        && error->0->Io_source == message,
                    None => error is None,
                },
                WriterStep::Preallocate { .. } => error is None,
                WriterStep::Throttle { .. } => error is None,
                _ => error is Some && error->0 is WriteDestination
                    && error->0->WriteDestination_path@ == self.target()
                    && error->0->WriteDestination_source == message,
            },
    {
        match step {
            WriterStep::CreateParent => match self.style.parent(self.target.as_str()) {
                Some(dir) => Some(CoreError::io(dir, message)),
                None => None,
            },
            WriterStep::Preallocate { .. } => None,
            WriterStep::Throttle { .. } => None,
            _ => Some(CoreError::write(self.target.clone(), message)),
        }
    }

    /// Takes in a block that was written at the end of the target.
    pub fn on_block(&mut self, block: &Block)
        requires
            old(self).wf(),
            old(self).data().len() + block@.len() <= MAX_HASHED_BYTES,
        ensures
            final(self).wf(),
            final(self).data() == old(self).data() + block@,
            final(self).style() == old(self).style(),
            final(self).dest() == old(self).dest(),
            final(self).uses_partial() == old(self).uses_partial(),
            final(self).verifies() == old(self).verifies(),
            final(self).algorithm() == old(self).algorithm(),
    {
        if let Some(hasher) = &mut self.hasher {
            hasher.update(block.as_slice());
        }
        self.bytes_written = self.bytes_written + block.len() as u64;
        self.written = Ghost(self.written@ + block@);
    }

    /// Compares the copy with the source, whose digest is `source_hash` where it
    /// is known, and says what is left to do. The final name is given only to a
    /// copy that passes.
    pub fn finish(self, source_hash: Option<String>) -> (finish: WriteFinish)
        requires
            self.wf(),
        ensures
            finish.is_due(self, text_of(source_hash)),
    {
        let dest_hash = match self.hasher {
            Some(hasher) => Some(hasher.finalize()),
            None => None,
        };
        if let (Some(expected), Some(actual)) = (&source_hash, &dest_hash) {
            if *expected != *actual {
                return WriteFinish::Discard {
                    remove: self.target,
                    error: CoreError::HashMismatch {
                        path: self.dest,
                        expected: expected.clone(),
                        actual: actual.clone(),
                    },
                };
            }
        }
        let rename = if self.use_partial {
            Some(self.target)
        } else {
            None
        };
        WriteFinish::Publish {
            rename,
            result: WriteResult {
                dest_hash,
                bytes_written: self.bytes_written,
                final_path: self.dest,
            },
        }
    }
}

/// The target is made ready whatever the configuration: its directory is made, where
/// it has one, before the target is created, which happens once; space is reserved
/// after that, as much as the file takes, and for an empty file none.
pub proof fn law_target_is_made_ready(writer: BlockWriter, file_size: u64, steps: Vec<WriterStep>)
    requires
        call_ensures(BlockWriter::opening, (&writer, file_size), steps),
    ensures
        ({
            let parent = WriterStep::CreateParent;
            let create = WriterStep::Create;
            let reserve = WriterStep::Preallocate { bytes: file_size };
            &&& occurs_once(steps@, create)
            &&& writer.style().parent_of(writer.target()) is Some ==> occurs_once(steps@, parent)
            &&& steps@.contains(parent) ==> writer.style().parent_of(writer.target()) is Some
            &&& precedes(steps@, parent, create)
            &&& file_size > 0 ==> occurs_once(steps@, reserve)
            &&& precedes(steps@, create, reserve)
            &&& forall|i: int|
                #![trigger steps@[i]]
                0 <= i < steps@.len() ==> steps@[i] == parent || steps@[i] == create || (steps@[i]
                    == reserve && file_size > 0)
        }),
{
    let in_dir = writer.style().parent_of(writer.target()) is Some;
    let create: int = if in_dir {
        1
    } else {
        0
    };
    lemma_only_at(steps@, WriterStep::Create, create);
    if in_dir {
        lemma_only_at(steps@, WriterStep::CreateParent, 0);
    }
    if file_size > 0 {
        lemma_only_at(steps@, WriterStep::Preallocate { bytes: file_size }, create + 1);
    }
}

/// A block is written once, and last; where there is a bandwidth limit, all its bytes
/// pass that first, once.
pub proof fn law_block_passes_the_limit(
    writer: BlockWriter,
    throttled: bool,
    bytes: u64,
    steps: Vec<WriterStep>,
)
    requires
        call_ensures(BlockWriter::block_steps, (&writer, throttled, bytes), steps),
    ensures
        occurs_once(steps@, WriterStep::Write),
        steps@.last() == WriterStep::Write,
        throttled ==> occurs_once(steps@, WriterStep::Throttle { bytes }),
        forall|i: int|
            #![trigger steps@[i]]
            0 <= i < steps@.len() - 1 ==> throttled && steps@[i] == (WriterStep::Throttle {
                bytes,
            }),
{
    lemma_only_at(steps@, WriterStep::Write, steps@.len() - 1);
    if throttled {
        lemma_only_at(steps@, WriterStep::Throttle { bytes }, 0);
    }
}

/// What is buffered is written out at the end, and nothing else is done then.
pub proof fn law_copy_is_flushed(writer: BlockWriter, steps: Vec<WriterStep>)
    requires
        call_ensures(BlockWriter::closing_steps, (&writer,), steps),
    ensures
        occurs_once(steps@, WriterStep::Flush),
        forall|i: int| 0 <= i < steps@.len() ==> #[trigger] steps@[i] == WriterStep::Flush,
{
    lemma_only_at(steps@, WriterStep::Flush, 0);
}

/// A failure to create, write or flush the target always ends the copy, and so does
/// one to make its directory; what only saves time or space does not.
pub proof fn law_only_real_failures_end_the_copy(
    writer: BlockWriter,
    step: WriterStep,
    message: String,
    error: Option<CoreError>,
)
    requires
        call_ensures(BlockWriter::fault, (&writer, step, message), error),
    ensures
        step is Create || step is Write || step is Flush ==> error is Some && error->0
            is WriteDestination && error->0->WriteDestination_path@ == writer.target()
            && error->0->WriteDestination_source@ == message@,
        step is CreateParent && writer.style().parent_of(writer.target()) is Some ==> error is Some
            && error->0 is Io && Some(error->0->Io_path@) == writer.style().parent_of(
            writer.target(),
        ) && error->0->Io_source@ == message@,
        step is Preallocate || step is Throttle ==> error is None,
{
}

/// A file is written under its partial name if and only if the configuration says so;
/// else under its own. It is hashed if and only if copies are verified, with the hash
/// function of the configuration.
pub proof fn law_writer_obeys_the_configuration(
    config: EngineConfig,
    style: PathStyle,
    dest: String,
    writer: BlockWriter,
    path: &String,
)
    requires
        call_ensures(BlockWriter::new, (&config, style, dest), writer),
        call_ensures(BlockWriter::target_path, (&writer,), path),
    ensures
        config.use_partial_files ==> path@ == style.partial_of(dest@),
        !config.use_partial_files ==> path@ == dest@,
        writer.dest() == dest@,
        writer.data().len() == 0,
        config.verify ==> writer.copy_digest() == Some(
            digest(config.hash_algorithm, Seq::<u8>::empty()),
        ),
        !config.verify ==> writer.copy_digest() is None,
{
    if config.verify {
        assert(writer.data() =~= Seq::<u8>::empty());
    }
}

/// A writer appends what it is given and forgets nothing: its digest is that of
/// everything written so far.
pub proof fn law_writer_appends(writer: &mut BlockWriter, block: Block)
    requires
        call_ensures(BlockWriter::on_block, (writer, &block), ()),
    ensures
        final(writer).data().len() == old(writer).data().len() + block@.len(),
        final(writer).data().take(old(writer).data().len() as int) == old(writer).data(),
        final(writer).data().skip(old(writer).data().len() as int) == block@,
        old(writer).verifies() ==> final(writer).copy_digest() == Some(
            digest(old(writer).algorithm(), old(writer).data() + block@),
        ),
        !old(writer).verifies() ==> final(writer).copy_digest() is None,
        final(writer).target() == old(writer).target(),
        final(writer).dest() == old(writer).dest(),
{
}

/// A copy is thrown away if and only if it was hashed, the digest of the source is
/// known and the two differ: then what was written is removed and nothing gets the
/// final name. Any other copy is published: from the partial name where it was written
/// under that, with the number of bytes and the digest of what was written.
pub proof fn law_only_a_good_copy_gets_its_name(
    writer: BlockWriter,
    source_hash: Option<String>,
    finish: WriteFinish,
)
    requires
        call_ensures(BlockWriter::finish, (writer, source_hash), finish),
    ensures
        ({
            let found = digest(writer.algorithm(), writer.data());
            let damaged = writer.verifies() && source_hash is Some && source_hash->0@ != found;
            &&& damaged <==> finish is Discard
            &&& damaged ==> finish->remove@ == writer.target() && finish->error is HashMismatch
                && finish->error->HashMismatch_path@ == writer.dest()
                && finish->error->HashMismatch_expected@ == source_hash->0@
                && finish->error->HashMismatch_actual@ == found
            &&& !damaged ==> {
                &&& finish is Publish
                &&& writer.uses_partial() ==> finish->rename is Some && finish->rename->0@
                    == writer.target()
                &&& !writer.uses_partial() ==> finish->rename is None
                &&& finish->result.final_path@ == writer.dest()
                &&& finish->result.bytes_written == writer.data().len()
                &&& writer.verifies() ==> finish->result.dest_hash is Some
                    && finish->result.dest_hash->0@ == found
                &&& !writer.verifies() ==> finish->result.dest_hash is None
            }
        }),
{
}

} // verus!
