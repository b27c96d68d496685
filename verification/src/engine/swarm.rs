//! The engine for small files: many at once, each in one pass.
//!
//! Files are handed to tasks one after the other, until the job is cancelled. A
//! task reads its file whole, writes it under a partial name and renames it. Where
//! copies are verified, it reads back what it wrote before the rename, and gives
//! the copy up if its digest is not that of the source. The failure of one file
//! never stops the others.

use vstd::prelude::*;

use crate::checkpoint::{FlowControl, FlowVerdict};
use crate::config::EngineConfig;
use crate::engine::move_op::Transfer;
use crate::error::{CoreError, Result};
use crate::hash::{digest, HasherDispatch, MAX_HASHED_BYTES};
use crate::path::PathStyle;
use crate::pipeline::writer::{is_hash_mismatch, text_of};
use crate::seqs::{lemma_only_at, occurs_once, only_at, precedes};
use crate::telemetry::{counts_completed, TelemetrySink};

verus! {

/// What became of one file.
pub struct SwarmFileResult {
    pub relative: String,
    pub result: Result<Transfer>,
}

/// What to do with the next file.
#[derive(Debug, Clone, Copy, PartialEq, Eq, Structural)]
pub enum Dispatch {
    /// Hand out no more files.
    Stop,
    /// Wait for the job to be resumed.
    Wait,
    /// Hand the file to a task.
    Spawn,
}

/// What a task does once it has its slot.
#[derive(Debug, Clone, Copy, PartialEq, Eq, Structural)]
pub enum TaskGate {
    /// Give the file up: the job is cancelled.
    Refuse,
    /// Wait for the job to be resumed.
    Wait,
    /// Copy the file.
    Copy,
}

/// Copies small files.
pub struct SwarmEngine {
    config: EngineConfig,
}

impl SwarmEngine {
    /// The configuration of the engine.
    pub closed spec fn config(self) -> EngineConfig {
        self.config
    }

    pub fn new(config: EngineConfig) -> (engine: Self)
        ensures
            engine.config() == config,
    {
        SwarmEngine { config }
    }

    /// How many tasks copy at once.
    pub fn slots(&self) -> (slots: usize)
        ensures
            slots == self.config().swarm_concurrency,
    {
        self.config.swarm_concurrency
    }

    /// Decides about the next file.
    pub fn dispatch(&self, flow: &FlowControl) -> (next: Dispatch)
        ensures
            next == (match flow.verdict() {
                FlowVerdict::Stop => Dispatch::Stop,
                FlowVerdict::Wait => Dispatch::Wait,
                FlowVerdict::Run => Dispatch::Spawn,
            }),
    {
        if flow.is_cancelled() {
            Dispatch::Stop
        } else if flow.is_paused() {
            Dispatch::Wait
        } else {
            Dispatch::Spawn
        }
    }

    /// Decides about the next file after a pause; `waited` is how the pause
    /// ended, `None` where waiting itself broke down.
    pub fn dispatch_after_pause(&self, waited: Option<Result<()>>) -> (next: Result<Dispatch>)
        ensures
            match waited {
                None => next is Err && next->Err_0 is PipelineDisconnected,
                Some(Err(CoreError::PipelineDisconnected)) => next == Ok::<Dispatch, CoreError>(
                    Dispatch::Stop,
                ),
                Some(_) => next == Ok::<Dispatch, CoreError>(Dispatch::Spawn),
            },
    {
        match waited {
            None => Err(CoreError::PipelineDisconnected),
            Some(Err(CoreError::PipelineDisconnected)) => Ok(Dispatch::Stop),
            Some(_) => Ok(Dispatch::Spawn),
        }
    }

    /// Decides what a task does once it has its slot.
    pub fn task_gate(&self, flow: &FlowControl) -> (gate: TaskGate)
        ensures
            gate == (match flow.verdict() {
                FlowVerdict::Stop => TaskGate::Refuse,
                FlowVerdict::Wait => TaskGate::Wait,
                FlowVerdict::Run => TaskGate::Copy,
            }),
    {
        if flow.is_cancelled() {
            TaskGate::Refuse
        } else if flow.is_paused() {
            TaskGate::Wait
        } else {
            TaskGate::Copy
        }
    }

    /// Decides whether a task copies its file after a pause: not if waiting
    /// failed, and not if the job was cancelled meanwhile.
    pub fn task_after_pause(&self, waited: Option<Result<()>>, flow: &FlowControl) -> (
        go: Result<()>)
        ensures
            match waited {
                None => go is Err && go->Err_0 is PipelineDisconnected,
                Some(Err(error)) => go == Err::<(), CoreError>(error),
                Some(Ok(())) => if flow.cancelled() {
                    go is Err && go->Err_0 is PipelineDisconnected
                } else {
                    go is Ok
                },
            },
    {
        match waited {
            None => Err(CoreError::PipelineDisconnected),
            Some(Err(error)) => Err(error),
            Some(Ok(())) => if flow.is_cancelled() {
                Err(CoreError::PipelineDisconnected)
            } else {
                Ok(())
            },
        }
    }

    /// The results of the tasks that gave one; `None` stands for a task that
    /// broke down.
    pub fn collect(&self, outcomes: Vec<Option<SwarmFileResult>>) -> (
        results: Vec<SwarmFileResult>)
        ensures
            results@ == given(outcomes@),
    {
        let mut outcomes = outcomes;
        let ghost all = outcomes@;
        let mut reversed: Vec<SwarmFileResult> = Vec::new();
        assert(all.skip(all.len() as int) =~= Seq::<Option<SwarmFileResult>>::empty());
        while outcomes.len() > 0
            invariant
                outcomes@.len() <= all.len(),
                outcomes@ == all.take(outcomes@.len() as int),
                reversed@.reverse() == given(all.skip(outcomes@.len() as int)),
            decreases outcomes@.len(),
        {
            let ghost n = outcomes@.len();
            let last = outcomes.pop();
            assert(outcomes@ =~= all.take(n - 1));
            assert(all.skip(n - 1) =~= seq![all[n - 1]] + all.skip(n as int));
            proof {
                lemma_given_first(all.skip(n - 1));
                assert(all.skip(n - 1).drop_first() =~= all.skip(n as int));
            }
            if let Some(Some(result)) = last {
                let ghost before = reversed@;
                reversed.push(result);
                assert(reversed@.reverse() =~= seq![result] + before.reverse());
            }
        }
        let ghost back = reversed@;
        let mut results: Vec<SwarmFileResult> = Vec::new();
        while reversed.len() > 0
            invariant
                reversed@.len() <= back.len(),
                reversed@ == back.take(reversed@.len() as int),
                results@ == back.reverse().take(back.len() - reversed@.len()),
            decreases reversed@.len(),
        {
            let ghost n = reversed@.len();
            if let Some(result) = reversed.pop() {
                results.push(result);
            }
            assert(reversed@ =~= back.take(n - 1));
            assert(results@ =~= back.reverse().take(back.len() - (n - 1)));
        }
        assert(results@ =~= back.reverse());
        assert(all.skip(0) =~= all);
        results
    }
}

/// The results among `outcomes`, in their order.
pub open spec fn given(outcomes: Seq<Option<SwarmFileResult>>) -> Seq<SwarmFileResult>
    decreases outcomes.len(),
{
    if outcomes.len() == 0 {
        Seq::empty()
    } else {
        match outcomes[0] {
            Some(result) => seq![result] + given(outcomes.drop_first()),
            None => given(outcomes.drop_first()),
        }
    }
}

proof fn lemma_given_first(outcomes: Seq<Option<SwarmFileResult>>)
    requires
        outcomes.len() > 0,
    ensures
        given(outcomes) == match outcomes[0] {
            Some(result) => seq![result] + given(outcomes.drop_first()),
            None => given(outcomes.drop_first()),
        },
{
}

/// A step in the copy of a small file.
#[derive(Debug, Clone, Copy, PartialEq, Eq, Structural)]
pub enum SmallAction {
    /// Consume bandwidth for so many bytes.
    Throttle { bytes: u64 },
    /// Read the source whole.
    Read,
    /// Make the directory of the destination.
    CreateParent,
    /// Create the target, empty.
    Create,
    /// Reserve space for the target.
    Preallocate { bytes: u64 },
    /// Write what was read to the target.
    Write,
    /// Read the target whole.
    ReadBack,
    /// Rename the target to the destination.
    Rename,
    /// Give the destination the metadata of the source.
    CopyMetadata,
}

/// What is done before the contents are known.
pub open spec fn steps_before_read(throttled: bool, size: u64) -> Seq<SmallAction> {
    if throttled {
        seq![SmallAction::Throttle { bytes: size }, SmallAction::Read]
    } else {
        seq![SmallAction::Read]
    }
}

/// What a look at the copy means.
pub enum CopyCheck {
    /// The copy is good: go on.
    Pass,
    /// The copy differs from the source: remove the file at `remove` and fail.
    Discard { remove: String, error: CoreError },
}

impl CopyCheck {
    /// Whether this is what has to follow when `data` was read back for `copy`: a
    /// copy whose digest is not that of the source is discarded, any other
    /// passes.
    pub open spec fn is_due(self, copy: SmallCopy, data: Seq<u8>) -> bool {
        let actual = digest(copy.config().hash_algorithm, data);
        match self {
            CopyCheck::Pass => copy.hash() == Some(actual),
            CopyCheck::Discard { remove, error } => {
                &&& copy.hash() != Some(actual)
                &&& remove@ == copy.target()
                &&& is_hash_mismatch(error, copy.dest(), copy.hash()->0, actual)
            },
        }
    }
}

/// What is done once `size` bytes were read; `in_dir` says whether the
/// destination lies in a directory.
pub open spec fn steps_after_read(
    in_dir: bool,
    use_partial: bool,
    verify: bool,
    throttled: bool,
    size: u64,
) -> Seq<SmallAction> {
    (if in_dir {
        seq![SmallAction::CreateParent]
    } else {
        Seq::empty()
    }) + seq![SmallAction::Create] + (if size > 0 {
        seq![SmallAction::Preallocate { bytes: size }]
    } else {
        Seq::empty()
    }) + (if throttled {
        seq![SmallAction::Throttle { bytes: size }]
    } else {
        Seq::empty()
    }) + seq![SmallAction::Write] + (if verify {
        seq![SmallAction::ReadBack]
    } else {
        Seq::empty()
    }) + (if use_partial {
        seq![SmallAction::Rename]
    } else {
        Seq::empty()
    }) + seq![SmallAction::CopyMetadata]
}

fn list_after_read(
    in_dir: bool,
    use_partial: bool,
    verify: bool,
    throttled: bool,
    size: u64,
) -> (steps: Vec<SmallAction>)
    ensures
        steps@ == steps_after_read(in_dir, use_partial, verify, throttled, size),
{
    let mut steps: Vec<SmallAction> = Vec::new();
    if in_dir {
        steps.push(SmallAction::CreateParent);
    }
    steps.push(SmallAction::Create);
    if size > 0 {
        steps.push(SmallAction::Preallocate { bytes: size });
    }
    if throttled {
        steps.push(SmallAction::Throttle { bytes: size });
    }
    steps.push(SmallAction::Write);
    if verify {
        steps.push(SmallAction::ReadBack);
    }
    if use_partial {
        steps.push(SmallAction::Rename);
    }
    steps.push(SmallAction::CopyMetadata);
    assert(steps@ =~= steps_after_read(in_dir, use_partial, verify, throttled, size));
    steps
}

/// The copy of one small file.
pub struct SmallCopy {
    style: PathStyle,
    source: String,
    dest: String,
    target: String,
    config: EngineConfig,
    hash: Option<String>,
    dest_hash: Option<String>,
    size: u64,
}

impl SmallCopy {
    /// How paths are written.
    pub closed spec fn style(self) -> PathStyle {
        self.style
    }

    pub closed spec fn source(self) -> Seq<char> {
        self.source@
    }

    pub closed spec fn dest(self) -> Seq<char> {
        self.dest@
    }

    pub closed spec fn config(self) -> EngineConfig {
        self.config
    }

    /// The digest of the contents, once they were read and if one is asked for.
    pub closed spec fn hash(self) -> Option<Seq<char>> {
        text_of(self.hash)
    }

    /// The digest of the copy, once it was read back.
    pub closed spec fn dest_hash(self) -> Option<Seq<char>> {
        text_of(self.dest_hash)
    }

    /// How many bytes were read.
    pub closed spec fn size(self) -> nat {
        self.size as nat
    }

    /// Where the contents are written.
    pub open spec fn target(self) -> Seq<char> {
        if self.config().use_partial_files {
            self.style().partial_of(self.dest())
        } else {
            self.dest()
        }
    }

    pub closed spec fn wf(self) -> bool {
        self.target@ == self.target()
    }

    /// The copy of `source` to `dest`.
    pub fn new(source: String, dest: String, style: PathStyle, config: EngineConfig) -> (copy: Self)
        requires
            config.use_partial_files ==> style.file_name_of(dest@) is Some,
        ensures
            copy.wf(),
            copy.style() == style,
            copy.source() == source@,
            copy.dest() == dest@,
            copy.config() == config,
            copy.hash() is None,
            copy.dest_hash() is None,
            copy.size() == 0,
    {
        let target = if config.use_partial_files {
            style.partial_path(dest.as_str())
        } else {
            dest.clone()
        };
        SmallCopy { style, source, dest, target, config, hash: None, dest_hash: None, size: 0 }
    }

    /// Where the contents are to be written.
    pub fn target_path(&self) -> (path: &String)
        requires
            self.wf(),
        ensures
            path@ == self.target(),
    {
        &self.target
    }

    /// What to do first; `size` is the size that the scan found.
    pub fn start(&self, throttled: bool, size: u64) -> (steps: Vec<SmallAction>)
        ensures
            steps@ == steps_before_read(throttled, size),
    {
        let mut steps: Vec<SmallAction> = Vec::new();
        if throttled {
            steps.push(SmallAction::Throttle { bytes: size });
        }
        steps.push(SmallAction::Read);
        assert(steps@ =~= steps_before_read(throttled, size));
        steps
    }

    /// Takes in the contents and says what is left to do.
    pub fn on_data(&mut self, data: &[u8], throttled: bool) -> (steps: Vec<SmallAction>)
        requires
            old(self).wf(),
            data@.len() <= MAX_HASHED_BYTES,
        ensures
            final(self).wf(),
            final(self).style() == old(self).style(),
            final(self).source() == old(self).source(),
            final(self).dest() == old(self).dest(),
            final(self).config() == old(self).config(),
            final(self).hash() == (if old(self).config().verify {
                Some(digest(old(self).config().hash_algorithm, data@))
            } else {
                None
            }),
            final(self).dest_hash() == old(self).dest_hash(),
            final(self).size() == data@.len(),
            steps@ == steps_after_read(
                old(self).style().parent_of(old(self).dest()) is Some,
                old(self).config().use_partial_files,
                old(self).config().verify,
                throttled,
                data@.len() as u64,
            ),
    {
        let size: u64 = data.len() as u64;
        self.size = size;
        self.hash = if self.config.verify {
            let mut hasher = HasherDispatch::new(self.config.hash_algorithm);
            hasher.update(data);
            assert(hasher.absorbed() =~= data@);
            Some(hasher.finalize())
        } else {
            None
        };
        let in_dir: bool = self.style.parent(self.dest.as_str()).is_some();
        list_after_read(
            in_dir,
            self.config.use_partial_files,
            self.config.verify,
            throttled,
            size,
        )
    }

    /// Takes in what was read back from the target, and compares it with what
    /// was read from the source. The final name is given only to a copy that
    /// passes.
    pub fn on_read_back(&mut self, data: &[u8]) -> (check: CopyCheck)
        requires
            old(self).wf(),
            old(self).hash() is Some,
            data@.len() <= MAX_HASHED_BYTES,
        ensures
            final(self).wf(),
            final(self).style() == old(self).style(),
            final(self).source() == old(self).source(),
            final(self).dest() == old(self).dest(),
            final(self).config() == old(self).config(),
            final(self).hash() == old(self).hash(),
            final(self).size() == old(self).size(),
            final(self).dest_hash() == Some(digest(old(self).config().hash_algorithm, data@)),
            check.is_due(*old(self), data@),
    {
        let mut hasher = HasherDispatch::new(self.config.hash_algorithm);
        hasher.update(data);
        assert(hasher.absorbed() =~= data@);
        let actual = hasher.finalize();
        self.dest_hash = Some(actual.clone());
        if let Some(expected) = &self.hash {
            if *expected != actual {
                return CopyCheck::Discard {
                    remove: self.target.clone(),
                    error: CoreError::HashMismatch {
                        path: self.dest.clone(),
                        expected: expected.clone(),
                        actual,
                    },
                };
            }
        }
        CopyCheck::Pass
    }

    /// What the failure of a step means: an error that ends the copy, or nothing,
    /// where the step is best effort.
    pub fn fault(&self, step: SmallAction, message: String) -> (error: Option<CoreError>)
        requires
            self.wf(),
        ensures
            match step {
                SmallAction::Read => error is Some && error->0 is ReadSource
                    && error->0->ReadSource_path@ == self.source()
                    && error->0->ReadSource_source == message,
                SmallAction::CreateParent => match self.style().parent_of(self.dest()) {
                    Some(dir) => error is Some && error->0 is Io && error->0->Io_path@ == dir
                        && error->0->Io_source == message,
                    None => error is None,
                },
                SmallAction::Create | SmallAction::Write => error is Some
                    && error->0 is WriteDestination && error->0->WriteDestination_path@
                    == self.target() && error->0->WriteDestination_source == message,
                SmallAction::ReadBack => error is Some && error->0 is Io && error->0->Io_path@
                    == self.target() && error->0->Io_source == message,
                SmallAction::Rename => error is Some && error->0 is AtomicRename
                    && error->0->from@ == self.target() && error->0->to@ == self.dest()
                    && error->0->AtomicRename_source == message,
                _ => error is None,
            },
    {
        match step {
            SmallAction::Read => Some(CoreError::read(self.source.clone(), message)),
            SmallAction::CreateParent => match self.style.parent(self.dest.as_str()) {
                Some(dir) => Some(CoreError::io(dir, message)),
                None => None,
            },
            SmallAction::Create | SmallAction::Write => Some(
                CoreError::write(self.target.clone(), message),
            ),
            SmallAction::ReadBack => Some(CoreError::io(self.target.clone(), message)),
            SmallAction::Rename => Some(
                CoreError::rename(self.target.clone(), self.dest.clone(), message),
            ),
            _ => None,
        }
    }

    /// Counts the file once all of its steps are done. Returns what was
    /// transferred.
    pub fn finish(self, telemetry: &mut TelemetrySink) -> (transfer: Transfer)
        ensures
            transfer.bytes == self.size(),
            text_of(transfer.hash) == self.hash(),
            text_of(transfer.dest_hash) == self.dest_hash(),
            counts_completed(*old(telemetry), *final(telemetry), self.size()),
    {
        telemetry.add_bytes(self.size);
        telemetry.complete_file();
        Transfer { bytes: self.size, hash: self.hash, dest_hash: self.dest_hash }
    }
}

/// A file gets its final name only after all of it was written under the
/// partial one and, where copies are verified, read back: the rename follows the
/// write or the look at it, and nothing is written after it.
#[verifier::spinoff_prover]
pub proof fn law_rename_follows_write(
    in_dir: bool,
    verify: bool,
    throttled: bool,
    size: u64,
    i: int,
)
    requires
        0 <= i < steps_after_read(in_dir, true, verify, throttled, size).len(),
    ensures
        ({
            let steps = steps_after_read(in_dir, true, verify, throttled, size);
            let last_look = if verify {
                SmallAction::ReadBack
            } else {
                SmallAction::Write
            };
            &&& steps[i] == SmallAction::Rename ==> i > 0 && steps[i - 1] == last_look
            &&& steps[i] == SmallAction::ReadBack ==> i > 0 && steps[i - 1] == SmallAction::Write
            &&& steps[i] == last_look ==> i + 1 < steps.len() && steps[i + 1]
                == SmallAction::Rename
            &&& steps[i] == SmallAction::Write ==> forall|j: int|
                i < j < steps.len() ==> steps[j] != SmallAction::Write
        }),
{
}

/// What passes has the digest of the source, and what is discarded differs from
/// it; `source` is what was read, `data` what was read back.
pub proof fn law_only_a_damaged_copy_is_discarded(
    copy: SmallCopy,
    check: CopyCheck,
    source: Seq<u8>,
    data: Seq<u8>,
)
    requires
        copy.hash() == Some(digest(copy.config().hash_algorithm, source)),
        check.is_due(copy, data),
    ensures
        check is Pass ==> digest(copy.config().hash_algorithm, data) == digest(
            copy.config().hash_algorithm,
            source,
        ),
        check is Discard ==> data != source,
{
}

/// Space is reserved only for a target that exists and of which nothing is
/// written yet.
#[verifier::spinoff_prover]
pub proof fn law_space_is_reserved_before_the_first_byte(
    in_dir: bool,
    use_partial: bool,
    verify: bool,
    throttled: bool,
    size: u64,
    i: int,
)
    requires
        0 <= i < steps_after_read(in_dir, use_partial, verify, throttled, size).len(),
        steps_after_read(in_dir, use_partial, verify, throttled, size)[i] is Preallocate,
    ensures
        ({
            let steps = steps_after_read(in_dir, use_partial, verify, throttled, size);
            &&& i > 0 && steps[i - 1] == SmallAction::Create
            &&& forall|j: int| 0 <= j < i ==> steps[j] != SmallAction::Write
        }),
{
    let steps = steps_after_read(in_dir, use_partial, verify, throttled, size);
    let created: int = if in_dir {
        1
    } else {
        0
    };
    assert(steps[created] == SmallAction::Create);
    if in_dir {
        assert(steps[0] == SmallAction::CreateParent);
    }
    assert(i == created + 1);
}

/// Metadata are given to the file under its final name, last of all.
pub proof fn law_metadata_come_last(
    in_dir: bool,
    use_partial: bool,
    verify: bool,
    throttled: bool,
    size: u64,
)
    ensures
        steps_after_read(in_dir, use_partial, verify, throttled, size).last()
            == SmallAction::CopyMetadata,
{
}

/// Where each of the steps after the read stands.
#[verifier::spinoff_prover]
proof fn lemma_places_after_read(
    in_dir: bool,
    use_partial: bool,
    verify: bool,
    throttled: bool,
    size: u64,
)
    ensures
        ({
            let steps = steps_after_read(in_dir, use_partial, verify, throttled, size);
            let created: int = if in_dir {
                1
            } else {
                0
            };
            let reserved: int = created + if size > 0 {
                1int
            } else {
                0
            };
            let written: int = reserved + if throttled {
                2int
            } else {
                1
            };
            let looked: int = written + if verify {
                1int
            } else {
                0
            };
            let named: int = looked + if use_partial {
                1int
            } else {
                0
            };
            &&& steps.len() == named + 2
            &&& in_dir ==> steps[0] == SmallAction::CreateParent
            &&& steps[created] == SmallAction::Create
            &&& size > 0 ==> steps[reserved] == SmallAction::Preallocate { bytes: size }
            &&& throttled ==> steps[written - 1] == SmallAction::Throttle { bytes: size }
            &&& steps[written] == SmallAction::Write
            &&& verify ==> steps[looked] == SmallAction::ReadBack
            &&& use_partial ==> steps[named] == SmallAction::Rename
            &&& steps[named + 1] == SmallAction::CopyMetadata
        }),
{
    let none = Seq::<SmallAction>::empty();
    let parent = if in_dir {
        seq![SmallAction::CreateParent]
    } else {
        none
    };
    let reserve = if size > 0 {
        seq![SmallAction::Preallocate { bytes: size }]
    } else {
        none
    };
    let wait = if throttled {
        seq![SmallAction::Throttle { bytes: size }]
    } else {
        none
    };
    let look = if verify {
        seq![SmallAction::ReadBack]
    } else {
        none
    };
    let rename = if use_partial {
        seq![SmallAction::Rename]
    } else {
        none
    };
    let s1 = parent + seq![SmallAction::Create];
    let s2 = s1 + reserve;
    let s3 = s2 + wait;
    let s4 = s3 + seq![SmallAction::Write];
    let s5 = s4 + look;
    let s6 = s5 + rename;
    let steps = s6 + seq![SmallAction::CopyMetadata];
    assert(steps == steps_after_read(in_dir, use_partial, verify, throttled, size));
    lemma_same_front(parent, seq![SmallAction::Create]);
    lemma_same_front(s1, reserve);
    lemma_same_front(s2, wait);
    lemma_same_front(s3, seq![SmallAction::Write]);
    lemma_same_front(s4, look);
    lemma_same_front(s5, rename);
    lemma_same_front(s6, seq![SmallAction::CopyMetadata]);
}

proof fn lemma_same_front(front: Seq<SmallAction>, back: Seq<SmallAction>)
    ensures
        (front + back).len() == front.len() + back.len(),
        forall|i: int| 0 <= i < front.len() ==> #[trigger] front[i] == (front + back)[i],
        back.len() > 0 ==> (front + back)[front.len() as int] == back[0],
{
}

/// A small file lands at its place whatever the configuration: its directory is
/// made before anything is created there, the file is created and written once,
/// the bytes that were read pass the bandwidth limit before they are written,
/// verification looks at what was written, and the final name and the metadata
/// come after that.
#[verifier::spinoff_prover]
pub proof fn law_small_file_lands_at_its_place(
    copy: &mut SmallCopy,
    data: &[u8],
    throttled: bool,
    steps: Vec<SmallAction>,
)
    requires
        call_ensures(SmallCopy::on_data, (copy, data, throttled), steps),
        data@.len() <= u64::MAX,
    ensures
        ({
            let config = old(copy).config();
            let size = data@.len() as u64;
            let parent = SmallAction::CreateParent;
            let create = SmallAction::Create;
            let write = SmallAction::Write;
            let wait = SmallAction::Throttle { bytes: size };
            let reserve = SmallAction::Preallocate { bytes: size };
            let look = SmallAction::ReadBack;
            let rename = SmallAction::Rename;
            let metadata = SmallAction::CopyMetadata;
            &&& occurs_once(steps@, create) && occurs_once(steps@, write) && occurs_once(
                steps@,
                metadata,
            )
            &&& precedes(steps@, create, write) && precedes(steps@, write, metadata)
            &&& old(copy).style().parent_of(old(copy).dest()) is Some ==> occurs_once(
                steps@,
                parent,
            ) && precedes(steps@, parent, create)
            &&& steps@.contains(parent) ==> old(copy).style().parent_of(old(copy).dest()) is Some
            &&& steps@.contains(wait) == throttled && precedes(steps@, wait, write)
            &&& steps@.contains(reserve) == (size > 0) && precedes(steps@, create, reserve)
                && precedes(steps@, reserve, write)
            &&& steps@.contains(look) == config.verify && precedes(steps@, write, look)
            &&& steps@.contains(rename) == config.use_partial_files && precedes(
                steps@,
                write,
                rename,
            ) && precedes(steps@, look, rename) && precedes(steps@, rename, metadata)
            &&& !steps@.contains(SmallAction::Read)
            &&& throttled ==> occurs_once(steps@, wait)
            &&& size > 0 ==> occurs_once(steps@, reserve)
            &&& config.verify ==> occurs_once(steps@, look)
            &&& config.use_partial_files ==> occurs_once(steps@, rename)
            &&& forall|i: int|
                #![trigger steps@[i]]
                0 <= i < steps@.len() ==> (steps@[i] is Throttle ==> steps@[i] == wait) && (
                steps@[i] is Preallocate ==> steps@[i] == reserve)
        }),
{
    let config = old(copy).config();
    let size = data@.len() as u64;
    let in_dir = old(copy).style().parent_of(old(copy).dest()) is Some;
    let all = steps@;
    lemma_places_after_read(in_dir, config.use_partial_files, config.verify, throttled, size);
    let created: int = if in_dir {
        1
    } else {
        0
    };
    let reserved: int = created + if size > 0 {
        1int
    } else {
        0
    };
    let written: int = reserved + if throttled {
        2int
    } else {
        1
    };
    let looked: int = written + if config.verify {
        1int
    } else {
        0
    };
    let named: int = looked + if config.use_partial_files {
        1int
    } else {
        0
    };
    assert forall|i: int| 0 <= i < all.len() implies (#[trigger] all[i] == all[i]) && (i == created
        || i == written || i == named + 1 || (in_dir && i == 0) || (size > 0 && i == reserved) || (
    throttled && i == written - 1) || (config.verify && i == looked) || (config.use_partial_files
        && i == named)) by {}
    assert(only_at(all, SmallAction::Create, created));
    assert(only_at(all, SmallAction::Write, written));
    assert(only_at(all, SmallAction::CopyMetadata, named + 1));
    lemma_only_at(all, SmallAction::Create, created);
    lemma_only_at(all, SmallAction::Write, written);
    lemma_only_at(all, SmallAction::CopyMetadata, named + 1);
    if in_dir {
        assert(only_at(all, SmallAction::CreateParent, 0));
        lemma_only_at(all, SmallAction::CreateParent, 0);
    }
    if throttled {
        let wait = SmallAction::Throttle { bytes: size };
        assert(only_at(all, wait, written - 1));
        lemma_only_at(all, wait, written - 1);
    }
    if size > 0 {
        let reserve = SmallAction::Preallocate { bytes: size };
        assert(only_at(all, reserve, reserved));
        lemma_only_at(all, reserve, reserved);
    }
    if config.verify {
        assert(only_at(all, SmallAction::ReadBack, looked));
        lemma_only_at(all, SmallAction::ReadBack, looked);
    }
    if config.use_partial_files {
        assert(only_at(all, SmallAction::Rename, named));
        lemma_only_at(all, SmallAction::Rename, named);
    }
}

/// The source is read once, and under a bandwidth limit only after the bytes that
/// the scan found have passed it.
pub proof fn law_read_passes_the_limit(
    copy: SmallCopy,
    throttled: bool,
    size: u64,
    steps: Vec<SmallAction>,
)
    requires
        call_ensures(SmallCopy::start, (&copy, throttled, size), steps),
    ensures
        occurs_once(steps@, SmallAction::Read),
        steps@.last() == SmallAction::Read,
        throttled ==> steps@.len() == 2 && steps@[0] == (SmallAction::Throttle { bytes: size }),
        !throttled ==> steps@.len() == 1,
{
    lemma_only_at(steps@, SmallAction::Read, steps@.len() - 1);
}

/// Copies are verified where that is asked for and only there: the digest of the
/// source is taken of what was read, by the hash function of the job.
pub proof fn law_digest_is_taken_where_asked(
    copy: &mut SmallCopy,
    data: &[u8],
    throttled: bool,
    steps: Vec<SmallAction>,
)
    requires
        call_ensures(SmallCopy::on_data, (copy, data, throttled), steps),
    ensures
        final(copy).hash() is Some <==> old(copy).config().verify,
        old(copy).config().verify ==> final(copy).hash()->0 == digest(
            old(copy).config().hash_algorithm,
            data@,
        ),
        final(copy).size() == data@.len(),
        final(copy).source() == old(copy).source(),
        final(copy).dest() == old(copy).dest(),
        final(copy).target() == old(copy).target(),
        final(copy).config() == old(copy).config(),
        final(copy).style() == old(copy).style(),
{
}

/// A copy that reads back as it was read is kept, and one whose digest is another
/// is removed from where it was written, with an error that names the file.
pub proof fn law_damaged_copy_is_removed(
    copy: &mut SmallCopy,
    source: Seq<u8>,
    back: &[u8],
    check: CopyCheck,
)
    requires
        call_ensures(SmallCopy::on_read_back, (copy, back), check),
        old(copy).hash() == Some(digest(old(copy).config().hash_algorithm, source)),
    ensures
        back@ == source ==> check is Pass,
        ({
            let expected = digest(old(copy).config().hash_algorithm, source);
            let actual = digest(old(copy).config().hash_algorithm, back@);
            expected != actual ==> {
                &&& check is Discard
                &&& check->remove@ == old(copy).target()
                &&& check->error is HashMismatch
                &&& check->error->HashMismatch_path@ == old(copy).dest()
                &&& check->error->expected@ == expected
                &&& check->error->actual@ == actual
            }
        }),
        final(copy).dest_hash() == Some(digest(old(copy).config().hash_algorithm, back@)),
        final(copy).hash() == old(copy).hash(),
        final(copy).size() == old(copy).size(),
        final(copy).target() == old(copy).target(),
        final(copy).dest() == old(copy).dest(),
{
}

/// A small file is written beside its final place under a partial name, or right
/// there where partial names are not used.
pub proof fn law_small_file_is_written_in_place(
    source: String,
    dest: String,
    style: PathStyle,
    config: EngineConfig,
    copy: SmallCopy,
    target: String,
)
    requires
        call_ensures(SmallCopy::new, (source, dest, style, config), copy),
        call_ensures(SmallCopy::target_path, (&copy,), &target),
    ensures
        copy.source() == source@,
        copy.dest() == dest@,
        !config.use_partial_files ==> target@ == dest@,
        config.use_partial_files ==> target@ == style.partial_of(dest@),
        copy.hash() is None,
        copy.dest_hash() is None,
{
}

/// Only what a copy can do without is let go: a bandwidth limit, space that was
/// not reserved and metadata. Any other step that fails ends the copy, with an
/// error that names what could not be read or written.
pub proof fn law_failed_step_ends_the_copy(
    copy: SmallCopy,
    step: SmallAction,
    message: String,
    error: Option<CoreError>,
)
    requires
        call_ensures(SmallCopy::fault, (&copy, step, message), error),
    ensures
        step is Throttle || step is Preallocate || step is CopyMetadata ==> error is None,
        step is Read || step is Create || step is Write || step is ReadBack || step is Rename
            ==> error is Some,
        step is CreateParent && copy.style().parent_of(copy.dest()) is Some ==> error is Some,
        step is Read ==> error->0 is ReadSource && error->0->ReadSource_path@ == copy.source(),
        step is Read ==> error->0->ReadSource_source@ == message@,
        step is Create || step is Write ==> error->0 is WriteDestination
            && error->0->WriteDestination_path@ == copy.target()
            && error->0->WriteDestination_source@ == message@,
        step is ReadBack ==> error->0 is Io && error->0->Io_path@ == copy.target()
            && error->0->Io_source@ == message@,
        step is CreateParent && copy.style().parent_of(copy.dest()) is Some ==> error->0 is Io
            && Some(error->0->Io_path@) == copy.style().parent_of(copy.dest())
            && error->0->Io_source@ == message@,
        step is Rename ==> error->0 is AtomicRename && error->0->from@ == copy.target()
            && error->0->to@ == copy.dest() && error->0->AtomicRename_source@ == message@,
{
}

/// A copied small file counts once, with the bytes that were read.
pub proof fn law_small_file_counts_once(
    copy: SmallCopy,
    telemetry: &mut TelemetrySink,
    transfer: Transfer,
)
    requires
        call_ensures(SmallCopy::finish, (copy, telemetry), transfer),
        old(telemetry).completed_files() < usize::MAX,
        old(telemetry).copied_bytes() + copy.size() <= u64::MAX,
    ensures
        final(telemetry).completed_files() == old(telemetry).completed_files() + 1,
        final(telemetry).copied_bytes() == old(telemetry).copied_bytes() + copy.size(),
        final(telemetry).failed_files() == old(telemetry).failed_files(),
        transfer.bytes == copy.size(),
        text_of(transfer.hash) == copy.hash(),
        text_of(transfer.dest_hash) == copy.dest_hash(),
{
}

/// Files are handed out while the job runs, held back while it is paused, and no
/// more once it is cancelled; a task that waited for its slot looks again.
pub proof fn law_swarm_obeys_the_flags(
    engine: SwarmEngine,
    flow: FlowControl,
    next: Dispatch,
    gate: TaskGate,
)
    requires
        call_ensures(SwarmEngine::dispatch, (&engine, &flow), next),
        call_ensures(SwarmEngine::task_gate, (&engine, &flow), gate),
    ensures
        flow.cancelled() ==> next == Dispatch::Stop && gate == TaskGate::Refuse,
        !flow.cancelled() && flow.paused() ==> next == Dispatch::Wait && gate == TaskGate::Wait,
        !flow.cancelled() && !flow.paused() ==> next == Dispatch::Spawn && gate == TaskGate::Copy,
{
}

/// A pause that ends goes on with the file; one that ends by a cancellation stops
/// the job and gives the file up.
pub proof fn law_swarm_goes_on_after_a_pause(
    engine: SwarmEngine,
    waited: Result<()>,
    flow: FlowControl,
    next: Result<Dispatch>,
    go: Result<()>,
)
    requires
        call_ensures(SwarmEngine::dispatch_after_pause, (&engine, Some(waited)), next),
        call_ensures(SwarmEngine::task_after_pause, (&engine, Some(waited), &flow), go),
    ensures
        waited is Ok ==> next is Ok && next->Ok_0 == Dispatch::Spawn,
        waited is Err && waited->Err_0 is PipelineDisconnected ==> next is Ok && next->Ok_0
            == Dispatch::Stop,
        go is Ok <==> waited is Ok && !flow.cancelled(),
{
}

/// No outcome of a task is lost, doubled or moved: the results are those of the
/// tasks that gave one, in the order of the tasks.
pub proof fn law_no_result_is_lost(
    engine: SwarmEngine,
    outcomes: Vec<Option<SwarmFileResult>>,
    results: Vec<SwarmFileResult>,
    i: int,
)
    requires
        call_ensures(SwarmEngine::collect, (&engine, outcomes), results),
        0 <= i < outcomes@.len(),
    ensures
        results@.len() == outcomes@.filter(|o: Option<SwarmFileResult>| o is Some).len(),
        outcomes@[i] is Some ==> ({
            let place = outcomes@.take(i).filter(|o: Option<SwarmFileResult>| o is Some).len();
            place < results@.len() && results@[place as int] == outcomes@[i]->0
        }),
{
    lemma_given_in_order(outcomes@, i);
}

proof fn lemma_given_in_order(outcomes: Seq<Option<SwarmFileResult>>, i: int)
    requires
        0 <= i < outcomes.len(),
    ensures
        given(outcomes).len() == outcomes.filter(|o: Option<SwarmFileResult>| o is Some).len(),
        outcomes[i] is Some ==> ({
            let place = outcomes.take(i).filter(|o: Option<SwarmFileResult>| o is Some).len();
            place < given(outcomes).len() && given(outcomes)[place as int] == outcomes[i]->0
        }),
    decreases outcomes.len(),
{
    let some = |o: Option<SwarmFileResult>| o is Some;
    let rest = outcomes.drop_first();
    let first = seq![outcomes[0]];
    assert(outcomes =~= first + rest);
    Seq::filter_distributes_over_add(first, rest, some);
    assert(first.filter(some).len() == if outcomes[0] is Some {
        1nat
    } else {
        0nat
    }) by {
        reveal(Seq::filter);
        reveal_with_fuel(Seq::filter, 2);
        assert(first.drop_last() =~= Seq::<Option<SwarmFileResult>>::empty());
    }
    lemma_given_first(outcomes);
    if rest.len() == 0 {
        assert(rest.filter(some).len() == 0) by {
            reveal(Seq::filter);
        }
        assert(outcomes.take(0).filter(some).len() == 0) by {
            reveal(Seq::filter);
        }
    } else if i == 0 {
        lemma_given_in_order(rest, 0);
        assert(outcomes.take(0).filter(some).len() == 0) by {
            reveal(Seq::filter);
        }
    } else {
        lemma_given_in_order(rest, i - 1);
        assert(outcomes.take(i) =~= first + rest.take(i - 1));
        Seq::filter_distributes_over_add(first, rest.take(i - 1), some);
    }
}

/// As many small files are copied at once as the configuration says.
pub proof fn law_swarm_is_as_large_as_configured(
    config: EngineConfig,
    engine: SwarmEngine,
    slots: usize,
)
    requires
        call_ensures(SwarmEngine::new, (config,), engine),
        call_ensures(SwarmEngine::slots, (&engine,), slots),
    ensures
        slots == config.swarm_concurrency,
{
}

/// Where waiting itself breaks down, neither the job nor the task goes on. What else ended
/// the wait is for the task to report, and the job goes on to its next file.
pub proof fn law_broken_wait_ends_the_job(
    engine: SwarmEngine,
    flow: FlowControl,
    next: Result<Dispatch>,
    go: Result<()>,
    waited: Result<()>,
    next_waited: Result<Dispatch>,
    go_waited: Result<()>,
)
    requires
        call_ensures(SwarmEngine::dispatch_after_pause, (&engine, None), next),
        call_ensures(SwarmEngine::task_after_pause, (&engine, None, &flow), go),
        call_ensures(SwarmEngine::dispatch_after_pause, (&engine, Some(waited)), next_waited),
        call_ensures(SwarmEngine::task_after_pause, (&engine, Some(waited), &flow), go_waited),
    ensures
        next is Err && next->Err_0 is PipelineDisconnected,
        go is Err && go->Err_0 is PipelineDisconnected,
        waited is Err && !(waited->Err_0 is PipelineDisconnected) ==> next_waited is Ok
            && next_waited->Ok_0 == Dispatch::Spawn,
        waited is Err ==> go_waited is Err && go_waited->Err_0 == waited->Err_0,
        waited is Ok && flow.cancelled() ==> go_waited->Err_0 is PipelineDisconnected,
{
}

} // verus!
