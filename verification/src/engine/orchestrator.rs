//! The course of a job: which files are copied how, and the book-keeping of
//! what became of each.
//!
//! The plan sorts the files of a job: those that a checkpoint says are done are
//! left out, large ones go through the block pipeline, small ones through the
//! swarm. While the job runs, every outcome is reported to a `CopyRun`, which
//! answers with what has to be done next for that file. A source is deleted only
//! on its word, and it gives that word only in a move, for a file whose copy was
//! found right at its destination.

use std::collections::hash_map::DefaultHasher;
use std::hash::{Hash, Hasher};

use vstd::prelude::*;
use vstd::std_specs::hash::DefaultHasherAdditionalSpecFns;
use vstd::string::*;

use crate::checkpoint::{
    on_disk, rejected, survives, surviving, CheckpointEntry, CheckpointState, DiskFile, FlowControl,
    ResumePolicy, FORMAT_VERSION,
};
use crate::config::{EngineConfig, OperationMode};
use crate::engine::dry_run::DryRunReport;
use crate::engine::move_op::{
    found_right, is_found_right, not_right, not_right_text, FoundFile, MoveResult, Transfer,
};
use crate::error::{CoreError, Result};
use crate::hash::{digest, Algorithm};
use crate::path::{
    goes_on, has_root, is_entry_name, is_plain_base, law_canonical_decides,
    law_joined_path_lies_below, law_parent_and_name, law_parts_of_child, volume_of, PathStyle,
};
use crate::path_map::{canonical_keys, PathMap, PathSet};
use crate::pipeline::writer::text_of;
use crate::seqs::{lemma_filter_alike, lemma_filter_holds, lemma_filter_next};
use crate::telemetry::{
    bytes_among, completed_among, counts_completed, counts_failed, failed_among,
    lemma_counted_together, Counted, ProgressCounts, TelemetrySink,
};
use crate::text::{format_hex, hex_text, is_lower_hex, texts};

verus! {

/// A file of the job.
#[derive(Debug)]
pub struct FileEntry {
    pub source: String,
    pub dest: String,
    pub size: u64,
    /// The path below the root of the source.
    pub relative: String,
}

/// What a job amounts to.
#[derive(Debug)]
pub struct CopyResult {
    pub completed_files: usize,
    pub failed_files: usize,
    pub total_bytes: u64,
    pub copied_bytes: u64,
    /// Completed files of a checkpoint that had to be copied again.
    pub revalidated_files: usize,
    pub moved_files: usize,
    /// Files that were copied but whose source could not be deleted.
    pub move_delete_failed: usize,
    /// Empty directories that were removed from the source.
    pub dirs_removed: usize,
    pub dry_run_report: Option<DryRunReport>,
}

/// The files of a job, sorted.
pub struct RunPlan {
    /// The size of all files of the job, those that are done included.
    pub total_bytes: u64,
    /// The files for the block pipeline.
    pub large: Vec<FileEntry>,
    /// The files for the swarm.
    pub small: Vec<FileEntry>,
}

/// The sum of the sizes of some files.
pub open spec fn size_sum(files: Seq<FileEntry>) -> nat
    decreases files.len(),
{
    if files.len() == 0 {
        0
    } else {
        size_sum(files.drop_last()) + files.last().size as nat
    }
}

proof fn lemma_size_sum_grows(files: Seq<FileEntry>, i: int)
    requires
        0 <= i <= files.len(),
    ensures
        size_sum(files.take(i)) <= size_sum(files),
    decreases files.len(),
{
    if i < files.len() {
        lemma_size_sum_grows(files.drop_last(), i);
        assert(files.drop_last().take(i) =~= files.take(i));
    } else {
        assert(files.take(i) =~= files);
    }
}

/// Whether a file still has to be copied through the block pipeline.
pub open spec fn goes_large(
    style: PathStyle,
    config: EngineConfig,
    completed: Set<Seq<char>>,
    file: FileEntry,
) -> bool {
    !completed.contains(style.canonical(file.relative@)) && file.size >= config.triage_threshold_bytes
}

/// Whether a file still has to be copied through the swarm.
pub open spec fn goes_small(
    style: PathStyle,
    config: EngineConfig,
    completed: Set<Seq<char>>,
    file: FileEntry,
) -> bool {
    !completed.contains(style.canonical(file.relative@)) && file.size < config.triage_threshold_bytes
}

/// Every file of a job is done, or goes through exactly one of the two engines.
pub proof fn law_triage_is_a_partition(
    style: PathStyle,
    config: EngineConfig,
    completed: Set<Seq<char>>,
    files: Seq<FileEntry>,
)
    ensures
        files.filter(|f: FileEntry| goes_large(style, config, completed, f)).len() + files.filter(
            |f: FileEntry| goes_small(style, config, completed, f),
        ).len() + files.filter(
            |f: FileEntry| completed.contains(style.canonical(f.relative@)),
        ).len() == files.len(),
        forall|f: FileEntry|
            !(#[trigger] goes_large(style, config, completed, f) && goes_small(
                style,
                config,
                completed,
                f,
            )),
    decreases files.len(),
{
    reveal(Seq::filter);
    if files.len() > 0 {
        law_triage_is_a_partition(style, config, completed, files.drop_last());
    }
}

/// A resumed job skips a completed file if and only if its copy passes
/// validation: what is gone or damaged is copied again.
pub proof fn law_resume_skips_only_what_survives(
    style: PathStyle,
    config: EngineConfig,
    completed: Map<Seq<char>, CheckpointEntry>,
    dest_root: Seq<char>,
    disk: PathMap<DiskFile>,
    file: FileEntry,
)
    requires
        completed.contains_key(style.canonical(file.relative@)),
    ensures
        ({
            let path = style.canonical(file.relative@);
            let kept = surviving(
                style,
                completed,
                config.resume_policy,
                dest_root,
                disk,
            ).dom();
            goes_large(style, config, kept, file) || goes_small(style, config, kept, file)
                <==> !survives(
                completed[path],
                config.resume_policy,
                on_disk(style, disk, dest_root, path),
            )
        }),
{
}

/// A second entry for the same file.
pub(crate) fn copy_of(file: &FileEntry) -> (copy: FileEntry)
    ensures
        copy == *file,
{
    FileEntry {
        source: file.source.clone(),
        dest: file.dest.clone(),
        size: file.size,
        relative: file.relative.clone(),
    }
}

/// What the `Hash` of `std::path::Path` feeds to a hasher for a path.
pub uninterp spec fn path_feed(path: Seq<char>) -> Seq<Seq<u8>>;

/// `<std::path::Path as std::hash::Hash>::hash`: feeds a path to a hasher. In one
/// build of the standard library, what is fed is a function of the path alone;
/// which bytes these are is not stated.
#[verifier::external_body]
fn feed_path(path: &str, hasher: &mut DefaultHasher)
    ensures
        final(hasher)@ == old(hasher)@ + path_feed(path@),
{
    std::path::Path::new(path).hash(hasher)
}

/// The identifier of the job that copies `source` to `dest`: what the default
/// hasher makes of the two paths, in 16 hexadecimal digits.
pub open spec fn job_id_of(source: Seq<char>, dest: Seq<char>) -> Seq<char> {
    hex_text(DefaultHasher::spec_finish(path_feed(source) + path_feed(dest)) as nat, 16)
}

/// The identifier of the job that copies `source` to `dest`. It depends on the
/// two paths alone, so that a job finds the checkpoint that it left.
pub fn generate_job_id(source: &str, dest: &str) -> (job_id: String)
    ensures
        job_id@ == job_id_of(source@, dest@),
        job_id@.len() == 16,
        is_lower_hex(job_id@),
{
    let mut hasher = DefaultHasher::new();
    feed_path(source, &mut hasher);
    feed_path(dest, &mut hasher);
    assert(hasher@ =~= path_feed(source@) + path_feed(dest@));
    format_hex(hasher.finish())
}

/// Plans jobs.
pub struct Orchestrator {
    config: EngineConfig,
    style: PathStyle,
}

impl Orchestrator {
    /// The configuration of the job.
    pub closed spec fn config(self) -> EngineConfig {
        self.config
    }

    /// How paths are written.
    pub closed spec fn style(self) -> PathStyle {
        self.style
    }

    pub fn new(config: EngineConfig, style: PathStyle) -> (orchestrator: Self)
        ensures
            orchestrator.config() == config,
            orchestrator.style() == style,
    {
        Orchestrator { config, style }
    }

    /// Whether the job moves its files.
    pub fn is_move(&self) -> (is_move: bool)
        ensures
            is_move == (self.config().operation_mode == OperationMode::Move),
    {
        self.config.operation_mode == OperationMode::Move
    }

    /// The entry for a source that is a single file: it goes into the
    /// destination, under its own name.
    pub fn single_file(&self, source: String, dest_root: &str, size: u64) -> (entry: FileEntry)
        requires
            self.style().file_name_of(source@) is Some,
        ensures
            entry.source == source,
            entry.size == size,
            entry.relative@ == self.style().file_name_of(source@)->0,
            entry.dest@ == self.style().joined(
                dest_root@,
                self.style().file_name_of(source@)->0,
            ),
    {
        let relative = self.style.file_name(source.as_str()).unwrap();
        let dest = self.style.join(dest_root, relative.as_str());
        FileEntry { source, dest, size, relative }
    }

    /// The entry for a file below the root of the source.
    pub fn tree_file(&self, source: String, dest_root: &str, relative: String, size: u64) -> (
        entry: FileEntry)
        ensures
            entry.source == source,
            entry.size == size,
            entry.relative == relative,
            entry.dest@ == self.style().joined(dest_root@, relative@),
    {
        let dest = self.style.join(dest_root, relative.as_str());
        FileEntry { source, dest, size, relative }
    }

    /// Whether the job goes on from an existing checkpoint.
    pub fn resumes(&self, checkpoint_exists: bool) -> (resumes: bool)
        ensures
            resumes == (self.config().resume && checkpoint_exists),
    {
        self.config.resume && checkpoint_exists
    }

    /// The checkpoint of a job that starts afresh.
    pub fn fresh_checkpoint(
        &self,
        job_id: &str,
        source_root: String,
        dest_root: String,
        files: &Vec<FileEntry>,
    ) -> (state: CheckpointState)
        ensures
            state.job_id@ == job_id@,
            state.source_root == source_root,
            state.dest_root == dest_root,
            state.pending@ == canonical_keys(
                self.style(),
                files@.map_values(|f: FileEntry| f.relative@),
            ).to_set(),
            state.has_one_style(),
            state.completed.style() == self.style(),
            state.completed@ == Map::<Seq<char>, CheckpointEntry>::empty(),
            state.failed@ == Map::<Seq<char>, String>::empty(),
            state.format_version == FORMAT_VERSION,
            state.created_at == state.updated_at,
            state.created_at.is_clock_time(),
    {
        let mut paths: Vec<String> = Vec::new();
        let mut i: usize = 0;
        while i < files.len()
            invariant
                i <= files@.len(),
                paths@.len() == i,
                forall|j: int| 0 <= j < i ==> #[trigger] paths@[j]@ == files@[j].relative@,
            decreases files@.len() - i,
        {
            paths.push(files[i].relative.clone());
            i = i + 1;
        }
        assert(texts(paths@) =~= files@.map_values(|f: FileEntry| f.relative@));
        CheckpointState::new(self.style, job_id, source_root, dest_root, paths)
    }

    /// Holds a checkpoint that is resumed against the disk; returns how many
    /// files have to be copied again.
    pub fn revalidate(
        &self,
        checkpoint: &mut CheckpointState,
        dest_root: &str,
        disk: &PathMap<DiskFile>,
    ) -> (revalidated: usize)
        requires
            old(checkpoint).has_one_style(),
        ensures
            !self.config().resume ==> revalidated == 0 && *final(checkpoint) == *old(checkpoint),
            self.config().resume ==> {
                let bad = rejected(
                    old(checkpoint).completed.style(),
                    old(checkpoint).completed@,
                    self.config().resume_policy,
                    dest_root@,
                    *disk,
                );
                &&& revalidated == bad.len()
                &&& final(checkpoint).completed@ == old(checkpoint).completed@.remove_keys(bad)
                &&& final(checkpoint).pending@ == old(checkpoint).pending@.union(bad)
                &&& final(checkpoint).failed@ == old(checkpoint).failed@
                &&& final(checkpoint).same_job(*old(checkpoint))
                &&& revalidated == 0 ==> final(checkpoint).updated_at == old(
                    checkpoint,
                ).updated_at
                &&& revalidated > 0 ==> final(checkpoint).updated_at.is_clock_time()
            },
    {
        if self.config.resume {
            let revalidated: usize = checkpoint.validate_completed(
                dest_root,
                disk,
                self.config.resume_policy,
            );
            assert(checkpoint.completed@ =~= old(checkpoint).completed@.remove_keys(
                rejected(
                    old(checkpoint).completed.style(),
                    old(checkpoint).completed@,
                    self.config().resume_policy,
                    dest_root@,
                    *disk,
                ),
            ));
            revalidated
        } else {
            0
        }
    }

    /// Sorts the files of a job, in their order.
    pub fn plan(&self, files: &Vec<FileEntry>, checkpoint: &CheckpointState) -> (plan: RunPlan)
        requires
            size_sum(files@) <= u64::MAX,
        ensures
            plan.total_bytes == size_sum(files@),
            plan.large@ == files@.filter(
                |f: FileEntry|
                    goes_large(
                        checkpoint.completed.style(),
                        self.config(),
                        checkpoint.completed@.dom(),
                        f,
                    ),
            ),
            plan.small@ == files@.filter(
                |f: FileEntry|
                    goes_small(
                        checkpoint.completed.style(),
                        self.config(),
                        checkpoint.completed@.dom(),
                        f,
                    ),
            ),
    {
        let ghost style = checkpoint.completed.style();
        let ghost done = checkpoint.completed@.dom();
        let ghost to_large = |f: FileEntry| goes_large(style, self.config(), done, f);
        let ghost to_small = |f: FileEntry| goes_small(style, self.config(), done, f);
        let mut total_bytes: u64 = 0;
        let mut large: Vec<FileEntry> = Vec::new();
        let mut small: Vec<FileEntry> = Vec::new();
        proof {
            reveal(Seq::filter);
        }
        let mut i: usize = 0;
        while i < files.len()
            invariant
                i <= files@.len(),
                style == checkpoint.completed.style(),
                done == checkpoint.completed@.dom(),
                to_large == (|f: FileEntry| goes_large(style, self.config(), done, f)),
                to_small == (|f: FileEntry| goes_small(style, self.config(), done, f)),
                size_sum(files@) <= u64::MAX,
                total_bytes == size_sum(files@.take(i as int)),
                large@ == files@.take(i as int).filter(to_large),
                small@ == files@.take(i as int).filter(to_small),
            decreases files@.len() - i,
        {
            let file = &files[i];
            proof {
                lemma_filter_next(files@, i as int, to_large);
                lemma_filter_next(files@, i as int, to_small);
                lemma_size_sum_grows(files@, i + 1);
                assert(files@.take(i + 1).drop_last() =~= files@.take(i as int));
            }
            total_bytes = total_bytes + file.size;
            if !checkpoint.completed.contains_key(file.relative.as_str()) {
                if self.config.is_large_file(file.size) {
                    large.push(copy_of(file));
                } else {
                    small.push(copy_of(file));
                }
            }
            i = i + 1;
        }
        assert(files@.take(i as int) =~= files@);
        RunPlan { total_bytes, large, small }
    }

    /// Parts the small files of a move: those that lie on the file system of
    /// their destination are renamed, the others copied. A copy renames none.
    /// `same_fs[i]` says where file `i` lies.
    pub fn split_renames(&self, small: &Vec<FileEntry>, same_fs: &Vec<bool>) -> (parts: (
        Vec<FileEntry>,
        Vec<FileEntry>,
    ))
        requires
            same_fs@.len() == small@.len(),
        ensures
            parts.0@ == renamed_part(
                self.config().operation_mode == OperationMode::Move,
                small@,
                same_fs@,
            ),
            parts.1@ == copied_part(
                self.config().operation_mode == OperationMode::Move,
                small@,
                same_fs@,
            ),
    {
        let is_move: bool = self.is_move();
        let mut to_rename: Vec<FileEntry> = Vec::new();
        let mut to_copy: Vec<FileEntry> = Vec::new();
        let mut i: usize = 0;
        while i < small.len()
            invariant
                i <= small@.len() == same_fs@.len(),
                to_rename@ == renamed_part(is_move, small@.take(i as int), same_fs@.take(i as int)),
                to_copy@ == copied_part(is_move, small@.take(i as int), same_fs@.take(i as int)),
            decreases small@.len() - i,
        {
            assert(small@.take(i + 1).drop_last() =~= small@.take(i as int));
            assert(same_fs@.take(i + 1).drop_last() =~= same_fs@.take(i as int));
            if is_move && same_fs[i] {
                to_rename.push(copy_of(&small[i]));
            } else {
                to_copy.push(copy_of(&small[i]));
            }
            i = i + 1;
        }
        assert(small@.take(i as int) =~= small@);
        assert(same_fs@.take(i as int) =~= same_fs@);
        (to_rename, to_copy)
    }

    /// The files that a simulated job takes for done: those that are completed
    /// in the checkpoint that it would resume. `loaded` is what loading that
    /// checkpoint gave, `None` where there is none to resume.
    pub fn completed_for_dry_run(&self, loaded: Option<Result<CheckpointState>>) -> (
        completed: PathSet)
        ensures
            match loaded {
                Some(Ok(state)) => {
                    &&& completed@ == state.completed@.dom()
                    &&& completed.style() == state.completed.style()
                },
                _ => {
                    &&& completed@ == Set::<Seq<char>>::empty()
                    &&& completed.style() == self.style()
                },
            },
    {
        match loaded {
            Some(Ok(state)) => {
                let paths = state.completed.keys();
                proof {
                    let order = state.completed.key_order();
                    assert(order.to_set() =~= state.completed@.dom()) by {
                        assert forall|path: Seq<char>| order.to_set().contains(path) == state
                            .completed@.dom().contains(path) by {
                            assert(order.contains(path) <==> state.completed@.contains_key(path));
                        }
                    }
                    assert(canonical_keys(state.completed.style(), order) =~= order) by {
                        assert forall|i: int| 0 <= i < order.len() implies state.completed.key(
                            #[trigger] order[i],
                        ) == order[i] by {
                            assert(order.contains(order[i]));
                        }
                    }
                }
                PathSet::from_list(state.completed.path_style(), paths)
            },
            _ => PathSet::new(self.style),
        }
    }

    /// The result of a job that was only simulated.
    pub fn run_dry(report: DryRunReport) -> (result: CopyResult)
        ensures
            result == (CopyResult {
                completed_files: 0,
                failed_files: report.problem_files,
                total_bytes: report.total_bytes,
                copied_bytes: 0,
                revalidated_files: 0,
                moved_files: 0,
                move_delete_failed: 0,
                dirs_removed: 0,
                dry_run_report: Some(report),
            }),
    {
        CopyResult {
            completed_files: 0,
            failed_files: report.problem_files,
            total_bytes: report.total_bytes,
            copied_bytes: 0,
            revalidated_files: 0,
            moved_files: 0,
            move_delete_failed: 0,
            dirs_removed: 0,
            dry_run_report: Some(report),
        }
    }
}

/// The files that are renamed, in their order.
pub open spec fn renamed_part(
    is_move: bool,
    files: Seq<FileEntry>,
    same_fs: Seq<bool>,
) -> Seq<FileEntry>
    decreases files.len(),
{
    if files.len() == 0 {
        Seq::empty()
    } else {
        let rest = renamed_part(is_move, files.drop_last(), same_fs.drop_last());
        if is_move && same_fs.last() {
            rest.push(files.last())
        } else {
            rest
        }
    }
}

/// The files that are copied, in their order.
pub open spec fn copied_part(
    is_move: bool,
    files: Seq<FileEntry>,
    same_fs: Seq<bool>,
) -> Seq<FileEntry>
    decreases files.len(),
{
    if files.len() == 0 {
        Seq::empty()
    } else {
        let rest = copied_part(is_move, files.drop_last(), same_fs.drop_last());
        if is_move && same_fs.last() {
            rest
        } else {
            rest.push(files.last())
        }
    }
}

/// A copy renames nothing: every small file goes through the swarm.
pub proof fn law_copy_renames_nothing(files: Seq<FileEntry>, same_fs: Seq<bool>)
    requires
        same_fs.len() == files.len(),
    ensures
        renamed_part(false, files, same_fs) == Seq::<FileEntry>::empty(),
        copied_part(false, files, same_fs) == files,
    decreases files.len(),
{
    if files.len() > 0 {
        law_copy_renames_nothing(files.drop_last(), same_fs.drop_last());
        assert(files.drop_last().push(files.last()) =~= files);
    }
}

/// A file that was copied and whose source is to be deleted.
pub struct CopiedFile {
    pub relative: String,
    pub hash: Option<String>,
    pub size: u64,
    /// What was found at its destination.
    pub found: FoundFile,
}

/// What has to be done next for a file.
pub enum NextStep {
    /// Nothing: its outcome is recorded.
    Settled,
    /// Try to rename it.
    TryRename,
    /// Copy it.
    Copy,
    /// Delete its source, then report to `on_source_deleted`.
    DeleteSource(CopiedFile),
}

/// How a large file starts: not at all once the job is cancelled, by a rename in
/// a move within one file system, else by a copy.
pub open spec fn first_step(is_move: bool, cancelled: bool, same_fs: bool) -> NextStep {
    if cancelled {
        NextStep::Settled
    } else if is_move && same_fs {
        NextStep::TryRename
    } else {
        NextStep::Copy
    }
}

/// What follows the attempt to rename a large file.
pub open spec fn step_after_rename(moved: Option<MoveResult>) -> NextStep {
    match moved {
        Some(_) => NextStep::Settled,
        None => NextStep::Copy,
    }
}

/// What was found at the destination of a transfer: a file of size `dest_size`,
/// with the digest that was computed of the copy.
pub open spec fn found_after(transfer: Transfer, dest_size: Option<u64>) -> FoundFile {
    FoundFile { size: dest_size, digest: transfer.dest_hash }
}

/// What follows the copy of a file; `dest_size` is the size of what lies at the
/// destination, `None` where nothing does.
pub open spec fn step_after_copy(
    is_move: bool,
    verify: bool,
    relative: String,
    result: Result<Transfer>,
    dest_size: Option<u64>,
) -> NextStep {
    match result {
        Ok(transfer) => {
            let found = found_after(transfer, dest_size);
            if is_move && found_right(verify, transfer.bytes, transfer.hash, found) {
                NextStep::DeleteSource(
                    CopiedFile { relative, hash: transfer.hash, size: transfer.bytes, found },
                )
            } else {
                NextStep::Settled
            }
        },
        Err(_) => NextStep::Settled,
    }
}

/// A source is deleted only in a move, and only once its copy has succeeded and
/// was found right at its destination.
pub proof fn law_source_is_deleted_only_after_copy(
    is_move: bool,
    verify: bool,
    cancelled: bool,
    same_fs: bool,
    moved: Option<MoveResult>,
    relative: String,
    result: Result<Transfer>,
    dest_size: Option<u64>,
)
    ensures
        !(first_step(is_move, cancelled, same_fs) is DeleteSource),
        !(step_after_rename(moved) is DeleteSource),
        step_after_copy(is_move, verify, relative, result, dest_size) is DeleteSource <==> is_move
            && result is Ok && found_right(
            verify,
            result->Ok_0.bytes,
            result->Ok_0.hash,
            found_after(result->Ok_0, dest_size),
        ),
{
}

/// Whether a transfer says of a source that holds `source` and a destination that
/// holds `dest` what is so: the size and the digest of the one, and the digest of
/// the other.
pub open spec fn is_true_of(
    transfer: Transfer,
    algorithm: Algorithm,
    source: Seq<u8>,
    dest: Option<Seq<u8>>,
) -> bool {
    &&& transfer.bytes == source.len()
    &&& transfer.hash is Some ==> transfer.hash->0@ == digest(algorithm, source)
    &&& transfer.dest_hash is Some ==> dest is Some && transfer.dest_hash->0@ == digest(
        algorithm,
        dest->0,
    )
}

/// No file is lost in a move: the source is deleted only while the destination
/// holds a file of its size and, where copies are verified, of its digest.
pub proof fn law_no_file_is_lost(
    verify: bool,
    algorithm: Algorithm,
    relative: String,
    transfer: Transfer,
    source: Seq<u8>,
    dest: Option<Seq<u8>>,
    dest_size: Option<u64>,
)
    requires
        is_true_of(transfer, algorithm, source, dest),
        match dest {
            Some(data) => dest_size is Some && dest_size->0 == data.len(),
            None => dest_size is None,
        },
        step_after_copy(
            true,
            verify,
            relative,
            Ok::<Transfer, CoreError>(transfer),
            dest_size,
        ) is DeleteSource,
    ensures
        dest is Some,
        dest->0.len() == source.len(),
        verify ==> digest(algorithm, dest->0) == digest(algorithm, source),
{
    assert(verify ==> text_of(transfer.dest_hash) == text_of(transfer.hash));
}

/// A job that copies every file as it should deletes every source in a move: a
/// destination that holds the source is found right.
pub proof fn law_true_copy_is_found_right(
    verify: bool,
    algorithm: Algorithm,
    transfer: Transfer,
    source: Seq<u8>,
    dest_size: Option<u64>,
)
    requires
        is_true_of(transfer, algorithm, source, Some(source)),
        verify ==> transfer.hash is Some && transfer.dest_hash is Some,
        dest_size == Some(transfer.bytes),
    ensures
        found_right(verify, transfer.bytes, transfer.hash, found_after(transfer, dest_size)),
{
}

/// A copy leaves the source alone: it neither renames nor deletes it.
pub proof fn law_copy_keeps_the_source(
    verify: bool,
    cancelled: bool,
    same_fs: bool,
    relative: String,
    result: Result<Transfer>,
    dest_size: Option<u64>,
)
    ensures
        !(first_step(false, cancelled, same_fs) is TryRename),
        step_after_copy(false, verify, relative, result, dest_size) is Settled,
{
}

/// Whether `after` is `before` with the file at `path` completed.
pub open spec fn completes(
    before: CheckpointState,
    after: CheckpointState,
    path: Seq<char>,
    hash: Option<String>,
    size: u64,
) -> bool {
    let key = before.completed.key(path);
    &&& after.completed@.contains_key(key)
    &&& after.completed@[key].hash == hash
    &&& after.completed@[key].size_bytes == size
    &&& after.completed@[key].completed_at.is_clock_time()
    &&& after.updated_at.is_clock_time()
    &&& after.completed@ == before.completed@.insert(key, after.completed@[key])
    &&& after.pending@ == before.pending@.remove(before.pending.key(path))
    &&& after.failed@ == before.failed@
    &&& after.same_job(before)
}

/// Whether `after` is `before` with the file at `path` failed.
pub open spec fn fails(
    before: CheckpointState,
    after: CheckpointState,
    path: Seq<char>,
    message: Seq<char>,
) -> bool {
    let key = before.failed.key(path);
    &&& after.failed@.contains_key(key)
    &&& after.failed@[key]@ == message
    &&& after.updated_at.is_clock_time()
    &&& after.failed@ == before.failed@.insert(key, after.failed@[key])
    &&& after.pending@ == before.pending@.remove(before.pending.key(path))
    &&& after.completed@ == before.completed@
    &&& after.same_job(before)
}

/// Whether every file of a list is completed.
pub open spec fn all_completed(files: Seq<FileEntry>, checkpoint: CheckpointState) -> bool {
    forall|i: int|
        0 <= i < files.len() ==> checkpoint.completed@.contains_key(
            checkpoint.completed.key(#[trigger] files[i].relative@),
        )
}

/// The checkpoint of a job whose files it knows is deleted once nothing in it is
/// pending or failed.
pub proof fn law_finished_checkpoint_is_deleted(
    files: Seq<FileEntry>,
    checkpoint: CheckpointState,
)
    requires
        forall|i: int|
            0 <= i < files.len() ==> checkpoint.known_files().contains(
                checkpoint.completed.key(#[trigger] files[i].relative@),
            ),
        checkpoint.pending@ == Set::<Seq<char>>::empty(),
        checkpoint.failed@ == Map::<Seq<char>, String>::empty(),
    ensures
        all_completed(files, checkpoint),
{
    assert forall|i: int| 0 <= i < files.len() implies checkpoint.completed@.contains_key(
        checkpoint.completed.key(#[trigger] files[i].relative@),
    ) by {
        assert(checkpoint.known_files().contains(checkpoint.completed.key(files[i].relative@)));
    }
}

/// What is counted for some files, one after the other.
pub open spec fn counted_for_all(parts: Seq<Seq<Counted>>) -> Seq<Counted>
    decreases parts.len(),
{
    if parts.len() == 0 {
        Seq::empty()
    } else {
        counted_for_all(parts.drop_last()) + parts.last()
    }
}

/// A job that copies every file counts all of their bytes and every file as
/// completed, once for each file its size and one completion.
pub proof fn law_whole_job_counts_every_byte(files: Seq<FileEntry>, parts: Seq<Seq<Counted>>)
    requires
        parts.len() == files.len(),
        forall|i: int|
            0 <= i < files.len() ==> {
                &&& bytes_among(#[trigger] parts[i]) == files[i].size
                &&& completed_among(parts[i]) == 1
                &&& failed_among(parts[i]) == 0
            },
    ensures
        bytes_among(counted_for_all(parts)) == size_sum(files),
        completed_among(counted_for_all(parts)) == files.len(),
        failed_among(counted_for_all(parts)) == 0,
    decreases files.len(),
{
    if files.len() > 0 {
        let before = parts.drop_last();
        assert forall|i: int| 0 <= i < files.drop_last().len() implies {
            &&& bytes_among(#[trigger] before[i]) == files.drop_last()[i].size
            &&& completed_among(before[i]) == 1
            &&& failed_among(before[i]) == 0
        } by {
            assert(before[i] == parts[i]);
        }
        law_whole_job_counts_every_byte(files.drop_last(), before);
        lemma_counted_together(counted_for_all(before), parts.last());
        assert(parts.last() == parts[files.len() - 1]);
    }
}

/// The book-keeping of a running job.
pub struct CopyRun {
    pub is_move: bool,
    /// Whether copies are verified.
    pub verify: bool,
    pub checkpoint: CheckpointState,
    pub moved_files: usize,
    pub move_delete_failed: usize,
    pub any_cancelled: bool,
}

impl CopyRun {
    /// Whether `self` and `other` have the same counters and flags.
    pub open spec fn same_counts(self, other: CopyRun) -> bool {
        &&& self.is_move == other.is_move
        &&& self.verify == other.verify
        &&& self.moved_files == other.moved_files
        &&& self.move_delete_failed == other.move_delete_failed
        &&& self.any_cancelled == other.any_cancelled
    }

    /// Whether `self` is `other` with one more file moved.
    pub open spec fn one_more_moved(self, other: CopyRun) -> bool {
        &&& self.is_move == other.is_move
        &&& self.verify == other.verify
        &&& self.moved_files == other.moved_files + 1
        &&& self.move_delete_failed == other.move_delete_failed
        &&& self.any_cancelled == other.any_cancelled
    }

    /// Whether `self` is `other` after a copy that gave `result`: a move whose
    /// copy was not found right has kept one source more.
    pub open spec fn counts_copy(
        self,
        other: CopyRun,
        result: Result<Transfer>,
        dest_size: Option<u64>,
    ) -> bool {
        &&& self.is_move == other.is_move
        &&& self.verify == other.verify
        &&& self.moved_files == other.moved_files
        &&& self.move_delete_failed == other.move_delete_failed + (if other.is_move
            && result is Ok && !found_right(
            other.verify,
            result->Ok_0.bytes,
            result->Ok_0.hash,
            found_after(result->Ok_0, dest_size),
        ) {
            1int
        } else {
            0int
        })
        &&& self.any_cancelled == other.any_cancelled
    }

    /// A job that is about to start.
    pub fn new(config: &EngineConfig, checkpoint: CheckpointState) -> (run: Self)
        ensures
            run.is_move == (config.operation_mode == OperationMode::Move),
            run.verify == config.verify,
            run.checkpoint == checkpoint,
            run.moved_files == 0,
            run.move_delete_failed == 0,
            !run.any_cancelled,
    {
        CopyRun {
            is_move: config.operation_mode == OperationMode::Move,
            verify: config.verify,
            checkpoint,
            moved_files: 0,
            move_delete_failed: 0,
            any_cancelled: false,
        }
    }

    /// Takes in the attempt to rename a small file. A file that could not be
    /// renamed has failed.
    pub fn on_small_renamed(
        &mut self,
        telemetry: &mut TelemetrySink,
        relative: String,
        moved: Option<MoveResult>,
    )
        requires
            old(self).moved_files < usize::MAX,
        ensures
            match moved {
                Some(m) => {
                    &&& completes(
                        old(self).checkpoint,
                        final(self).checkpoint,
                        relative@,
                        None,
                        m.bytes_moved,
                    )
                    &&& counts_completed(*old(telemetry), *final(telemetry), m.bytes_moved as nat)
                    &&& final(self).one_more_moved(*old(self))
                },
                None => {
                    &&& fails(
                        old(self).checkpoint,
                        final(self).checkpoint,
                        relative@,
                        "rename atómico falló"@,
                    )
                    &&& counts_failed(*old(telemetry), *final(telemetry))
                    &&& final(self).same_counts(*old(self))
                },
            },
    {
        match moved {
            Some(m) => {
                telemetry.add_bytes(m.bytes_moved);
                telemetry.complete_file();
                self.moved_files = self.moved_files + 1;
                self.checkpoint.mark_completed(relative, None, m.bytes_moved);
            },
            None => {
                telemetry.fail_file();
                self.checkpoint.mark_failed(relative, "rename atómico falló".to_owned());
            },
        }
    }

    /// Takes in what the swarm gave for a file, and the size of what lies at its
    /// destination. The swarm has counted a file that it copied; one that failed
    /// is only recorded.
    pub fn on_swarm_result(
        &mut self,
        relative: String,
        result: Result<Transfer>,
        dest_size: Option<u64>,
    ) -> (next: NextStep)
        requires
            old(self).move_delete_failed < usize::MAX,
        ensures
            next == step_after_copy(
                old(self).is_move,
                old(self).verify,
                relative,
                result,
                dest_size,
            ),
            final(self).counts_copy(*old(self), result, dest_size),
            match result {
                Ok(transfer) => if next is DeleteSource {
                    final(self).checkpoint == old(self).checkpoint
                } else if old(self).is_move {
                    fails(
                        old(self).checkpoint,
                        final(self).checkpoint,
                        relative@,
                        not_right_text(),
                    )
                } else {
                    completes(
                        old(self).checkpoint,
                        final(self).checkpoint,
                        relative@,
                        transfer.hash,
                        match dest_size {
                            Some(size) => size,
                            None => 0u64,
                        },
                    )
                },
                Err(error) => fails(
                    old(self).checkpoint,
                    final(self).checkpoint,
                    relative@,
                    error.text(),
                ),
            },
    {
        match result {
            Ok(transfer) => {
                if !self.is_move {
                    let size: u64 = match dest_size {
                        Some(size) => size,
                        None => 0,
                    };
                    self.checkpoint.mark_completed(relative, transfer.hash, size);
                    return NextStep::Settled;
                }
                self.next_in_move(relative, transfer, dest_size)
            },
            Err(error) => {
                self.on_failure(relative, error);
                NextStep::Settled
            },
        }
    }

    /// What follows a copy in a move.
    fn next_in_move(&mut self, relative: String, transfer: Transfer, dest_size: Option<u64>) -> (
        next: NextStep)
        requires
            old(self).is_move,
            old(self).move_delete_failed < usize::MAX,
        ensures
            next == step_after_copy(
                true,
                old(self).verify,
                relative,
                Ok::<Transfer, CoreError>(transfer),
                dest_size,
            ),
            final(self).counts_copy(
                *old(self),
                Ok::<Transfer, CoreError>(transfer),
                dest_size,
            ),
            if next is DeleteSource {
                final(self).checkpoint == old(self).checkpoint
            } else {
                fails(old(self).checkpoint, final(self).checkpoint, relative@, not_right_text())
            },
    {
        let found = FoundFile { size: dest_size, digest: transfer.dest_hash };
        if is_found_right(self.verify, transfer.bytes, &transfer.hash, &found) {
            NextStep::DeleteSource(
                CopiedFile { relative, hash: transfer.hash, size: transfer.bytes, found },
            )
        } else {
            self.move_delete_failed = self.move_delete_failed + 1;
            self.checkpoint.mark_failed(relative, not_right());
            NextStep::Settled
        }
    }

    /// Records that the copy of a file failed.
    fn on_failure(&mut self, relative: String, error: CoreError)
        ensures
            final(self).same_counts(*old(self)),
            fails(old(self).checkpoint, final(self).checkpoint, relative@, error.text()),
    {
        self.checkpoint.mark_failed(relative, error.to_string());
    }

    /// Takes in the deletion of the source of a copied file. The file is
    /// completed even where its source could not be deleted.
    pub fn on_source_deleted(&mut self, copied: CopiedFile, delete_failed: bool)
        requires
            old(self).moved_files < usize::MAX,
            old(self).move_delete_failed < usize::MAX,
        ensures
            completes(
                old(self).checkpoint,
                final(self).checkpoint,
                copied.relative@,
                copied.hash,
                copied.size,
            ),
            final(self).is_move == old(self).is_move,
            final(self).verify == old(self).verify,
            final(self).any_cancelled == old(self).any_cancelled,
            final(self).moved_files == old(self).moved_files + if delete_failed {
                0int
            } else {
                1int
            },
            final(self).move_delete_failed == old(self).move_delete_failed + if delete_failed {
                1int
            } else {
                0int
            },
    {
        if delete_failed {
            self.move_delete_failed = self.move_delete_failed + 1;
        } else {
            self.moved_files = self.moved_files + 1;
        }
        self.checkpoint.mark_completed(copied.relative, copied.hash, copied.size);
    }

    /// Decides how a large file starts: not at all once the job is cancelled;
    /// by an attempt to rename in a move within one file system; else by a copy.
    pub fn begin_large(
        &mut self,
        telemetry: &mut TelemetrySink,
        relative: &String,
        cancelled: bool,
        same_fs: bool,
    ) -> (next: NextStep)
        ensures
            next == first_step(old(self).is_move, cancelled, same_fs),
            cancelled ==> {
                &&& fails(
                    old(self).checkpoint,
                    final(self).checkpoint,
                    relative@,
                    "Cancelado"@,
                )
                &&& counts_failed(*old(telemetry), *final(telemetry))
                &&& final(self).any_cancelled
                &&& final(self).is_move == old(self).is_move
                &&& final(self).verify == old(self).verify
                &&& final(self).moved_files == old(self).moved_files
                &&& final(self).move_delete_failed == old(self).move_delete_failed
            },
            !cancelled ==> {
                &&& *final(self) == *old(self)
                &&& *final(telemetry) == *old(telemetry)
            },
    {
        if cancelled {
            self.any_cancelled = true;
            telemetry.fail_file();
            self.checkpoint.mark_failed(relative.clone(), "Cancelado".to_owned());
            return NextStep::Settled;
        }
        if self.is_move && same_fs {
            NextStep::TryRename
        } else {
            NextStep::Copy
        }
    }

    /// Takes in the attempt to rename a large file. A file that could not be
    /// renamed is copied.
    pub fn on_large_renamed(
        &mut self,
        telemetry: &mut TelemetrySink,
        relative: &String,
        moved: Option<MoveResult>,
    ) -> (next: NextStep)
        requires
            old(self).moved_files < usize::MAX,
        ensures
            next == step_after_rename(moved),
            match moved {
                Some(m) => {
                    &&& completes(
                        old(self).checkpoint,
                        final(self).checkpoint,
                        relative@,
                        None,
                        m.bytes_moved,
                    )
                    &&& counts_completed(*old(telemetry), *final(telemetry), m.bytes_moved as nat)
                    &&& final(self).one_more_moved(*old(self))
                },
                None => {
                    &&& *final(self) == *old(self)
                    &&& *final(telemetry) == *old(telemetry)
                },
            },
    {
        match moved {
            Some(m) => {
                telemetry.add_bytes(m.bytes_moved);
                telemetry.complete_file();
                self.moved_files = self.moved_files + 1;
                self.checkpoint.mark_completed(relative.clone(), None, m.bytes_moved);
                NextStep::Settled
            },
            None => NextStep::Copy,
        }
    }

    /// Takes in the copy of a large file, and the size of what lies at its
    /// destination. The bytes were counted while they passed.
    pub fn on_large_copied(
        &mut self,
        telemetry: &mut TelemetrySink,
        relative: String,
        source_size: u64,
        result: Result<Transfer>,
        dest_size: Option<u64>,
    ) -> (next: NextStep)
        requires
            old(self).move_delete_failed < usize::MAX,
        ensures
            next == step_after_copy(
                old(self).is_move,
                old(self).verify,
                relative,
                result,
                dest_size,
            ),
            final(self).counts_copy(*old(self), result, dest_size),
            match result {
                Ok(transfer) => if next is DeleteSource {
                    &&& counts_completed(*old(telemetry), *final(telemetry), 0)
                    &&& final(self).checkpoint == old(self).checkpoint
                } else if old(self).is_move {
                    &&& counts_completed(*old(telemetry), *final(telemetry), 0)
                    &&& fails(
                        old(self).checkpoint,
                        final(self).checkpoint,
                        relative@,
                        not_right_text(),
                    )
                } else {
                    &&& counts_completed(*old(telemetry), *final(telemetry), 0)
                    &&& completes(
                        old(self).checkpoint,
                        final(self).checkpoint,
                        relative@,
                        transfer.hash,
                        match dest_size {
                            Some(size) => size,
                            None => source_size,
                        },
                    )
                },
                Err(error) => {
                    &&& counts_failed(*old(telemetry), *final(telemetry))
                    &&& fails(
                        old(self).checkpoint,
                        final(self).checkpoint,
                        relative@,
                        error.text(),
                    )
                },
            },
    {
        match result {
            Ok(transfer) => {
                telemetry.complete_file();
                if !self.is_move {
                    let size: u64 = match dest_size {
                        Some(size) => size,
                        None => source_size,
                    };
                    self.checkpoint.mark_completed(relative, transfer.hash, size);
                    return NextStep::Settled;
                }
                self.next_in_move(relative, transfer, dest_size)
            },
            Err(error) => {
                telemetry.fail_file();
                self.on_failure(relative, error);
                NextStep::Settled
            },
        }
    }

    /// Whether the directories that the job left empty are to be removed: in a
    /// move that was not cancelled.
    pub fn wants_cleanup(&self, flow: &FlowControl) -> (wanted: bool)
        ensures
            wanted == (self.is_move && !self.any_cancelled && !flow.cancelled()),
    {
        self.is_move && !self.any_cancelled && !flow.is_cancelled()
    }

    /// Whether the checkpoint has served its purpose and is to be deleted: every
    /// file of the job is completed.
    pub fn wants_checkpoint_deleted(&self, files: &Vec<FileEntry>) -> (wanted: bool)
        ensures
            wanted == all_completed(files@, self.checkpoint),
    {
        let mut i: usize = 0;
        while i < files.len()
            invariant
                i <= files@.len(),
                forall|j: int|
                    0 <= j < i ==> self.checkpoint.completed@.contains_key(
                        self.checkpoint.completed.key(#[trigger] files@[j].relative@),
                    ),
            decreases files@.len() - i,
        {
            if !self.checkpoint.completed.contains_key(files[i].relative.as_str()) {
                assert(!self.checkpoint.completed@.contains_key(
                    self.checkpoint.completed.key(files@[i as int].relative@),
                ));
                return false;
            }
            i = i + 1;
        }
        true
    }

    /// The result of the job.
    pub fn finish(self, counts: ProgressCounts, revalidated_files: usize, dirs_removed: usize) -> (
        result: CopyResult)
        ensures
            result == (CopyResult {
                completed_files: counts.completed_files,
                failed_files: counts.failed_files,
                total_bytes: counts.total_bytes,
                copied_bytes: counts.copied_bytes,
                revalidated_files,
                moved_files: self.moved_files,
                move_delete_failed: self.move_delete_failed,
                dirs_removed,
                dry_run_report: None,
            }),
    {
        CopyResult {
            completed_files: counts.completed_files,
            failed_files: counts.failed_files,
            total_bytes: counts.total_bytes,
            copied_bytes: counts.copied_bytes,
            revalidated_files,
            moved_files: self.moved_files,
            move_delete_failed: self.move_delete_failed,
            dirs_removed,
            dry_run_report: None,
        }
    }
}

/// In a move, a small file is renamed if and only if it lies on the file system of
/// its destination, and copied if and only if it does not, whatever else holds of
/// it. Both parts keep the order of the files, and neither holds anything more.
pub proof fn law_move_renames_within_one_file_system(
    orchestrator: Orchestrator,
    small: Vec<FileEntry>,
    same_fs: Vec<bool>,
    parts: (Vec<FileEntry>, Vec<FileEntry>),
    i: int,
)
    requires
        call_ensures(Orchestrator::split_renames, (&orchestrator, &small, &same_fs), parts),
        orchestrator.config().operation_mode == OperationMode::Move,
        same_fs@.len() == small@.len(),
        0 <= i < small@.len(),
    ensures
        parts.0@.len() == same_fs@.filter(|same: bool| same).len(),
        parts.1@.len() == same_fs@.filter(|same: bool| !same).len(),
        same_fs@[i] ==> ({
            let place = same_fs@.take(i).filter(|same: bool| same).len();
            place < parts.0@.len() && parts.0@[place as int] == small@[i]
        }),
        !same_fs@[i] ==> ({
            let place = same_fs@.take(i).filter(|same: bool| !same).len();
            place < parts.1@.len() && parts.1@[place as int] == small@[i]
        }),
{
    lemma_parts_in_order(small@, same_fs@, i);
}

proof fn lemma_parts_in_order(files: Seq<FileEntry>, same_fs: Seq<bool>, i: int)
    requires
        same_fs.len() == files.len(),
        0 <= i < files.len(),
    ensures
        renamed_part(true, files, same_fs).len() == same_fs.filter(|same: bool| same).len(),
        copied_part(true, files, same_fs).len() == same_fs.filter(|same: bool| !same).len(),
        same_fs[i] ==> ({
            let place = same_fs.take(i).filter(|same: bool| same).len();
            place < renamed_part(true, files, same_fs).len() && renamed_part(
                true,
                files,
                same_fs,
            )[place as int] == files[i]
        }),
        !same_fs[i] ==> ({
            let place = same_fs.take(i).filter(|same: bool| !same).len();
            place < copied_part(true, files, same_fs).len() && copied_part(
                true,
                files,
                same_fs,
            )[place as int] == files[i]
        }),
    decreases files.len(),
{
    let shorter = files.drop_last();
    let flags = same_fs.drop_last();
    let last = files.len() - 1;
    let yes = |same: bool| same;
    let no = |same: bool| !same;
    lemma_filter_next(same_fs, last, yes);
    lemma_filter_next(same_fs, last, no);
    assert(same_fs.take(last) =~= flags);
    assert(same_fs.take(last + 1) =~= same_fs);
    if shorter.len() == 0 {
        assert(renamed_part(true, shorter, flags).len() == 0);
        assert(copied_part(true, shorter, flags).len() == 0);
        assert(flags.filter(yes).len() == 0 && flags.filter(no).len() == 0) by {
            reveal(Seq::filter);
        }
        assert(same_fs.take(i) =~= flags);
    } else if i < shorter.len() {
        lemma_parts_in_order(shorter, flags, i);
        assert(same_fs.take(i) =~= flags.take(i));
    } else {
        lemma_parts_in_order(shorter, flags, 0);
        assert(same_fs.take(i) =~= flags);
    }
}

/// A copy renames nothing, wherever the files lie.
pub proof fn law_copy_copies_every_file(
    orchestrator: Orchestrator,
    small: Vec<FileEntry>,
    same_fs: Vec<bool>,
    parts: (Vec<FileEntry>, Vec<FileEntry>),
)
    requires
        call_ensures(Orchestrator::split_renames, (&orchestrator, &small, &same_fs), parts),
        orchestrator.config().operation_mode == OperationMode::Copy,
        same_fs@.len() == small@.len(),
    ensures
        parts.0@.len() == 0,
        parts.1@ == small@,
{
    law_copy_renames_nothing(small@, same_fs@);
}

/// Each file of a job that is not done goes through the pipeline if it reaches the
/// threshold and through the swarm if it does not; a file that is done goes through
/// neither, and nothing but the files of the job goes through either. The bytes of
/// all files count, those that are done included.
pub proof fn law_each_file_goes_its_way(
    orchestrator: Orchestrator,
    files: Vec<FileEntry>,
    checkpoint: CheckpointState,
    plan: RunPlan,
    file: FileEntry,
)
    requires
        call_ensures(Orchestrator::plan, (&orchestrator, &files, &checkpoint), plan),
    ensures
        ({
            let done = checkpoint.completed@.contains_key(
                checkpoint.completed.key(file.relative@),
            );
            let reaches = file.size >= orchestrator.config().triage_threshold_bytes;
            &&& plan.large@.contains(file) <==> files@.contains(file) && !done && reaches
            &&& plan.small@.contains(file) <==> files@.contains(file) && !done && !reaches
        }),
        plan.total_bytes == size_sum(files@),
        plan.large@.len() + plan.small@.len() <= files@.len(),
        checkpoint.completed@.dom() =~= Set::<Seq<char>>::empty() ==> plan.large@.len()
            + plan.small@.len() == files@.len(),
{
    let style = checkpoint.completed.style();
    let done = checkpoint.completed@.dom();
    let to_large = |f: FileEntry| goes_large(style, orchestrator.config(), done, f);
    let to_small = |f: FileEntry| goes_small(style, orchestrator.config(), done, f);
    let is_done = |f: FileEntry| done.contains(style.canonical(f.relative@));
    lemma_filter_holds(files@, to_large, file);
    lemma_filter_holds(files@, to_small, file);
    law_triage_is_a_partition(style, orchestrator.config(), done, files@);
    if done =~= Set::<Seq<char>>::empty() {
        assert(files@.filter(is_done).len() == 0) by {
            if files@.filter(is_done).len() > 0 {
                let first = files@.filter(is_done)[0];
                lemma_filter_holds(files@, is_done, first);
                assert(files@.filter(is_done).contains(first));
            }
        }
    }
}

/// The sizes of some files add up: those of two lists together are the sum of
/// both, and one file is as long as it is.
pub proof fn law_sizes_add_up(first: Seq<FileEntry>, second: Seq<FileEntry>, file: FileEntry)
    ensures
        size_sum(first + second) == size_sum(first) + size_sum(second),
        size_sum(first.push(file)) == size_sum(first) + file.size,
        size_sum(Seq::<FileEntry>::empty()) == 0,
    decreases second.len(),
{
    assert(first.push(file).drop_last() =~= first);
    if second.len() == 0 {
        assert(first + second =~= first);
    } else {
        law_sizes_add_up(first, second.drop_last(), file);
        assert((first + second).drop_last() =~= first + second.drop_last());
    }
}

/// A file of a tree lands in the destination where it lay in the source: behind the
/// steps of the destination come the steps of its place below the source.
pub proof fn law_tree_keeps_its_shape(
    orchestrator: Orchestrator,
    source: String,
    dest_root: &str,
    relative: String,
    size: u64,
    entry: FileEntry,
)
    requires
        call_ensures(
            Orchestrator::tree_file,
            (&orchestrator, source, dest_root, relative, size),
            entry,
        ),
        is_plain_base(orchestrator.style(), dest_root@),
        goes_on(orchestrator.style(), relative@),
    ensures
        ({
            let style = orchestrator.style();
            &&& style.steps(entry.dest@) == style.steps(dest_root@) + style.steps(relative@)
            &&& volume_of(style, entry.dest@) == volume_of(style, dest_root@)
            &&& has_root(style, entry.dest@) == has_root(style, dest_root@)
        }),
        entry.source@ == source@,
        entry.relative@ == relative@,
        entry.size == size,
{
    law_joined_path_lies_below(orchestrator.style(), dest_root@, relative@);
}

/// A source that is a single file goes into the destination under its own name, and
/// is never written over the destination itself.
pub proof fn law_single_file_goes_into_the_destination(
    orchestrator: Orchestrator,
    source: String,
    dest_root: &str,
    size: u64,
    entry: FileEntry,
)
    requires
        call_ensures(Orchestrator::single_file, (&orchestrator, source, dest_root, size), entry),
        orchestrator.style().file_name_of(source@) is Some,
        is_plain_base(orchestrator.style(), dest_root@),
        is_entry_name(orchestrator.style(), orchestrator.style().file_name_of(source@)->0),
    ensures
        ({
            let style = orchestrator.style();
            let name = style.file_name_of(source@)->0;
            &&& style.steps(entry.dest@) == style.steps(dest_root@).push(name)
            &&& style.steps(source@).last() == name
            &&& entry.relative@ == name
            &&& style.canonical(entry.dest@) != style.canonical(dest_root@)
        }),
        entry.source@ == source@,
        entry.size == size,
{
    let style = orchestrator.style();
    let name = style.file_name_of(source@)->0;
    law_parts_of_child(style, dest_root@, name);
    law_parent_and_name(style, source@);
    law_canonical_decides(style, entry.dest@, dest_root@);
    assert(style.parts_of(entry.dest@).steps == style.steps(entry.dest@));
}

/// A job goes on from a checkpoint if and only if that is asked for and there is
/// one.
pub proof fn law_resume_needs_a_checkpoint(
    orchestrator: Orchestrator,
    exists_now: bool,
    resumes: bool,
    is_move: bool,
)
    requires
        call_ensures(Orchestrator::resumes, (&orchestrator, exists_now), resumes),
        call_ensures(Orchestrator::is_move, (&orchestrator,), is_move),
    ensures
        resumes ==> exists_now && orchestrator.config().resume,
        exists_now && orchestrator.config().resume ==> resumes,
        is_move <==> orchestrator.config().operation_mode == OperationMode::Move,
{
}

/// A job that starts afresh has every file to do and none done.
pub proof fn law_fresh_job_has_everything_to_do(
    orchestrator: Orchestrator,
    job_id: &str,
    source_root: String,
    dest_root: String,
    files: Vec<FileEntry>,
    state: CheckpointState,
    path: Seq<char>,
)
    requires
        call_ensures(
            Orchestrator::fresh_checkpoint,
            (&orchestrator, job_id, source_root, dest_root, &files),
            state,
        ),
    ensures
        state.pending@.contains(path) <==> exists|i: int|
            0 <= i < files@.len() && orchestrator.style().canonical(
                #[trigger] files@[i].relative@,
            ) == path,
        !state.completed@.contains_key(path),
        !state.failed@.contains_key(path),
        state.source_root@ == source_root@,
        state.dest_root@ == dest_root@,
{
    let style = orchestrator.style();
    let keys = canonical_keys(style, files@.map_values(|f: FileEntry| f.relative@));
    assert(keys.len() == files@.len());
    assert(forall|i: int|
        0 <= i < files@.len() ==> keys[i] == style.canonical(#[trigger] files@[i].relative@));
    if keys.contains(path) {
        let i = choose|i: int| 0 <= i < keys.len() && keys[i] == path;
        assert(style.canonical(files@[i].relative@) == path);
    }
}

/// A job that is not resumed leaves the checkpoint alone; a resumed one keeps of
/// the completed files those that the disk bears out and gives the others back to
/// do.
pub proof fn law_revalidation_holds_the_disk_to_the_checkpoint(
    orchestrator: Orchestrator,
    checkpoint: &mut CheckpointState,
    dest_root: &str,
    disk: PathMap<DiskFile>,
    revalidated: usize,
    path: Seq<char>,
)
    requires
        call_ensures(
            Orchestrator::revalidate,
            (&orchestrator, checkpoint, dest_root, &disk),
            revalidated,
        ),
        old(checkpoint).completed@.contains_key(path),
    ensures
        !orchestrator.config().resume ==> revalidated == 0 && final(checkpoint).completed@
            == old(checkpoint).completed@ && final(checkpoint).pending@
            == old(checkpoint).pending@,
        orchestrator.config().resume ==> ({
            let entry = old(checkpoint).completed@[path];
            let policy = orchestrator.config().resume_policy;
            let place = disk.key(old(checkpoint).completed.style().joined(dest_root@, path));
            let file = disk@[place];
            let sized = disk@.contains_key(place) && file.len is Ok && (entry.size_bytes == 0
                || file.len->Ok_0 == entry.size_bytes);
            let compared = policy == ResumePolicy::VerifyHash && entry.hash is Some;
            let same = file.digest is Ok && file.digest->Ok_0@ == entry.hash->0@;
            let stays = policy == ResumePolicy::TrustCheckpoint || (sized && (compared ==> same));
            &&& final(checkpoint).completed@.contains_key(path) == stays
            &&& !stays ==> final(checkpoint).pending@.contains(path)
        }),
        final(checkpoint).failed@ == old(checkpoint).failed@,
{
}

/// A source is deleted in a move only, and there if and only if a file of just the
/// bytes that were transferred is at the destination and, where copies are
/// verified, source and copy have the same digest; what is reported for it is what
/// was transferred. Nothing else is left to do after a copy.
pub proof fn law_source_goes_only_when_the_copy_is_right(
    run: &mut CopyRun,
    relative: String,
    result: Result<Transfer>,
    dest_size: Option<u64>,
    next: NextStep,
)
    requires
        call_ensures(CopyRun::on_swarm_result, (run, relative, result, dest_size), next),
    ensures
        next is DeleteSource || next is Settled,
        next is DeleteSource <==> {
            &&& old(run).is_move
            &&& result is Ok
            &&& dest_size == Some(result->Ok_0.bytes)
            &&& old(run).verify ==> result->Ok_0.hash is Some && result->Ok_0.dest_hash is Some
                && result->Ok_0.hash->0@ == result->Ok_0.dest_hash->0@
        },
        next is DeleteSource ==> {
            &&& next->DeleteSource_0.relative == relative
            &&& next->DeleteSource_0.size == result->Ok_0.bytes
            &&& next->DeleteSource_0.hash == result->Ok_0.hash
        },
        final(run).move_delete_failed == old(run).move_delete_failed + if old(run).is_move
            && result is Ok && !(next is DeleteSource) {
            1int
        } else {
            0int
        },
        final(run).moved_files == old(run).moved_files,
        final(run).any_cancelled == old(run).any_cancelled,
        final(run).is_move == old(run).is_move && final(run).verify == old(run).verify,
{
}

/// The same holds of a large file.
pub proof fn law_large_source_goes_only_when_the_copy_is_right(
    run: &mut CopyRun,
    telemetry: &mut TelemetrySink,
    relative: String,
    source_size: u64,
    result: Result<Transfer>,
    dest_size: Option<u64>,
    next: NextStep,
)
    requires
        call_ensures(
            CopyRun::on_large_copied,
            (run, telemetry, relative, source_size, result, dest_size),
            next,
        ),
    ensures
        next is DeleteSource || next is Settled,
        next is DeleteSource <==> {
            &&& old(run).is_move
            &&& result is Ok
            &&& dest_size == Some(result->Ok_0.bytes)
            &&& old(run).verify ==> result->Ok_0.hash is Some && result->Ok_0.dest_hash is Some
                && result->Ok_0.hash->0@ == result->Ok_0.dest_hash->0@
        },
        next is DeleteSource ==> {
            &&& next->DeleteSource_0.relative == relative
            &&& next->DeleteSource_0.size == result->Ok_0.bytes
            &&& next->DeleteSource_0.hash == result->Ok_0.hash
        },
        final(run).move_delete_failed == old(run).move_delete_failed + if old(run).is_move
            && result is Ok && !(next is DeleteSource) {
            1int
        } else {
            0int
        },
        final(run).moved_files == old(run).moved_files,
        final(run).any_cancelled == old(run).any_cancelled,
        final(run).is_move == old(run).is_move && final(run).verify == old(run).verify,
{
}

/// What became of a small file is recorded: a copied one as completed with its
/// digest and the size at the destination, a failed one as failed with the reason,
/// and one whose copy was not found right as failed. A file whose source is to go
/// is recorded once that is done.
pub proof fn law_outcome_of_a_small_file_is_recorded(
    run: &mut CopyRun,
    relative: String,
    result: Result<Transfer>,
    dest_size: Option<u64>,
    next: NextStep,
)
    requires
        call_ensures(CopyRun::on_swarm_result, (run, relative, result, dest_size), next),
    ensures
        ({
            let before = old(run).checkpoint;
            let after = final(run).checkpoint;
            let done = before.completed.key(relative@);
            let key = before.failed.key(relative@);
            &&& result is Ok && !old(run).is_move ==> {
                &&& after.completed@.contains_key(done)
                &&& after.completed@[done].hash == result->Ok_0.hash
                &&& after.completed@[done].size_bytes == if dest_size is Some {
                    dest_size->0
                } else {
                    0
                }
                &&& after.failed@ == before.failed@
            }
            &&& result is Err || (old(run).is_move && !(next is DeleteSource)) ==> {
                &&& after.failed@.contains_key(key)
                &&& after.completed@ == before.completed@
            }
            &&& result is Err ==> after.failed@[key]@ == result->Err_0.text()
            &&& !(next is DeleteSource) ==> !after.pending@.contains(
                before.pending.key(relative@),
            )
            &&& next is DeleteSource ==> after == before
        }),
{
}

/// What became of a large file is recorded likewise, and counted: as completed
/// where the copy succeeded, as failed where it did not.
pub proof fn law_outcome_of_a_large_file_is_recorded(
    run: &mut CopyRun,
    telemetry: &mut TelemetrySink,
    relative: String,
    source_size: u64,
    result: Result<Transfer>,
    dest_size: Option<u64>,
    next: NextStep,
)
    requires
        call_ensures(
            CopyRun::on_large_copied,
            (run, telemetry, relative, source_size, result, dest_size),
            next,
        ),
        old(telemetry).completed_files() < usize::MAX,
        old(telemetry).failed_files() < usize::MAX,
    ensures
        ({
            let before = old(run).checkpoint;
            let after = final(run).checkpoint;
            let done = before.completed.key(relative@);
            let key = before.failed.key(relative@);
            &&& result is Ok && !old(run).is_move ==> {
                &&& after.completed@.contains_key(done)
                &&& after.completed@[done].hash == result->Ok_0.hash
                &&& after.completed@[done].size_bytes == if dest_size is Some {
                    dest_size->0
                } else {
                    source_size
                }
                &&& after.failed@ == before.failed@
            }
            &&& result is Err || (old(run).is_move && !(next is DeleteSource)) ==> {
                &&& after.failed@.contains_key(key)
                &&& after.completed@ == before.completed@
            }
            &&& result is Err ==> after.failed@[key]@ == result->Err_0.text()
            &&& !(next is DeleteSource) ==> !after.pending@.contains(
                before.pending.key(relative@),
            )
            &&& next is DeleteSource ==> after == before
        }),
        result is Ok ==> final(telemetry).completed_files() == old(telemetry).completed_files() + 1
            && final(telemetry).failed_files() == old(telemetry).failed_files(),
        result is Err ==> final(telemetry).failed_files() == old(telemetry).failed_files() + 1
            && final(telemetry).completed_files() == old(telemetry).completed_files(),
        final(telemetry).copied_bytes() == old(telemetry).copied_bytes(),
{
}

/// A file that was copied and whose source was deleted counts as moved; where the
/// source could not be deleted, it counts as kept. Either way it is done.
pub proof fn law_moved_file_is_done(run: &mut CopyRun, copied: CopiedFile, delete_failed: bool)
    requires
        call_ensures(CopyRun::on_source_deleted, (run, copied, delete_failed), ()),
    ensures
        ({
            let before = old(run).checkpoint;
            let after = final(run).checkpoint;
            let done = before.completed.key(copied.relative@);
            &&& after.completed@.contains_key(done)
            &&& after.completed@[done].hash == copied.hash
            &&& after.completed@[done].size_bytes == copied.size
            &&& !after.pending@.contains(before.pending.key(copied.relative@))
            &&& after.failed@ == before.failed@
        }),
        !delete_failed ==> final(run).moved_files == old(run).moved_files + 1
            && final(run).move_delete_failed == old(run).move_delete_failed,
        delete_failed ==> final(run).move_delete_failed == old(run).move_delete_failed + 1
            && final(run).moved_files == old(run).moved_files,
        final(run).is_move == old(run).is_move && final(run).verify == old(run).verify,
{
}

/// A small file that was renamed is done, moved and counted with its bytes; one that
/// could not be renamed has failed and is counted as that.
pub proof fn law_renamed_file_is_moved(
    run: &mut CopyRun,
    telemetry: &mut TelemetrySink,
    relative: String,
    moved: Option<MoveResult>,
)
    requires
        call_ensures(CopyRun::on_small_renamed, (run, telemetry, relative, moved), ()),
        old(telemetry).completed_files() < usize::MAX,
        old(telemetry).failed_files() < usize::MAX,
        moved is Some ==> old(telemetry).copied_bytes() + moved->0.bytes_moved <= u64::MAX,
    ensures
        ({
            let before = old(run).checkpoint;
            let after = final(run).checkpoint;
            let done = before.completed.key(relative@);
            let key = before.failed.key(relative@);
            &&& moved is Some ==> {
                &&& after.completed@.contains_key(done)
                &&& after.completed@[done].size_bytes == moved->0.bytes_moved
                &&& after.failed@ == before.failed@
                &&& final(run).moved_files == old(run).moved_files + 1
                &&& final(telemetry).completed_files() == old(telemetry).completed_files() + 1
                &&& final(telemetry).copied_bytes() == old(telemetry).copied_bytes()
                    + moved->0.bytes_moved
            }
            &&& moved is None ==> {
                &&& after.failed@.contains_key(key)
                &&& after.failed@[key]@ == "rename atómico falló"@
                &&& after.completed@ == before.completed@
                &&& final(run).moved_files == old(run).moved_files
                &&& final(telemetry).failed_files() == old(telemetry).failed_files() + 1
                &&& final(telemetry).copied_bytes() == old(telemetry).copied_bytes()
            }
            &&& !after.pending@.contains(before.pending.key(relative@))
        }),
        final(run).move_delete_failed == old(run).move_delete_failed,
        final(run).is_move == old(run).is_move && final(run).verify == old(run).verify,
{
}

/// A large file starts by a rename in a move within one file system and by a copy
/// else; once the job is cancelled it does not start, and has failed. A rename that
/// does not succeed is followed by a copy, and nothing is recorded of it.
pub proof fn law_large_file_starts(
    run: &mut CopyRun,
    telemetry: &mut TelemetrySink,
    relative: String,
    cancelled: bool,
    same_fs: bool,
    next: NextStep,
)
    requires
        call_ensures(CopyRun::begin_large, (run, telemetry, &relative, cancelled, same_fs), next),
        old(telemetry).failed_files() < usize::MAX,
    ensures
        next is TryRename <==> !cancelled && old(run).is_move && same_fs,
        next is Copy <==> !cancelled && !(old(run).is_move && same_fs),
        next is Settled <==> cancelled,
        !cancelled ==> final(run).checkpoint == old(run).checkpoint && final(run).any_cancelled
            == old(run).any_cancelled,
        cancelled ==> {
            &&& final(run).any_cancelled
            &&& final(run).checkpoint.failed@.contains_key(
                old(run).checkpoint.failed.key(relative@),
            )
            &&& final(run).checkpoint.failed@[old(run).checkpoint.failed.key(relative@)]@
                == "Cancelado"@
            &&& final(run).checkpoint.completed@ == old(run).checkpoint.completed@
            &&& final(telemetry).failed_files() == old(telemetry).failed_files() + 1
        },
        final(run).moved_files == old(run).moved_files && final(run).move_delete_failed == old(
            run,
        ).move_delete_failed,
        final(run).is_move == old(run).is_move && final(run).verify == old(run).verify,
{
}

/// A large file that was renamed is done, moved and counted with its bytes; one that
/// could not be renamed is copied, and nothing is recorded of the attempt.
pub proof fn law_large_rename_is_done_or_copied(
    run: &mut CopyRun,
    telemetry: &mut TelemetrySink,
    relative: String,
    moved: Option<MoveResult>,
    next: NextStep,
)
    requires
        call_ensures(CopyRun::on_large_renamed, (run, telemetry, &relative, moved), next),
        old(telemetry).completed_files() < usize::MAX,
        moved is Some ==> old(telemetry).copied_bytes() + moved->0.bytes_moved <= u64::MAX,
    ensures
        moved is None ==> next is Copy && *final(run) == *old(run) && final(
            telemetry).completed_files() == old(telemetry).completed_files(),
        moved is Some ==> {
            let done = old(run).checkpoint.completed.key(relative@);
            &&& next is Settled
            &&& final(run).checkpoint.completed@.contains_key(done)
            &&& final(run).checkpoint.completed@[done].size_bytes == moved->0.bytes_moved
            &&& final(run).moved_files == old(run).moved_files + 1
            &&& final(telemetry).completed_files() == old(telemetry).completed_files() + 1
            &&& final(telemetry).copied_bytes() == old(telemetry).copied_bytes()
                + moved->0.bytes_moved
        },
{
}

/// Directories are cleaned up after a move that was not cancelled, and after
/// nothing else.
pub proof fn law_cleanup_follows_a_move(run: CopyRun, flow: FlowControl, wanted: bool)
    requires
        call_ensures(CopyRun::wants_cleanup, (&run, &flow), wanted),
    ensures
        wanted ==> run.is_move,
        wanted ==> !flow.cancelled() && !run.any_cancelled,
        run.is_move && !flow.cancelled() && !run.any_cancelled ==> wanted,
{
}

/// A checkpoint is given up once every file of the job is completed, and kept as
/// long as one is not.
pub proof fn law_checkpoint_is_kept_while_needed(
    run: CopyRun,
    files: Vec<FileEntry>,
    wanted: bool,
    i: int,
)
    requires
        call_ensures(CopyRun::wants_checkpoint_deleted, (&run, &files), wanted),
        0 <= i < files@.len(),
    ensures
        wanted ==> run.checkpoint.completed@.contains_key(
            run.checkpoint.completed.key(files@[i].relative@),
        ),
        (forall|j: int|
            0 <= j < files@.len() ==> run.checkpoint.completed@.contains_key(
                run.checkpoint.completed.key(#[trigger] files@[j].relative@),
            )) ==> wanted,
{
}

/// The result of a job says what was counted, and that of a simulation that nothing
/// was done.
pub proof fn law_result_says_what_was_counted(
    run: CopyRun,
    counts: ProgressCounts,
    revalidated: usize,
    dirs_removed: usize,
    result: CopyResult,
    report: DryRunReport,
    simulated: CopyResult,
)
    requires
        call_ensures(CopyRun::finish, (run, counts, revalidated, dirs_removed), result),
        call_ensures(Orchestrator::run_dry, (report,), simulated),
    ensures
        result.completed_files == counts.completed_files,
        result.failed_files == counts.failed_files,
        result.total_bytes == counts.total_bytes,
        result.copied_bytes == counts.copied_bytes,
        result.revalidated_files == revalidated,
        result.moved_files == run.moved_files,
        result.move_delete_failed == run.move_delete_failed,
        result.dirs_removed == dirs_removed,
        result.dry_run_report is None,
        simulated.completed_files == 0 && simulated.copied_bytes == 0 && simulated.moved_files == 0,
        simulated.dirs_removed == 0 && simulated.revalidated_files == 0,
        simulated.failed_files == report.problem_files,
        simulated.total_bytes == report.total_bytes,
        simulated.dry_run_report == Some(report),
{
}

/// A job starts with what the configuration asks for and nothing counted.
pub proof fn law_run_starts_from_nothing(
    config: EngineConfig,
    checkpoint: CheckpointState,
    run: CopyRun,
)
    requires
        call_ensures(CopyRun::new, (&config, checkpoint), run),
    ensures
        run.is_move <==> config.operation_mode == OperationMode::Move,
        run.verify <==> config.verify,
        run.moved_files == 0 && run.move_delete_failed == 0 && !run.any_cancelled,
        run.checkpoint == checkpoint,
{
}

/// A simulation takes for done what the checkpoint says is completed, and nothing
/// where there is no checkpoint to resume.
pub proof fn law_simulation_believes_the_checkpoint(
    orchestrator: Orchestrator,
    loaded: Option<Result<CheckpointState>>,
    completed: PathSet,
    path: Seq<char>,
)
    requires
        call_ensures(Orchestrator::completed_for_dry_run, (&orchestrator, loaded), completed),
    ensures
        loaded is None || loaded->0 is Err ==> !completed@.contains(path),
        loaded is Some && loaded->0 is Ok ==> (completed@.contains(path)
            <==> loaded->0->Ok_0.completed@.contains_key(path)),
{
}

/// The identifier of a job depends on both of its paths, on their order and on
/// nothing else, and fits a file name: sixteen small hexadecimal digits.
pub proof fn law_job_is_found_again(
    source: &str,
    dest: &str,
    first: String,
    second: String,
)
    requires
        call_ensures(generate_job_id, (source, dest), first),
        call_ensures(generate_job_id, (source, dest), second),
    ensures
        first@ == second@,
        first@ == hex_text(
            DefaultHasher::spec_finish(path_feed(source@) + path_feed(dest@)) as nat,
            16,
        ),
        first@.len() == 16,
        forall|i: int|
            0 <= i < 16 ==> ('0' <= #[trigger] first@[i] <= '9' || 'a' <= first@[i] <= 'f'),
{
}

/// The files keep their order on either way, and each is there as often as in the job.
pub proof fn law_sorted_files_keep_their_order(
    orchestrator: Orchestrator,
    files: Vec<FileEntry>,
    checkpoint: CheckpointState,
    plan: RunPlan,
)
    requires
        call_ensures(Orchestrator::plan, (&orchestrator, &files, &checkpoint), plan),
    ensures
        plan.large@ == files@.filter(
            |f: FileEntry|
                f.size >= orchestrator.config().triage_threshold_bytes
                    && !checkpoint.completed@.contains_key(checkpoint.completed.key(f.relative@)),
        ),
        plan.small@ == files@.filter(
            |f: FileEntry|
                f.size < orchestrator.config().triage_threshold_bytes
                    && !checkpoint.completed@.contains_key(checkpoint.completed.key(f.relative@)),
        ),
{
    let style = checkpoint.completed.style();
    let config = orchestrator.config();
    let done = checkpoint.completed@.dom();
    lemma_filter_alike(
        files@,
        |f: FileEntry| goes_large(style, config, done, f),
        |f: FileEntry|
            f.size >= config.triage_threshold_bytes && !checkpoint.completed@.contains_key(
                checkpoint.completed.key(f.relative@),
            ),
    );
    lemma_filter_alike(
        files@,
        |f: FileEntry| goes_small(style, config, done, f),
        |f: FileEntry|
            f.size < config.triage_threshold_bytes && !checkpoint.completed@.contains_key(
                checkpoint.completed.key(f.relative@),
            ),
    );
}

/// As many files are revalidated as leave the completed ones.
pub proof fn law_revalidated_files_are_counted(
    orchestrator: Orchestrator,
    checkpoint: &mut CheckpointState,
    dest_root: &str,
    disk: PathMap<DiskFile>,
    revalidated: usize,
)
    requires
        call_ensures(
            Orchestrator::revalidate,
            (&orchestrator, checkpoint, dest_root, &disk),
            revalidated,
        ),
        old(checkpoint).completed@.dom().finite(),
    ensures
        final(checkpoint).completed@.dom().len() + revalidated == old(
            checkpoint,
        ).completed@.dom().len(),
{
    let before = old(checkpoint).completed@.dom();
    let after = final(checkpoint).completed@.dom();
    if orchestrator.config().resume {
        let bad = rejected(
            old(checkpoint).completed.style(),
            old(checkpoint).completed@,
            orchestrator.config().resume_policy,
            dest_root@,
            disk,
        );
        assert(after =~= before.difference(bad));
        assert(bad.subset_of(before));
        vstd::set_lib::lemma_len_subset(bad, before);
        lemma_taken_out(before, bad);
    }
}

proof fn lemma_taken_out(all: Set<Seq<char>>, out: Set<Seq<char>>)
    requires
        all.finite(),
        out.finite(),
        out.subset_of(all),
    ensures
        all.difference(out).len() + out.len() == all.len(),
    decreases out.len(),
{
    if out.len() == 0 {
        assert(all.difference(out) =~= all);
    } else {
        let one = out.choose();
        let fewer = out.remove(one);
        lemma_taken_out(all, fewer);
        assert(all.difference(out) =~= all.difference(fewer).remove(one));
    }
}

} // verus!
