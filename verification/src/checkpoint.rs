//! Checkpoints: what a copy job has done, so that it can be paused and resumed.
//!
//! A job starts with all of its files pending. Each file that was copied is
//! marked completed, each one that failed is marked failed. When a job is
//! resumed, `validate_completed` holds the completed files against the disk, and
//! returns those that are gone or damaged to the pending ones: a checkpoint is
//! never trusted blindly.

use vstd::prelude::*;
use vstd::string::*;

use crate::error::{CoreError, Result};
use crate::path::{law_canonical_decides, PathStyle};
use crate::path_map::{canonical_keys, PathMap, PathSet};
use crate::seqs::lemma_take_next;
use crate::text::texts;

verus! {

/// How far a checkpoint is trusted when a job is resumed.
#[derive(Debug, Clone, Copy, PartialEq, Eq, Structural)]
pub enum ResumePolicy {
    /// Trust the checkpoint without a look at the disk.
    TrustCheckpoint,
    /// Check that each completed file exists and has its size.
    VerifySize,
    /// Check the contents too, where the checkpoint has a digest.
    VerifyHash,
}

impl Default for ResumePolicy {
    fn default() -> (policy: Self)
        ensures
            policy == ResumePolicy::VerifySize,
    {
        ResumePolicy::VerifySize
    }
}

/// The outcome of holding a completed file against the disk.
#[derive(Debug)]
#[allow(inconsistent_fields)]
pub enum ValidationResult {
    /// The file is fine and can be skipped.
    Valid,
    /// The file is not there.
    Missing,
    /// The file has another size.
    SizeMismatch { expected: u64, found: u64 },
    /// The file has its size but other contents.
    HashMismatch { expected: String, found: String },
    /// The file could not be checked.
    VerifyError(String),
}

/// A `ValidationResult`, with the characters of its texts.
#[allow(inconsistent_fields)]
pub enum Verdict {
    Valid,
    Missing,
    SizeMismatch { expected: u64, found: u64 },
    HashMismatch { expected: Seq<char>, found: Seq<char> },
    VerifyError(Seq<char>),
}

impl View for ValidationResult {
    type V = Verdict;

    open spec fn view(&self) -> Verdict {
        match self {
            ValidationResult::Valid => Verdict::Valid,
            ValidationResult::Missing => Verdict::Missing,
            ValidationResult::SizeMismatch { expected, found } => Verdict::SizeMismatch {
                expected: *expected,
                found: *found,
            },
            ValidationResult::HashMismatch { expected, found } => Verdict::HashMismatch {
                expected: expected@,
                found: found@,
            },
            ValidationResult::VerifyError(message) => Verdict::VerifyError(message@),
        }
    }
}

impl ValidationResult {
    /// Whether the file can be skipped.
    pub fn is_valid(&self) -> (valid: bool)
        ensures
            valid == (self is Valid),
    {
        matches!(self, ValidationResult::Valid)
    }
}

/// How long to wait before a paused job looks again, in milliseconds.
pub const RESUME_POLL_MILLIS: u64 = 50;

/// What the flags of a job say.
pub enum FlowVerdict {
    Run,
    Wait,
    Stop,
}

/// The pause and cancel flags of a job.
#[derive(Debug)]
pub struct FlowControl {
    paused: bool,
    cancelled: bool,
}

impl FlowControl {
    pub closed spec fn paused(self) -> bool {
        self.paused
    }

    pub closed spec fn cancelled(self) -> bool {
        self.cancelled
    }

    /// Cancellation comes first, then a pause.
    pub open spec fn verdict(self) -> FlowVerdict {
        if self.cancelled() {
            FlowVerdict::Stop
        } else if self.paused() {
            FlowVerdict::Wait
        } else {
            FlowVerdict::Run
        }
    }

    /// A job that runs.
    pub fn new() -> (flow: Self)
        ensures
            !flow.paused(),
            !flow.cancelled(),
    {
        FlowControl { paused: false, cancelled: false }
    }

    /// The flags as they were read at one moment.
    pub fn observed(paused: bool, cancelled: bool) -> (flow: Self)
        ensures
            flow.paused() == paused,
            flow.cancelled() == cancelled,
    {
        FlowControl { paused, cancelled }
    }

    pub fn pause(&mut self)
        ensures
            final(self).paused(),
            final(self).cancelled() == old(self).cancelled(),
    {
        self.paused = true;
    }

    pub fn resume(&mut self)
        ensures
            !final(self).paused(),
            final(self).cancelled() == old(self).cancelled(),
    {
        self.paused = false;
    }

    pub fn cancel(&mut self)
        ensures
            final(self).cancelled(),
            final(self).paused() == old(self).paused(),
    {
        self.cancelled = true;
    }

    /// `Ok` while the job may run, else the reason why it may not.
    pub fn check(&self) -> (go: Result<()>)
        ensures
            match self.verdict() {
                FlowVerdict::Stop => go is Err && go->Err_0 is PipelineDisconnected,
                FlowVerdict::Wait => go is Err && go->Err_0 is Paused,
                FlowVerdict::Run => go is Ok,
            },
    {
        if self.cancelled {
            return Err(CoreError::PipelineDisconnected);
        }
        if self.paused {
            return Err(CoreError::Paused);
        }
        Ok(())
    }

    /// One look at the flags by a job that waits for a pause to end: `None`
    /// while it has to look again, `RESUME_POLL_MILLIS` later.
    pub fn wait_for_resume(&self) -> (end: Option<Result<()>>)
        ensures
            match self.verdict() {
                FlowVerdict::Stop => end is Some && end->0 is Err
                    && end->0->Err_0 is PipelineDisconnected,
                FlowVerdict::Wait => end is None,
                FlowVerdict::Run => end is Some && end->0 is Ok,
            },
    {
        if self.cancelled {
            return Some(Err(CoreError::PipelineDisconnected));
        }
        if !self.paused {
            return Some(Ok(()));
        }
        None
    }

    pub fn is_paused(&self) -> (paused: bool)
        ensures
            paused == self.paused(),
    {
        self.paused
    }

    pub fn is_cancelled(&self) -> (cancelled: bool)
        ensures
            cancelled == self.cancelled(),
    {
        self.cancelled
    }
}

impl Default for FlowControl {
    fn default() -> (flow: Self)
        ensures
            !flow.paused(),
            !flow.cancelled(),
    {
        FlowControl::new()
    }
}

/// A cancelled job stops, paused or not.
pub proof fn law_cancel_overrides_pause(flow: FlowControl)
    requires
        flow.cancelled(),
    ensures
        flow.verdict() == FlowVerdict::Stop,
{
}

/// A moment in Coordinated Universal Time.
#[derive(Debug, Clone, Copy, PartialEq, Eq, Structural)]
pub struct Timestamp {
    /// Seconds since the start of 1970.
    pub secs: i64,
    /// Nanoseconds within the second; more than a thousand million of them in a
    /// leap second.
    pub nanos: u32,
}

impl Timestamp {
    /// Whether the clock can give this time: not before 1970, and with its
    /// nanoseconds within one second.
    pub open spec fn is_clock_time(self) -> bool {
        self.secs >= 0 && self.nanos < 1_000_000_000
    }
}

/// `chrono::Utc::now`: the current time. Nothing is claimed of it but its form.
/// It panics where the clock of the machine is set before 1970, which is not for
/// the caller to rule out.
#[verifier::external_body]
fn utc_now() -> (now: Timestamp)
    ensures
        now.is_clock_time(),
{
    let now = chrono::Utc::now();
    Timestamp { secs: now.timestamp(), nanos: now.timestamp_subsec_nanos() }
}

/// What a checkpoint keeps of a completed file: enough to check the copy
/// without the source.
#[derive(Debug)]
pub struct CheckpointEntry {
    /// The digest of the contents, if the copy was made with verification.
    pub hash: Option<String>,
    /// The size when the file was copied; 0 where it is not known.
    pub size_bytes: u64,
    /// When the copy was completed.
    pub completed_at: Timestamp,
}

impl CheckpointEntry {
    /// An entry for a copy that was completed now.
    pub fn new(hash: Option<String>, size_bytes: u64) -> (entry: Self)
        ensures
            entry.hash == hash,
            entry.size_bytes == size_bytes,
            entry.completed_at.is_clock_time(),
    {
        CheckpointEntry { hash, size_bytes, completed_at: utc_now() }
    }
}

/// What was seen on disk at the place of a completed file.
pub struct DiskFile {
    /// The size, or why it could not be had.
    pub len: std::result::Result<u64, String>,
    /// The BLAKE3 digest of the contents, or why there is none. It counts only
    /// where `wants_digest` asks for it.
    pub digest: std::result::Result<String, String>,
}

/// Whether `policy` compares digests for `entry`.
pub open spec fn compares_digest(entry: CheckpointEntry, policy: ResumePolicy) -> bool {
    policy == ResumePolicy::VerifyHash && entry.hash is Some
}

/// What `policy` says of a completed file; `file` is `None` where there is none
/// on disk.
pub open spec fn verdict_on(
    entry: CheckpointEntry,
    policy: ResumePolicy,
    file: Option<DiskFile>,
) -> Verdict {
    match file {
        None => Verdict::Missing,
        Some(found) => match found.len {
            Err(message) => Verdict::VerifyError(message@),
            Ok(len) => if entry.size_bytes > 0 && len != entry.size_bytes {
                Verdict::SizeMismatch { expected: entry.size_bytes, found: len }
            } else if compares_digest(entry, policy) {
                match found.digest {
                    Err(message) => Verdict::VerifyError(message@),
                    Ok(digest) => if digest@ == entry.hash->0@ {
                        Verdict::Valid
                    } else {
                        Verdict::HashMismatch { expected: entry.hash->0@, found: digest@ }
                    },
                }
            } else {
                Verdict::Valid
            },
        },
    }
}

/// Whether the digest of a file of size `len` has to be computed before
/// `validate_file` can judge it.
pub fn wants_digest(entry: &CheckpointEntry, policy: ResumePolicy, len: u64) -> (wanted: bool)
    ensures
        wanted == (compares_digest(*entry, policy) && (entry.size_bytes == 0 || entry.size_bytes
            == len)),
{
    policy == ResumePolicy::VerifyHash && entry.hash.is_some() && (entry.size_bytes == 0
        || entry.size_bytes == len)
}

/// Holds a completed file against what is on disk.
pub fn validate_file(
    file: Option<&DiskFile>,
    entry: &CheckpointEntry,
    policy: ResumePolicy,
) -> (result: ValidationResult)
    ensures
        result@ == verdict_on(
            *entry,
            policy,
            match file {
                Some(found) => Some(*found),
                None => None,
            },
        ),
{
    let found = match file {
        Some(found) => found,
        None => {
            return ValidationResult::Missing;
        },
    };
    let len: u64 = match &found.len {
        Ok(len) => *len,
        Err(message) => {
            return ValidationResult::VerifyError(message.clone());
        },
    };
    if entry.size_bytes > 0 && len != entry.size_bytes {
        return ValidationResult::SizeMismatch { expected: entry.size_bytes, found: len };
    }
    if policy == ResumePolicy::VerifyHash {
        if let Some(expected) = &entry.hash {
            match &found.digest {
                Ok(digest) => {
                    if *digest != *expected {
                        return ValidationResult::HashMismatch {
                            expected: expected.clone(),
                            found: digest.clone(),
                        };
                    }
                },
                Err(message) => {
                    return ValidationResult::VerifyError(message.clone());
                },
            }
        }
    }
    ValidationResult::Valid
}

/// The version that `CheckpointState` is written with.
pub const FORMAT_VERSION: u32 = 2;

/// The state of a copy job.
pub struct CheckpointState {
    pub job_id: String,
    pub created_at: Timestamp,
    pub updated_at: Timestamp,
    pub source_root: String,
    pub dest_root: String,
    /// The completed files, by relative path. Here as below, paths that are the
    /// same count as one, however they are written.
    pub completed: PathMap<CheckpointEntry>,
    /// The failed files, by relative path, with the error.
    pub failed: PathMap<String>,
    /// The relative paths of the files that are still to be copied.
    pub pending: PathSet,
    pub format_version: u32,
}

/// A checkpoint of the first format, which kept only a digest for each
/// completed file.
pub struct CheckpointV1 {
    pub job_id: String,
    pub created_at: Timestamp,
    pub updated_at: Timestamp,
    pub source_root: String,
    pub dest_root: String,
    pub completed: PathMap<Option<String>>,
    pub failed: PathMap<String>,
    pub pending: PathSet,
}

/// What `disk` holds at `path` below `dest_root`.
pub open spec fn on_disk(
    style: PathStyle,
    disk: PathMap<DiskFile>,
    dest_root: Seq<char>,
    path: Seq<char>,
) -> Option<DiskFile> {
    let full = disk.key(style.joined(dest_root, path));
    if disk@.contains_key(full) {
        Some(disk@[full])
    } else {
        None
    }
}

/// Whether a completed entry survives validation.
pub open spec fn survives(
    entry: CheckpointEntry,
    policy: ResumePolicy,
    file: Option<DiskFile>,
) -> bool {
    policy == ResumePolicy::TrustCheckpoint || verdict_on(entry, policy, file) is Valid
}

/// The completed files that validation keeps.
pub open spec fn surviving(
    style: PathStyle,
    completed: Map<Seq<char>, CheckpointEntry>,
    policy: ResumePolicy,
    dest_root: Seq<char>,
    disk: PathMap<DiskFile>,
) -> Map<Seq<char>, CheckpointEntry> {
    Map::new(
        |path: Seq<char>|
            completed.contains_key(path) && survives(
                completed[path],
                policy,
                on_disk(style, disk, dest_root, path),
            ),
        |path: Seq<char>| completed[path],
    )
}

/// The completed files that validation returns to the pending ones.
pub open spec fn rejected(
    style: PathStyle,
    completed: Map<Seq<char>, CheckpointEntry>,
    policy: ResumePolicy,
    dest_root: Seq<char>,
    disk: PathMap<DiskFile>,
) -> Set<Seq<char>> {
    completed.dom().filter(
        |path: Seq<char>| !survives(
            completed[path],
            policy,
            on_disk(style, disk, dest_root, path),
        ),
    )
}

/// An entry of the first format in the current one: its size is not known, and
/// its digest counts only where the file is there.
pub open spec fn migrated_entry(
    hash: Option<String>,
    at: Timestamp,
    present: bool,
) -> CheckpointEntry {
    CheckpointEntry {
        hash: if present {
            hash
        } else {
            None
        },
        size_bytes: 0,
        completed_at: at,
    }
}

/// The completed files of a checkpoint of the first format, in the current one;
/// `present` are the paths that exist on disk.
pub open spec fn migrated_entries(v1: CheckpointV1, present: PathSet) -> Map<
    Seq<char>,
    CheckpointEntry,
> {
    Map::new(
        |path: Seq<char>| v1.completed@.contains_key(path),
        |path: Seq<char>|
            migrated_entry(
                v1.completed@[path],
                v1.updated_at,
                present@.contains(present.key(v1.completed.style().joined(v1.dest_root@, path))),
            ),
    )
}

impl CheckpointState {
    /// Every file that the checkpoint knows.
    pub open spec fn known_files(self) -> Set<Seq<char>> {
        self.completed@.dom().union(self.failed@.dom()).union(self.pending@)
    }

    /// Whether the paths of the checkpoint are all written in one style.
    pub open spec fn has_one_style(self) -> bool {
        self.failed.style() == self.completed.style() && self.pending.style()
            == self.completed.style()
    }

    /// Whether the paths of the checkpoint are all written in `style`.
    pub fn is_in_style(&self, style: PathStyle) -> (in_style: bool)
        ensures
            in_style == (self.has_one_style() && self.completed.style() == style),
    {
        self.completed.path_style() == style && self.failed.path_style() == style
            && self.pending.path_style() == style
    }

    /// Whether two states belong to the same job.
    pub open spec fn same_job(self, other: CheckpointState) -> bool {
        &&& self.completed.style() == other.completed.style()
        &&& self.failed.style() == other.failed.style()
        &&& self.pending.style() == other.pending.style()
        &&& self.job_id == other.job_id
        &&& self.created_at == other.created_at
        &&& self.source_root == other.source_root
        &&& self.dest_root == other.dest_root
        &&& self.format_version == other.format_version
    }

    /// A new job with all of its files pending. `style` is how paths are written.
    pub fn new(
        style: PathStyle,
        job_id: &str,
        source_root: String,
        dest_root: String,
        all_files: Vec<String>,
    ) -> (state: Self)
        ensures
            state.job_id@ == job_id@,
            state.created_at == state.updated_at,
            state.created_at.is_clock_time(),
            state.source_root == source_root,
            state.dest_root == dest_root,
            state.completed@ == Map::<Seq<char>, CheckpointEntry>::empty(),
            state.failed@ == Map::<Seq<char>, String>::empty(),
            state.pending@ == canonical_keys(style, texts(all_files@)).to_set(),
            state.format_version == FORMAT_VERSION,
            state.has_one_style(),
            state.completed.style() == style,
    {
        let now = utc_now();
        CheckpointState {
            job_id: job_id.to_owned(),
            created_at: now,
            updated_at: now,
            source_root,
            dest_root,
            completed: PathMap::new(style),
            failed: PathMap::new(style),
            pending: PathSet::from_list(style, all_files),
            format_version: FORMAT_VERSION,
        }
    }

    /// Marks a file as completed now.
    pub fn mark_completed(&mut self, relative_path: String, hash: Option<String>, size_bytes: u64)
        ensures
            ({
                let key = old(self).completed.key(relative_path@);
                &&& final(self).completed@.contains_key(key)
                &&& final(self).completed@[key].hash == hash
                &&& final(self).completed@[key].size_bytes == size_bytes
                &&& final(self).completed@[key].completed_at.is_clock_time()
                &&& final(self).completed@ == old(self).completed@.insert(
                    key,
                    final(self).completed@[key],
                )
            }),
            final(self).updated_at.is_clock_time(),
            final(self).pending@ == old(self).pending@.remove(
                old(self).pending.key(relative_path@),
            ),
            final(self).failed@ == old(self).failed@,
            final(self).same_job(*old(self)),
            old(self).has_one_style() ==> final(self).known_files() == old(
                self,
            ).known_files().insert(old(self).completed.key(relative_path@)),
    {
        let entry = CheckpointEntry::new(hash, size_bytes);
        self.record_completed(relative_path, entry, utc_now());
    }

    /// Marks a file as completed, with its entry and the time of the change.
    pub fn record_completed(
        &mut self,
        relative_path: String,
        entry: CheckpointEntry,
        now: Timestamp,
    )
        ensures
            final(self).completed@ == old(self).completed@.insert(
                old(self).completed.key(relative_path@),
                entry,
            ),
            final(self).pending@ == old(self).pending@.remove(
                old(self).pending.key(relative_path@),
            ),
            final(self).failed@ == old(self).failed@,
            final(self).updated_at == now,
            final(self).same_job(*old(self)),
            old(self).has_one_style() ==> final(self).known_files() == old(
                self,
            ).known_files().insert(old(self).completed.key(relative_path@)),
    {
        self.pending.remove(relative_path.as_str());
        self.completed.insert(relative_path, entry);
        self.updated_at = now;
        assert(old(self).has_one_style() ==> self.known_files() =~= old(self).known_files().insert(
            old(self).completed.key(relative_path@),
        ));
    }

    /// Marks a file as failed now.
    pub fn mark_failed(&mut self, relative_path: String, error: String)
        ensures
            final(self).failed@ == old(self).failed@.insert(
                old(self).failed.key(relative_path@),
                error,
            ),
            final(self).pending@ == old(self).pending@.remove(
                old(self).pending.key(relative_path@),
            ),
            final(self).completed@ == old(self).completed@,
            final(self).updated_at.is_clock_time(),
            final(self).same_job(*old(self)),
            old(self).has_one_style() ==> final(self).known_files() == old(
                self,
            ).known_files().insert(old(self).completed.key(relative_path@)),
    {
        self.record_failed(relative_path, error, utc_now());
    }

    /// Marks a file as failed, with the time of the change.
    pub fn record_failed(&mut self, relative_path: String, error: String, now: Timestamp)
        ensures
            final(self).failed@ == old(self).failed@.insert(
                old(self).failed.key(relative_path@),
                error,
            ),
            final(self).pending@ == old(self).pending@.remove(
                old(self).pending.key(relative_path@),
            ),
            final(self).completed@ == old(self).completed@,
            final(self).updated_at == now,
            final(self).same_job(*old(self)),
            old(self).has_one_style() ==> final(self).known_files() == old(
                self,
            ).known_files().insert(old(self).completed.key(relative_path@)),
    {
        self.pending.remove(relative_path.as_str());
        self.failed.insert(relative_path, error);
        self.updated_at = now;
        assert(old(self).has_one_style() ==> self.known_files() =~= old(self).known_files().insert(
            old(self).completed.key(relative_path@),
        ));
    }

    /// Whether nothing is left to copy.
    pub fn is_complete(&self) -> (complete: bool)
        ensures
            complete == (self.pending@ == Set::<Seq<char>>::empty()),
    {
        self.pending.is_empty()
    }

    /// Holds every completed file against the disk and returns those that do
    /// not pass to the pending ones. `disk` holds, by the path below
    /// `dest_root`, what is on disk; a path that it does not hold is missing
    /// there. Returns how many files did not pass.
    pub fn validate_completed(
        &mut self,
        dest_root: &str,
        disk: &PathMap<DiskFile>,
        policy: ResumePolicy,
    ) -> (reverted: usize)
        requires
            old(self).has_one_style(),
        ensures
            final(self).completed@ == surviving(
                old(self).completed.style(),
                old(self).completed@,
                policy,
                dest_root@,
                *disk,
            ),
            final(self).pending@ == old(self).pending@.union(
                rejected(
                    old(self).completed.style(),
                    old(self).completed@,
                    policy,
                    dest_root@,
                    *disk,
                ),
            ),
            final(self).failed@ == old(self).failed@,
            reverted == rejected(
                old(self).completed.style(),
                old(self).completed@,
                policy,
                dest_root@,
                *disk,
            ).len(),
            final(self).same_job(*old(self)),
            final(self).known_files() == old(self).known_files(),
            reverted == 0 ==> final(self).updated_at == old(self).updated_at,
            reverted > 0 ==> final(self).updated_at.is_clock_time(),
            reverted == 0 ==> final(self).completed@ == old(self).completed@,
            policy == ResumePolicy::TrustCheckpoint ==> reverted == 0,
    {
        let style = self.completed.path_style();
        let ghost before = self.completed@;
        let ghost bad = rejected(style, before, policy, dest_root@, *disk);
        if policy == ResumePolicy::TrustCheckpoint {
            assert(bad =~= Set::<Seq<char>>::empty());
            assert(surviving(style, before, policy, dest_root@, *disk) =~= before);
            assert(self.pending@.union(bad) =~= self.pending@);
            return 0;
        }
        let paths = self.completed.keys();
        let ghost order = self.completed.key_order();
        let ghost mut gone = Set::<Seq<char>>::empty();
        let mut reverted: usize = 0;
        let mut i: usize = 0;
        assert(self.completed@ =~= before.remove_keys(gone));
        assert(self.pending@ =~= old(self).pending@.union(gone));
        while i < paths.len()
            invariant
                i <= paths@.len(),
                texts(paths@) == order,
                order.no_duplicates(),
                forall|path: Seq<char>| #[trigger]
                    order.contains(path) <==> before.contains_key(path),
                forall|path: Seq<char>| #[trigger]
                    before.contains_key(path) ==> style.canonical(path) == path,
                old(self).has_one_style(),
                old(self).completed.style() == style,
                policy != ResumePolicy::TrustCheckpoint,
                bad == rejected(style, before, policy, dest_root@, *disk),
                gone.finite(),
                gone.len() == reverted,
                reverted <= i,
                forall|path: Seq<char>| #[trigger]
                    gone.contains(path) <==> bad.contains(path) && order.take(i as int).contains(
                        path,
                    ),
                self.completed@ == before.remove_keys(gone),
                self.pending@ == old(self).pending@.union(gone),
                self.failed@ == old(self).failed@,
                self.same_job(*old(self)),
                reverted == 0 ==> self.updated_at == old(self).updated_at,
                reverted > 0 ==> self.updated_at.is_clock_time(),
            decreases paths@.len() - i,
        {
            let relative = &paths[i];
            let ghost path = relative@;
            proof {
                assert(order[i as int] == path);
                assert(order.contains(path));
                lemma_take_next(order, i as int);
            }
            let valid: bool = match self.completed.get(relative.as_str()) {
                Some(entry) => {
                    let dest_path = style.join(dest_root, relative.as_str());
                    let result = validate_file(disk.get(dest_path.as_str()), entry, policy);
                    result.is_valid()
                },
                None => true,
            };
            if !valid {
                self.revert_to_pending(relative.clone());
                reverted = reverted + 1;
                proof {
                    gone = gone.insert(path);
                }
                assert(self.completed@ =~= before.remove_keys(gone));
                assert(self.pending@ =~= old(self).pending@.union(gone));
            }
            i = i + 1;
        }
        proof {
            assert(order.take(i as int) =~= order);
            assert(gone =~= bad);
            assert(before.remove_keys(bad) =~= surviving(style, before, policy, dest_root@, *disk));
            assert(self.known_files() =~= old(self).known_files());
            if reverted == 0 {
                assert(gone =~= Set::<Seq<char>>::empty());
                assert(self.completed@ =~= before);
            }
        }
        reverted
    }

    /// Returns a completed file to the pending ones.
    fn revert_to_pending(&mut self, relative: String)
        ensures
            final(self).completed@ == old(self).completed@.remove(
                old(self).completed.key(relative@),
            ),
            final(self).pending@ == old(self).pending@.insert(old(self).pending.key(relative@)),
            final(self).failed@ == old(self).failed@,
            final(self).updated_at.is_clock_time(),
            final(self).same_job(*old(self)),
    {
        let _entry = self.completed.remove(relative.as_str());
        self.pending.insert(relative);
        self.updated_at = utc_now();
    }

    /// The state that a checkpoint file holds: `current` is its contents read
    /// in the current format, if they fit it; else `legacy` is what reading
    /// them in the first format gave. `present` holds, for a checkpoint of the
    /// first format, the paths of its completed files that exist on disk.
    pub fn load(
        checkpoint_path: String,
        current: Option<CheckpointState>,
        legacy: std::result::Result<CheckpointV1, String>,
        present: &PathSet,
    ) -> (loaded: Result<CheckpointState>)
        ensures
            match (current, legacy) {
                (Some(state), _) => loaded == Ok::<CheckpointState, CoreError>(state),
                (None, Ok(v1)) => loaded is Ok && loaded->Ok_0.migrates(v1, *present),
                (None, Err(message)) => loaded == Err::<CheckpointState, CoreError>(
                    CoreError::CheckpointLoad { path: checkpoint_path, source: message },
                ),
            },
    {
        match current {
            Some(state) => Ok(state),
            None => match legacy {
                Ok(v1) => Ok(CheckpointState::migrate(v1, present)),
                Err(message) => Err(
                    CoreError::CheckpointLoad { path: checkpoint_path, source: message },
                ),
            },
        }
    }

    /// Whether `self` is `v1` in the current format; `present` are the paths that
    /// exist on disk.
    pub open spec fn migrates(self, v1: CheckpointV1, present: PathSet) -> bool {
        &&& self.job_id == v1.job_id
        &&& self.created_at == v1.created_at
        &&& self.updated_at == v1.updated_at
        &&& self.source_root == v1.source_root
        &&& self.dest_root == v1.dest_root
        &&& self.completed@ == migrated_entries(v1, present)
        &&& self.completed.style() == v1.completed.style()
        &&& self.failed == v1.failed
        &&& self.pending == v1.pending
        &&& self.format_version == FORMAT_VERSION
    }

    /// Brings a checkpoint of the first format into the current one. `present`
    /// holds the paths of its completed files that exist on disk.
    pub fn migrate(v1: CheckpointV1, present: &PathSet) -> (state: CheckpointState)
        ensures
            state.migrates(v1, *present),
    {
        let style = v1.completed.path_style();
        let ghost expected = migrated_entries(v1, *present);
        let mut old_entries = v1.completed;
        let ghost before = old_entries@;
        let paths = old_entries.keys();
        let ghost order = old_entries.key_order();
        let mut completed: PathMap<CheckpointEntry> = PathMap::new(style);
        let mut i: usize = 0;
        let ghost mut done = Set::<Seq<char>>::empty();
        assert(completed@ =~= expected.restrict(done));
        assert(old_entries@ =~= before.remove_keys(done));
        while i < paths.len()
            invariant
                i <= paths@.len(),
                texts(paths@) == order,
                order.no_duplicates(),
                forall|path: Seq<char>| #[trigger]
                    order.contains(path) <==> before.contains_key(path),
                forall|path: Seq<char>| #[trigger]
                    expected.contains_key(path) <==> before.contains_key(path),
                forall|path: Seq<char>| #[trigger]
                    expected.contains_key(path) ==> expected[path] == migrated_entry(
                        before[path],
                        v1.updated_at,
                        present@.contains(present.key(style.joined(v1.dest_root@, path))),
                    ),
                forall|path: Seq<char>| #[trigger]
                    before.contains_key(path) ==> style.canonical(path) == path,
                completed.style() == style,
                old_entries.style() == style,
                forall|j: int| 0 <= j < i ==> done.contains(#[trigger] order[j]),
                forall|path: Seq<char>| #[trigger]
                    done.contains(path) ==> order.take(i as int).contains(path),
                completed@ == expected.restrict(done),
                old_entries@ == before.remove_keys(done),
            decreases paths@.len() - i,
        {
            let ghost path = paths@[i as int]@;
            proof {
                assert(order[i as int] == path);
                assert(order.contains(path));
                lemma_take_next(order, i as int);
            }
            if let Some(hash) = old_entries.remove(paths[i].as_str()) {
                let dest_path = style.join(v1.dest_root.as_str(), paths[i].as_str());
                let hash = if present.contains(dest_path.as_str()) {
                    hash
                } else {
                    None
                };
                assert(expected.contains_key(path));
                let entry = CheckpointEntry { hash, size_bytes: 0, completed_at: v1.updated_at };
                completed.insert(paths[i].clone(), entry);
            }
            proof {
                done = done.insert(path);
                assert(completed@ =~= expected.restrict(done));
                assert(old_entries@ =~= before.remove_keys(done));
            }
            i = i + 1;
        }
        proof {
            assert(expected.restrict(done) =~= expected) by {
                assert forall|path: Seq<char>| expected.contains_key(path) implies done.contains(
                    path,
                ) by {
                    assert(order.contains(path));
                }
            }
        }
        CheckpointState {
            job_id: v1.job_id,
            created_at: v1.created_at,
            updated_at: v1.updated_at,
            source_root: v1.source_root,
            dest_root: v1.dest_root,
            completed,
            failed: v1.failed,
            pending: v1.pending,
            format_version: FORMAT_VERSION,
        }
    }

    /// The name of the checkpoint file of a job.
    pub open spec fn file_name_for(job_id: Seq<char>) -> Seq<char> {
        ".filecopier_"@ + job_id + ".checkpoint"@
    }

    /// Where the checkpoint of a job lies.
    pub fn default_path(style: PathStyle, dest_root: &str, job_id: &str) -> (path: String)
        ensures
            path@ == style.joined(dest_root@, CheckpointState::file_name_for(job_id@)),
    {
        let mut name = ".filecopier_".to_owned();
        name.append(job_id);
        name.append(".checkpoint");
        style.join(dest_root, name.as_str())
    }
}

/// A file that was marked, as completed or as failed, is not pending any more,
/// however its path is written.
pub proof fn law_marked_file_is_not_pending(
    before: CheckpointState,
    after: CheckpointState,
    marked: Seq<char>,
    path: Seq<char>,
)
    requires
        after.pending@ == before.pending@.remove(before.pending.key(marked)),
        after.pending.style() == before.pending.style(),
        before.pending.style().parts_of(path) == before.pending.style().parts_of(marked),
    ensures
        !after.pending@.contains(after.pending.key(path)),
{
    law_canonical_decides(before.pending.style(), path, marked);
}

/// A second validation against the same disk finds nothing to return.
pub proof fn law_validation_is_idempotent(
    style: PathStyle,
    completed: Map<Seq<char>, CheckpointEntry>,
    policy: ResumePolicy,
    dest_root: Seq<char>,
    disk: PathMap<DiskFile>,
)
    ensures
        ({
            let kept = surviving(style, completed, policy, dest_root, disk);
            &&& rejected(style, kept, policy, dest_root, disk) == Set::<Seq<char>>::empty()
            &&& surviving(style, kept, policy, dest_root, disk) == kept
        }),
{
    let kept = surviving(style, completed, policy, dest_root, disk);
    assert(rejected(style, kept, policy, dest_root, disk) =~= Set::<Seq<char>>::empty());
    assert(surviving(style, kept, policy, dest_root, disk) =~= kept);
}

/// An entry of unknown size is accepted as long as the file exists.
pub proof fn law_migrated_entry_accepts_any_size(
    hash: Option<String>,
    at: Timestamp,
    present: bool,
    file: DiskFile,
)
    requires
        file.len is Ok,
    ensures
        verdict_on(migrated_entry(hash, at, present), ResumePolicy::VerifySize, Some(file))
            == Verdict::Valid,
{
}

/// A file is taken for done only where the disk bears it out: something is at its
/// place, as long as what was copied where that is known, neither shorter nor
/// longer, and with the digest of what was copied where digests are compared.
/// Where the disk bears it out, it is taken for done.
pub proof fn law_only_what_the_disk_bears_out_is_valid(
    file: Option<&DiskFile>,
    entry: CheckpointEntry,
    policy: ResumePolicy,
    result: ValidationResult,
)
    requires
        call_ensures(validate_file, (file, &entry, policy), result),
    ensures
        result is Missing <==> file is None,
        result is Valid ==> file is Some && file->0.len is Ok,
        result is Valid && entry.size_bytes > 0 ==> file->0.len->Ok_0 == entry.size_bytes,
        result is Valid && policy == ResumePolicy::VerifyHash && entry.hash is Some
            ==> file->0.digest is Ok && file->0.digest->Ok_0@ == entry.hash->0@,
        file is Some && file->0.len is Ok && (file->0.len->Ok_0 == entry.size_bytes
            || entry.size_bytes == 0) && (policy != ResumePolicy::VerifyHash || entry.hash is None
            || (file->0.digest is Ok && file->0.digest->Ok_0@ == entry.hash->0@))
            ==> result is Valid,
{
}

/// A file of another size is told from one that is damaged, and both from one that
/// could not be looked at; the verdict says what was expected and what was found.
pub proof fn law_verdict_says_what_is_wrong(
    file: DiskFile,
    entry: CheckpointEntry,
    policy: ResumePolicy,
    result: ValidationResult,
)
    requires
        call_ensures(validate_file, (Some(&file), &entry, policy), result),
    ensures
        file.len is Err ==> result is VerifyError && result->VerifyError_0@ == file.len->Err_0@,
        file.len is Ok && entry.size_bytes > 0 && file.len->Ok_0 != entry.size_bytes ==> {
            &&& result is SizeMismatch
            &&& result->SizeMismatch_expected == entry.size_bytes
            &&& result->SizeMismatch_found == file.len->Ok_0
        },
        result is SizeMismatch ==> file.len is Ok && entry.size_bytes > 0,
        result is HashMismatch ==> {
            &&& policy == ResumePolicy::VerifyHash
            &&& entry.hash is Some
            &&& file.digest is Ok
            &&& result->HashMismatch_expected@ == entry.hash->0@
            &&& result->HashMismatch_found@ == file.digest->Ok_0@
            &&& entry.hash->0@ != file.digest->Ok_0@
        },
{
}

/// A digest is computed only where it can decide, and always there.
pub proof fn law_digest_is_wanted_where_it_decides(
    entry: CheckpointEntry,
    policy: ResumePolicy,
    len: u64,
    wanted: bool,
)
    requires
        call_ensures(wants_digest, (&entry, policy, len), wanted),
    ensures
        wanted ==> policy == ResumePolicy::VerifyHash && entry.hash is Some,
        wanted && entry.size_bytes > 0 ==> len == entry.size_bytes,
        policy == ResumePolicy::VerifyHash && entry.hash is Some && (entry.size_bytes == 0
            || entry.size_bytes == len) ==> wanted,
{
}

/// A resumed job copies again exactly what is gone or of another size, and what is
/// damaged where digests are compared; nothing else changes. What is trusted
/// blindly stays.
pub proof fn law_resume_copies_again_what_is_gone_or_damaged(
    state: &mut CheckpointState,
    dest_root: &str,
    disk: PathMap<DiskFile>,
    policy: ResumePolicy,
    reverted: usize,
    path: Seq<char>,
)
    requires
        call_ensures(
            CheckpointState::validate_completed,
            (state, dest_root, &disk, policy),
            reverted,
        ),
        old(state).completed@.contains_key(path),
    ensures
        ({
            let entry = old(state).completed@[path];
            let place = disk.key(old(state).completed.style().joined(dest_root@, path));
            let there = disk@.contains_key(place);
            let file = disk@[place];
            let sized = there && file.len is Ok && (entry.size_bytes == 0 || file.len->Ok_0
                == entry.size_bytes);
            let compared = policy == ResumePolicy::VerifyHash && entry.hash is Some;
            let same = file.digest is Ok && file.digest->Ok_0@ == entry.hash->0@;
            let stays = policy == ResumePolicy::TrustCheckpoint || (sized && (compared ==> same));
            &&& stays ==> final(state).completed@.contains_key(path)
            &&& stays ==> final(state).completed@[path] == entry
            &&& !stays ==> !final(state).completed@.contains_key(path)
            &&& !stays ==> final(state).pending@.contains(path)
            &&& !stays ==> reverted > 0
        }),
        final(state).completed@.dom().subset_of(old(state).completed@.dom()),
        old(state).pending@.subset_of(final(state).pending@),
        final(state).failed@ == old(state).failed@,
        policy == ResumePolicy::TrustCheckpoint ==> reverted == 0,
{
    assert(surviving(
        old(state).completed.style(),
        old(state).completed@,
        policy,
        dest_root@,
        disk,
    ).dom().subset_of(old(state).completed@.dom()));
}

/// A pause can be ended, and a cancellation cannot: whatever the flags were, a job
/// that is cancelled does not run again.
pub proof fn law_cancellation_is_final(flow: &mut FlowControl, step: int, go: Result<()>)
    requires
        step == 0 ==> call_ensures(FlowControl::pause, (flow,), ()),
        step == 1 ==> call_ensures(FlowControl::resume, (flow,), ()),
        step == 2 ==> call_ensures(FlowControl::cancel, (flow,), ()),
        0 <= step <= 2,
        call_ensures(FlowControl::check, (final(flow),), go),
    ensures
        old(flow).cancelled() || step == 2 ==> go is Err && go->Err_0 is PipelineDisconnected,
        !old(flow).cancelled() && step == 0 ==> go is Err && go->Err_0 is Paused,
        !old(flow).cancelled() && step == 1 ==> go is Ok,
{
}

/// A job runs from the start, and a job that waits for a pause to end waits as
/// long as the pause lasts, no longer and no shorter.
pub proof fn law_waiting_lasts_as_long_as_the_pause(
    fresh: FlowControl,
    flow: FlowControl,
    end: Option<Result<()>>,
    go: Result<()>,
)
    requires
        call_ensures(FlowControl::new, (), fresh),
        call_ensures(FlowControl::wait_for_resume, (&flow,), end),
        call_ensures(FlowControl::check, (&flow,), go),
    ensures
        !fresh.paused() && !fresh.cancelled(),
        end is None <==> go is Err && go->Err_0 is Paused,
        end is Some && end->0 is Ok <==> go is Ok,
        end is None <==> flow.paused() && !flow.cancelled(),
{
}

/// A new job has all of its files to do and none done, and the checkpoint of a
/// job is complete once nothing is pending.
pub proof fn law_new_job_has_everything_to_do(
    style: PathStyle,
    job_id: &str,
    source_root: String,
    dest_root: String,
    all_files: Vec<String>,
    state: CheckpointState,
    path: Seq<char>,
)
    requires
        call_ensures(
            CheckpointState::new,
            (style, job_id, source_root, dest_root, all_files),
            state,
        ),
    ensures
        state.pending@.contains(path) <==> exists|i: int|
            0 <= i < all_files@.len() && style.canonical(#[trigger] all_files@[i]@) == path,
        !state.completed@.contains_key(path),
        !state.failed@.contains_key(path),
        state.source_root@ == source_root@,
        state.dest_root@ == dest_root@,
        state.job_id@ == job_id@,
{
    let keys = canonical_keys(style, texts(all_files@));
    assert(keys.len() == all_files@.len());
    assert(forall|i: int|
        0 <= i < all_files@.len() ==> keys[i] == style.canonical(#[trigger] all_files@[i]@));
    if keys.contains(path) {
        let i = choose|i: int| 0 <= i < keys.len() && keys[i] == path;
        assert(style.canonical(all_files@[i]@) == path);
    }
}

/// A file that was copied is recorded with the digest and the size that it was
/// copied with, and is no longer to do; the other files are left as they were.
pub proof fn law_completed_file_is_recorded(
    state: &mut CheckpointState,
    path: String,
    hash: Option<String>,
    size: u64,
    other: Seq<char>,
)
    requires
        call_ensures(CheckpointState::mark_completed, (state, path, hash, size), ()),
        old(state).has_one_style(),
        other != old(state).completed.key(path@),
    ensures
        ({
            let key = old(state).completed.key(path@);
            &&& final(state).completed@.contains_key(key)
            &&& final(state).completed@[key].hash == hash
            &&& final(state).completed@[key].size_bytes == size
            &&& !final(state).pending@.contains(key)
        }),
        final(state).completed@.contains_key(other) == old(state).completed@.contains_key(other),
        final(state).pending@.contains(other) == old(state).pending@.contains(other),
        final(state).failed@ == old(state).failed@,
{
}

/// A file that failed is recorded with the reason and is no longer to do; the
/// other files are left as they were.
pub proof fn law_failed_file_is_recorded(
    state: &mut CheckpointState,
    path: String,
    error: String,
    other: Seq<char>,
)
    requires
        call_ensures(CheckpointState::mark_failed, (state, path, error), ()),
        old(state).has_one_style(),
        other != old(state).failed.key(path@),
    ensures
        ({
            let key = old(state).failed.key(path@);
            &&& final(state).failed@.contains_key(key)
            &&& final(state).failed@[key] == error
            &&& !final(state).pending@.contains(key)
        }),
        final(state).failed@.contains_key(other) == old(state).failed@.contains_key(other),
        final(state).pending@.contains(other) == old(state).pending@.contains(other),
        final(state).completed@ == old(state).completed@,
{
}

/// A job is complete if and only if no file of it is pending.
pub proof fn law_complete_means_nothing_pending(
    state: CheckpointState,
    complete: bool,
    path: Seq<char>,
)
    requires
        call_ensures(CheckpointState::is_complete, (&state,), complete),
    ensures
        complete ==> !state.pending@.contains(path),
        (forall|p: Seq<char>| !state.pending@.contains(p)) ==> complete,
{
    if forall|p: Seq<char>| !state.pending@.contains(p) {
        assert(state.pending@ =~= Set::<Seq<char>>::empty());
    }
}

/// A checkpoint of the current format is taken as it is; one of the first keeps
/// its job and every file in its state, with the digests of the files that exist
/// and no sizes; what fits neither format is an error that names the checkpoint.
pub proof fn law_loading_keeps_the_job(
    checkpoint_path: String,
    current: Option<CheckpointState>,
    legacy: std::result::Result<CheckpointV1, String>,
    present: PathSet,
    loaded: Result<CheckpointState>,
    path: Seq<char>,
)
    requires
        call_ensures(
            CheckpointState::load,
            (checkpoint_path, current, legacy, &present),
            loaded,
        ),
    ensures
        loaded is Err <==> current is None && legacy is Err,
        loaded is Err ==> loaded->Err_0 is CheckpointLoad && loaded->Err_0->CheckpointLoad_path
            == checkpoint_path && loaded->Err_0->CheckpointLoad_source == legacy->Err_0,
        current is Some ==> loaded->Ok_0 == current->0,
        current is None && legacy is Ok ==> ({
            let state = loaded->Ok_0;
            let v1 = legacy->Ok_0;
            &&& state.job_id@ == v1.job_id@
            &&& state.source_root@ == v1.source_root@
            &&& state.dest_root@ == v1.dest_root@
            &&& state.failed@ == v1.failed@
            &&& state.pending@ == v1.pending@
            &&& state.completed@.contains_key(path) == v1.completed@.contains_key(path)
            &&& state.completed@.contains_key(path) ==> {
                let entry = state.completed@[path];
                let place = present.key(v1.completed.style().joined(v1.dest_root@, path));
                &&& entry.size_bytes == 0
                &&& present@.contains(place) ==> entry.hash == v1.completed@[path]
                &&& !present@.contains(place) ==> entry.hash is None
            }
        }),
{
}

/// The checkpoint of a job is a hidden file whose name holds the job, so that two
/// jobs never share one.
pub proof fn law_checkpoint_is_named_after_its_job(first: Seq<char>, second: Seq<char>)
    ensures
        CheckpointState::file_name_for(first).len() > 0,
        CheckpointState::file_name_for(first)[0] == '.',
        CheckpointState::file_name_for(first) == CheckpointState::file_name_for(second) ==> first
            == second,
{
    reveal_strlit(".filecopier_");
    reveal_strlit(".checkpoint");
    let a = CheckpointState::file_name_for(first);
    let b = CheckpointState::file_name_for(second);
    let front = ".filecopier_"@.len() as int;
    let back = ".checkpoint"@.len() as int;
    assert(a.subrange(front, a.len() - back) =~= first);
    assert(b.subrange(front, b.len() - back) =~= second);
}

/// A file is recorded with just the entry that it is given, at the time that it is
/// given, and is no longer to do; the other files and the job are left as they were.
pub proof fn law_entry_is_recorded_as_given(
    state: &mut CheckpointState,
    path: String,
    entry: CheckpointEntry,
    now: Timestamp,
    other: Seq<char>,
)
    requires
        call_ensures(CheckpointState::record_completed, (state, path, entry, now), ()),
        old(state).has_one_style(),
        other != old(state).completed.key(path@),
    ensures
        ({
            let key = old(state).completed.key(path@);
            &&& final(state).completed@.contains_key(key)
            &&& final(state).completed@[key] == entry
            &&& !final(state).pending@.contains(key)
        }),
        final(state).completed@.contains_key(other) == old(state).completed@.contains_key(other),
        old(state).completed@.contains_key(other) ==> final(state).completed@[other] == old(
            state,
        ).completed@[other],
        final(state).pending@.contains(other) == old(state).pending@.contains(other),
        final(state).failed@ == old(state).failed@,
        final(state).updated_at == now,
        final(state).created_at == old(state).created_at,
        final(state).job_id@ == old(state).job_id@,
        final(state).source_root@ == old(state).source_root@,
        final(state).dest_root@ == old(state).dest_root@,
{
}

/// A failure is recorded with just the reason that it is given, at the time that it is
/// given, and the file is no longer to do; the other files and the job are left as they
/// were.
pub proof fn law_failure_is_recorded_as_given(
    state: &mut CheckpointState,
    path: String,
    error: String,
    now: Timestamp,
    other: Seq<char>,
)
    requires
        call_ensures(CheckpointState::record_failed, (state, path, error, now), ()),
        old(state).has_one_style(),
        other != old(state).completed.key(path@),
    ensures
        ({
            let key = old(state).completed.key(path@);
            &&& final(state).failed@.contains_key(key)
            &&& final(state).failed@[key]@ == error@
            &&& !final(state).pending@.contains(key)
        }),
        final(state).failed@.contains_key(other) == old(state).failed@.contains_key(other),
        old(state).failed@.contains_key(other) ==> final(state).failed@[other] == old(
            state,
        ).failed@[other],
        final(state).pending@.contains(other) == old(state).pending@.contains(other),
        final(state).completed@ == old(state).completed@,
        final(state).updated_at == now,
        final(state).created_at == old(state).created_at,
        final(state).job_id@ == old(state).job_id@,
{
}

/// A checkpoint of the first format keeps its job, its times and every file in its
/// state; a digest counts only where the file exists, and no size is known.
pub proof fn law_first_format_is_kept(
    v1: CheckpointV1,
    present: PathSet,
    state: CheckpointState,
    path: Seq<char>,
)
    requires
        call_ensures(CheckpointState::migrate, (v1, &present), state),
    ensures
        state.job_id@ == v1.job_id@,
        state.created_at == v1.created_at,
        state.updated_at == v1.updated_at,
        state.source_root@ == v1.source_root@,
        state.dest_root@ == v1.dest_root@,
        state.failed@ == v1.failed@,
        state.pending@ == v1.pending@,
        state.completed@.contains_key(path) <==> v1.completed@.contains_key(path),
        state.completed@.contains_key(path) ==> {
            let entry = state.completed@[path];
            let place = present.key(v1.completed.style().joined(v1.dest_root@, path));
            &&& entry.size_bytes == 0
            &&& entry.completed_at == v1.updated_at
            &&& present@.contains(place) ==> entry.hash == v1.completed@[path]
            &&& !present@.contains(place) ==> entry.hash is None
        },
        state.format_version == FORMAT_VERSION,
{
}

/// The checkpoint of a job lies right below the destination, and each job has its own.
pub proof fn law_checkpoint_lies_in_the_destination(
    style: PathStyle,
    dest_root: &str,
    job_id: &str,
    path: String,
)
    requires
        call_ensures(CheckpointState::default_path, (style, dest_root, job_id), path),
    ensures
        path@ == style.joined(dest_root@, ".filecopier_"@ + job_id@ + ".checkpoint"@),
{
}

/// The flags are what they were set to, each by itself.
pub proof fn law_flags_are_independent(
    paused: bool,
    cancelled: bool,
    flow: FlowControl,
    is_paused: bool,
    is_cancelled: bool,
)
    requires
        call_ensures(FlowControl::observed, (paused, cancelled), flow),
        call_ensures(FlowControl::is_paused, (&flow,), is_paused),
        call_ensures(FlowControl::is_cancelled, (&flow,), is_cancelled),
    ensures
        is_paused == paused,
        is_cancelled == cancelled,
{
}

} // verus!
