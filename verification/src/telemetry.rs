//! Counters of a running job.
//!
//! The counters are plain numbers; rates and percentages are for the display to
//! compute from them and from its clock.

use vstd::prelude::*;

verus! {

/// The file that is being copied, and how much of it is done.
pub struct CurrentFile {
    pub path: String,
    pub done_bytes: u64,
    pub total_bytes: u64,
}

/// The counters of a job.
pub struct TelemetrySink {
    total_bytes: u64,
    copied_bytes: u64,
    total_files: usize,
    completed_files: usize,
    failed_files: usize,
    last_snapshot_bytes: u64,
    current_file: Option<CurrentFile>,
}

/// The counters at one moment.
#[derive(Debug, Clone, Copy, PartialEq, Eq, Structural)]
pub struct ProgressCounts {
    pub total_bytes: u64,
    pub copied_bytes: u64,
    pub total_files: usize,
    pub completed_files: usize,
    pub failed_files: usize,
    /// The bytes copied since the previous snapshot.
    pub delta_bytes: u64,
    /// The bytes still to be copied; `None` once all of them are.
    pub remaining_bytes: Option<u64>,
}

/// One more than `n`; after the largest number comes 0.
pub open spec fn counted(n: usize) -> usize {
    if n == usize::MAX {
        0
    } else {
        (n + 1) as usize
    }
}

/// Something that is counted.
pub enum Counted {
    /// So many copied bytes.
    Bytes(u64),
    /// A completed file.
    Completed,
    /// A failed file.
    Failed,
}

/// Whether `after` is `before` with one thing more counted.
pub open spec fn counts(before: TelemetrySink, after: TelemetrySink, what: Counted) -> bool {
    &&& after.copied_bytes() == (match what {
        Counted::Bytes(bytes) => ((before.copied_bytes() + bytes) % 0x1_0000_0000_0000_0000) as u64,
        _ => before.copied_bytes(),
    })
    &&& after.completed_files() == (if what is Completed {
        counted(before.completed_files())
    } else {
        before.completed_files()
    })
    &&& after.failed_files() == (if what is Failed {
        counted(before.failed_files())
    } else {
        before.failed_files()
    })
    &&& after.same_job(before)
}

/// The bytes among the things counted.
pub open spec fn bytes_among(all: Seq<Counted>) -> nat
    decreases all.len(),
{
    if all.len() == 0 {
        0
    } else {
        bytes_among(all.drop_last()) + match all.last() {
            Counted::Bytes(bytes) => bytes as nat,
            _ => 0nat,
        }
    }
}

/// How many of the things counted are completed files.
pub open spec fn completed_among(all: Seq<Counted>) -> nat
    decreases all.len(),
{
    if all.len() == 0 {
        0
    } else {
        completed_among(all.drop_last()) + if all.last() is Completed {
            1nat
        } else {
            0nat
        }
    }
}

/// How many of the things counted are failed files.
pub open spec fn failed_among(all: Seq<Counted>) -> nat
    decreases all.len(),
{
    if all.len() == 0 {
        0
    } else {
        failed_among(all.drop_last()) + if all.last() is Failed {
            1nat
        } else {
            0nat
        }
    }
}

/// What two runs of things counted amount to together.
pub proof fn lemma_counted_together(first: Seq<Counted>, second: Seq<Counted>)
    ensures
        bytes_among(first + second) == bytes_among(first) + bytes_among(second),
        completed_among(first + second) == completed_among(first) + completed_among(second),
        failed_among(first + second) == failed_among(first) + failed_among(second),
    decreases second.len(),
{
    if second.len() == 0 {
        assert(first + second =~= first);
    } else {
        lemma_counted_together(first, second.drop_last());
        assert((first + second).drop_last() =~= first + second.drop_last());
    }
}

/// Whether `sinks` is a sink before the first of some things was counted, and
/// after each of them.
pub open spec fn is_count(sinks: Seq<TelemetrySink>, all: Seq<Counted>) -> bool {
    &&& sinks.len() == all.len() + 1
    &&& forall|i: int|
        #![trigger all[i]]
        0 <= i < all.len() ==> counts(sinks[i], sinks[i + 1], all[i])
}

/// However many things are counted and in whatever order, a fresh sink ends with
/// the sum of the bytes and the numbers of completed and failed files, as long as
/// these fit its counters.
pub proof fn law_counters_are_sums(sinks: Seq<TelemetrySink>, all: Seq<Counted>)
    requires
        is_count(sinks, all),
        sinks[0].copied_bytes() == 0,
        sinks[0].completed_files() == 0,
        sinks[0].failed_files() == 0,
        bytes_among(all) <= u64::MAX,
        all.len() <= usize::MAX,
    ensures
        sinks.last().copied_bytes() == bytes_among(all),
        sinks.last().completed_files() == completed_among(all),
        sinks.last().failed_files() == failed_among(all),
        sinks.last().total_bytes() == sinks[0].total_bytes(),
        sinks.last().total_files() == sinks[0].total_files(),
        completed_among(all) + failed_among(all) <= all.len(),
    decreases all.len(),
{
    if all.len() > 0 {
        let n = all.len() - 1;
        let before = sinks.drop_last();
        assert forall|i: int|
            #![trigger all.drop_last()[i]]
            0 <= i < all.drop_last().len() implies counts(
            before[i],
            before[i + 1],
            all.drop_last()[i],
        ) by {
            assert(all.drop_last()[i] == all[i]);
        }
        law_counters_are_sums(before, all.drop_last());
        assert(counts(sinks[n], sinks[n + 1], all[n]));
        assert(before.last() == sinks[n]);
    }
}

/// Whether `after` counts one more completed file than `before`, and `bytes`
/// more bytes.
pub open spec fn counts_completed(
    before: TelemetrySink,
    after: TelemetrySink,
    bytes: nat,
) -> bool {
    &&& after.completed_files() == counted(before.completed_files())
    &&& after.copied_bytes() == (before.copied_bytes() + bytes) % 0x1_0000_0000_0000_0000
    &&& after.failed_files() == before.failed_files()
    &&& after.same_job(before)
}

/// A completed file is counted as its bytes and then as a file.
pub proof fn law_completed_file_is_counted_with_its_bytes(
    before: TelemetrySink,
    after: TelemetrySink,
    bytes: u64,
)
    requires
        counts_completed(before, after, bytes as nat),
    ensures
        exists|between: TelemetrySink| #[trigger]
            counts(before, between, Counted::Bytes(bytes)) && counts(
                between,
                after,
                Counted::Completed,
            ),
{
    let between = TelemetrySink { copied_bytes: after.copied_bytes, ..before };
    assert(counts(before, between, Counted::Bytes(bytes)));
    assert(counts(between, after, Counted::Completed));
}

/// Whether `after` counts one more failed file than `before`.
pub open spec fn counts_failed(before: TelemetrySink, after: TelemetrySink) -> bool {
    &&& after.failed_files() == counted(before.failed_files())
    &&& after.completed_files() == before.completed_files()
    &&& after.copied_bytes() == before.copied_bytes()
    &&& after.same_job(before)
}

impl TelemetrySink {
    pub closed spec fn total_bytes(self) -> u64 {
        self.total_bytes
    }

    pub closed spec fn copied_bytes(self) -> u64 {
        self.copied_bytes
    }

    pub closed spec fn total_files(self) -> usize {
        self.total_files
    }

    pub closed spec fn completed_files(self) -> usize {
        self.completed_files
    }

    pub closed spec fn failed_files(self) -> usize {
        self.failed_files
    }

    pub closed spec fn last_snapshot_bytes(self) -> u64 {
        self.last_snapshot_bytes
    }

    pub closed spec fn current_file(self) -> Option<CurrentFile> {
        self.current_file
    }

    /// Whether two sinks differ at most in the bytes, completed files and
    /// failed files that they have counted.
    pub open spec fn same_job(self, other: TelemetrySink) -> bool {
        &&& self.total_bytes() == other.total_bytes()
        &&& self.total_files() == other.total_files()
        &&& self.last_snapshot_bytes() == other.last_snapshot_bytes()
        &&& self.current_file() == other.current_file()
    }

    /// The counters of a job that has not started.
    pub fn new(total_bytes: u64, total_files: usize) -> (sink: Self)
        ensures
            sink.total_bytes() == total_bytes,
            sink.total_files() == total_files,
            sink.copied_bytes() == 0,
            sink.completed_files() == 0,
            sink.failed_files() == 0,
            sink.last_snapshot_bytes() == 0,
            sink.current_file() is None,
    {
        TelemetrySink {
            total_bytes,
            copied_bytes: 0,
            total_files,
            completed_files: 0,
            failed_files: 0,
            last_snapshot_bytes: 0,
            current_file: None,
        }
    }

    /// Counts copied bytes; the counter wraps around at 64 bits.
    pub fn add_bytes(&mut self, bytes: u64)
        ensures
            counts(*old(self), *final(self), Counted::Bytes(bytes)),
    {
        self.copied_bytes = self.copied_bytes.wrapping_add(bytes);
    }

    /// Counts a completed file; the counter wraps around.
    pub fn complete_file(&mut self)
        ensures
            counts(*old(self), *final(self), Counted::Completed),
    {
        self.completed_files = self.completed_files.wrapping_add(1);
    }

    /// Counts a failed file; the counter wraps around.
    pub fn fail_file(&mut self)
        ensures
            counts(*old(self), *final(self), Counted::Failed),
    {
        self.failed_files = self.failed_files.wrapping_add(1);
    }

    /// Names the file that is being copied.
    pub fn set_current_file(&mut self, path: String, done_bytes: u64, total_bytes: u64)
        ensures
            final(self).current_file() == Some(CurrentFile { path, done_bytes, total_bytes }),
            final(self).total_bytes() == old(self).total_bytes(),
            final(self).total_files() == old(self).total_files(),
            final(self).copied_bytes() == old(self).copied_bytes(),
            final(self).completed_files() == old(self).completed_files(),
            final(self).failed_files() == old(self).failed_files(),
            final(self).last_snapshot_bytes() == old(self).last_snapshot_bytes(),
    {
        self.current_file = Some(CurrentFile { path, done_bytes, total_bytes });
    }

    /// Says that no file is being copied.
    pub fn clear_current_file(&mut self)
        ensures
            final(self).current_file() is None,
            final(self).total_bytes() == old(self).total_bytes(),
            final(self).total_files() == old(self).total_files(),
            final(self).copied_bytes() == old(self).copied_bytes(),
            final(self).completed_files() == old(self).completed_files(),
            final(self).failed_files() == old(self).failed_files(),
            final(self).last_snapshot_bytes() == old(self).last_snapshot_bytes(),
    {
        self.current_file = None;
    }

    /// The file that is being copied, if any.
    pub fn current(&self) -> (current: Option<&CurrentFile>)
        ensures
            match current {
                Some(file) => self.current_file() == Some(*file),
                None => self.current_file() is None,
            },
    {
        match &self.current_file {
            Some(file) => Some(file),
            None => None,
        }
    }

    /// Reads the counters and starts a new window for the bytes since the
    /// previous snapshot.
    pub fn snapshot(&mut self) -> (counts: ProgressCounts)
        ensures
            counts.total_bytes == old(self).total_bytes(),
            counts.copied_bytes == old(self).copied_bytes(),
            counts.total_files == old(self).total_files(),
            counts.completed_files == old(self).completed_files(),
            counts.failed_files == old(self).failed_files(),
            counts.delta_bytes == if old(self).copied_bytes() >= old(self).last_snapshot_bytes() {
                old(self).copied_bytes() - old(self).last_snapshot_bytes()
            } else {
                0
            },
            counts.remaining_bytes == if old(self).copied_bytes() < old(self).total_bytes() {
                Some((old(self).total_bytes() - old(self).copied_bytes()) as u64)
            } else {
                None
            },
            final(self).last_snapshot_bytes() == old(self).copied_bytes(),
            final(self).total_bytes() == old(self).total_bytes(),
            final(self).total_files() == old(self).total_files(),
            final(self).copied_bytes() == old(self).copied_bytes(),
            final(self).completed_files() == old(self).completed_files(),
            final(self).failed_files() == old(self).failed_files(),
            final(self).current_file() == old(self).current_file(),
    {
        let counts = ProgressCounts {
            total_bytes: self.total_bytes,
            copied_bytes: self.copied_bytes,
            total_files: self.total_files,
            completed_files: self.completed_files,
            failed_files: self.failed_files,
            delta_bytes: if self.copied_bytes >= self.last_snapshot_bytes {
                self.copied_bytes - self.last_snapshot_bytes
            } else {
                0
            },
            remaining_bytes: if self.copied_bytes < self.total_bytes {
                Some(self.total_bytes - self.copied_bytes)
            } else {
                None
            },
        };
        self.last_snapshot_bytes = self.copied_bytes;
        counts
    }
}

/// A job begins with its totals and with nothing counted.
pub proof fn law_job_begins_with_nothing_counted(
    total_bytes: u64,
    total_files: usize,
    sink: TelemetrySink,
)
    requires
        call_ensures(TelemetrySink::new, (total_bytes, total_files), sink),
    ensures
        sink.total_bytes() == total_bytes,
        sink.total_files() == total_files,
        sink.copied_bytes() == 0,
        sink.completed_files() == 0,
        sink.failed_files() == 0,
        sink.current_file() is None,
{
}

/// Copied bytes are added to those before, and nothing else changes, as long as the
/// sum fits.
pub proof fn law_bytes_are_added(sink: &mut TelemetrySink, bytes: u64)
    requires
        call_ensures(TelemetrySink::add_bytes, (sink, bytes), ()),
        old(sink).copied_bytes() + bytes <= u64::MAX,
    ensures
        final(sink).copied_bytes() == old(sink).copied_bytes() + bytes,
        final(sink).completed_files() == old(sink).completed_files(),
        final(sink).failed_files() == old(sink).failed_files(),
        final(sink).total_bytes() == old(sink).total_bytes(),
        final(sink).total_files() == old(sink).total_files(),
{
}

/// A completed file is counted as one, and as completed only.
pub proof fn law_completed_file_is_one(sink: &mut TelemetrySink)
    requires
        call_ensures(TelemetrySink::complete_file, (sink,), ()),
        old(sink).completed_files() < usize::MAX,
    ensures
        final(sink).completed_files() == old(sink).completed_files() + 1,
        final(sink).failed_files() == old(sink).failed_files(),
        final(sink).copied_bytes() == old(sink).copied_bytes(),
        final(sink).total_files() == old(sink).total_files(),
{
}

/// A failed file is counted as one, and as failed only.
pub proof fn law_failed_file_is_one(sink: &mut TelemetrySink)
    requires
        call_ensures(TelemetrySink::fail_file, (sink,), ()),
        old(sink).failed_files() < usize::MAX,
    ensures
        final(sink).failed_files() == old(sink).failed_files() + 1,
        final(sink).completed_files() == old(sink).completed_files(),
        final(sink).copied_bytes() == old(sink).copied_bytes(),
        final(sink).total_files() == old(sink).total_files(),
{
}

/// Naming the file that is being copied, and saying that there is none, changes no
/// counter.
pub proof fn law_current_file_counts_nothing(
    sink: &mut TelemetrySink,
    path: String,
    done_bytes: u64,
    total_bytes: u64,
    current: Option<&CurrentFile>,
)
    requires
        call_ensures(TelemetrySink::set_current_file, (sink, path, done_bytes, total_bytes), ()),
        call_ensures(TelemetrySink::current, (final(sink),), current),
    ensures
        current is Some,
        current->0.path@ == path@,
        current->0.done_bytes == done_bytes,
        current->0.total_bytes == total_bytes,
        final(sink).copied_bytes() == old(sink).copied_bytes(),
        final(sink).completed_files() == old(sink).completed_files(),
        final(sink).failed_files() == old(sink).failed_files(),
        final(sink).total_bytes() == old(sink).total_bytes(),
        final(sink).total_files() == old(sink).total_files(),
{
}

/// Once a file was cleared, none is being copied, and no counter changed.
pub proof fn law_no_file_is_current_after_clearing(
    sink: &mut TelemetrySink,
    current: Option<&CurrentFile>,
)
    requires
        call_ensures(TelemetrySink::clear_current_file, (sink,), ()),
        call_ensures(TelemetrySink::current, (final(sink),), current),
    ensures
        current is None,
        final(sink).copied_bytes() == old(sink).copied_bytes(),
        final(sink).completed_files() == old(sink).completed_files(),
        final(sink).failed_files() == old(sink).failed_files(),
{
}

/// A snapshot tells the counters as they are. What is copied and what remains make
/// the total; nothing remains once all is copied. A look changes no counter.
pub proof fn law_snapshot_tells_the_counters(sink: &mut TelemetrySink, counts: ProgressCounts)
    requires
        call_ensures(TelemetrySink::snapshot, (sink,), counts),
    ensures
        counts.copied_bytes == old(sink).copied_bytes(),
        counts.total_bytes == old(sink).total_bytes(),
        counts.completed_files == old(sink).completed_files(),
        counts.failed_files == old(sink).failed_files(),
        counts.total_files == old(sink).total_files(),
        counts.remaining_bytes is Some <==> counts.copied_bytes < counts.total_bytes,
        counts.remaining_bytes is Some ==> counts.copied_bytes + counts.remaining_bytes->0
            == counts.total_bytes,
        final(sink).copied_bytes() == old(sink).copied_bytes(),
        final(sink).completed_files() == old(sink).completed_files(),
        final(sink).failed_files() == old(sink).failed_files(),
        final(sink).current_file() == old(sink).current_file(),
{
}

/// Each snapshot tells the bytes since the one before: between two looks, just what
/// was added in between.
pub proof fn law_snapshots_share_the_bytes(
    sink: &mut TelemetrySink,
    first: ProgressCounts,
    later: &mut TelemetrySink,
    second: ProgressCounts,
    bytes: u64,
)
    requires
        call_ensures(TelemetrySink::snapshot, (sink,), first),
        counts(*final(sink), *old(later), Counted::Bytes(bytes)),
        old(sink).copied_bytes() + bytes <= u64::MAX,
        call_ensures(TelemetrySink::snapshot, (later,), second),
    ensures
        second.delta_bytes == bytes,
        second.copied_bytes == first.copied_bytes + bytes,
{
}

} // verus!
