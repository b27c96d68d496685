//! The order of work in a job.
//!
//! Small files come first: those that are renamed, then the swarm with the
//! others, then the checkpoint is saved. Large files follow one by one, each with
//! a checkpoint of its own, so that an interrupted job loses at most one of them.
//! A move ends with the removal of the directories that it left empty, and every
//! job with the deletion of a checkpoint that has served its purpose.

use vstd::multiset::Multiset;
use vstd::prelude::*;
use vstd::seq_lib::lemma_multiset_commutative;

use crate::config::OperationMode;
use crate::engine::orchestrator::{
    copied_part, copy_of, renamed_part, FileEntry, Orchestrator, RunPlan,
};

verus! {

/// A piece of work.
pub enum JobTask {
    /// Rename a small file.
    Rename(FileEntry),
    /// Copy small files in the swarm.
    Swarm(Vec<FileEntry>),
    /// Take a large file through its steps.
    Large(FileEntry),
    /// Save the checkpoint.
    Save,
    /// Remove the directories that were left empty, if the job still wants it.
    Cleanup,
    /// Delete the checkpoint, if the job has no more use for it.
    DeleteCheckpoint,
}

/// A `JobTask`, with the files of the swarm as a sequence.
pub enum TaskView {
    Rename(FileEntry),
    Swarm(Seq<FileEntry>),
    Large(FileEntry),
    Save,
    Cleanup,
    DeleteCheckpoint,
}

impl View for JobTask {
    type V = TaskView;

    open spec fn view(&self) -> TaskView {
        match self {
            JobTask::Rename(file) => TaskView::Rename(*file),
            JobTask::Swarm(files) => TaskView::Swarm(files@),
            JobTask::Large(file) => TaskView::Large(*file),
            JobTask::Save => TaskView::Save,
            JobTask::Cleanup => TaskView::Cleanup,
            JobTask::DeleteCheckpoint => TaskView::DeleteCheckpoint,
        }
    }
}

/// The views of a sequence of tasks.
pub open spec fn task_views(tasks: Seq<JobTask>) -> Seq<TaskView> {
    tasks.map_values(|task: JobTask| task@)
}

/// The renaming of some files, in their order.
pub open spec fn renames(files: Seq<FileEntry>) -> Seq<TaskView> {
    files.map_values(|file: FileEntry| TaskView::Rename(file))
}

/// Large files in their order, the checkpoint saved after each.
pub open spec fn saved_one_by_one(files: Seq<FileEntry>) -> Seq<TaskView>
    decreases files.len(),
{
    if files.len() == 0 {
        Seq::empty()
    } else {
        saved_one_by_one(files.drop_last()).push(TaskView::Large(files.last())).push(TaskView::Save)
    }
}

/// The work on the small files of a job.
pub open spec fn small_agenda(is_move: bool, small: Seq<FileEntry>, same_fs: Seq<bool>) -> Seq<
    TaskView,
> {
    let copied = copied_part(is_move, small, same_fs);
    renames(renamed_part(is_move, small, same_fs)) + (if copied.len() > 0 {
        seq![TaskView::Swarm(copied)]
    } else {
        Seq::empty()
    }) + (if small.len() > 0 {
        seq![TaskView::Save]
    } else {
        Seq::empty()
    })
}

/// The work of a job, in its order.
pub open spec fn agenda_of(
    is_move: bool,
    small: Seq<FileEntry>,
    same_fs: Seq<bool>,
    large: Seq<FileEntry>,
) -> Seq<TaskView> {
    small_agenda(is_move, small, same_fs) + saved_one_by_one(large) + (if is_move {
        seq![TaskView::Cleanup]
    } else {
        Seq::empty()
    }) + seq![TaskView::DeleteCheckpoint]
}

impl Orchestrator {
    /// The work of a job, in its order. `same_fs[i]` says whether small file `i`
    /// lies on the file system of its destination.
    pub fn agenda(&self, plan: &RunPlan, same_fs: &Vec<bool>) -> (tasks: Vec<JobTask>)
        requires
            same_fs@.len() == plan.small@.len(),
        ensures
            task_views(tasks@) == agenda_of(
                self.config().operation_mode == OperationMode::Move,
                plan.small@,
                same_fs@,
                plan.large@,
            ),
    {
        let is_move: bool = self.is_move();
        let (to_rename, to_copy) = self.split_renames(&plan.small, same_fs);
        let mut tasks: Vec<JobTask> = Vec::new();
        let mut i: usize = 0;
        while i < to_rename.len()
            invariant
                i <= to_rename@.len(),
                task_views(tasks@) == renames(to_rename@.take(i as int)),
            decreases to_rename@.len() - i,
        {
            let ghost before = tasks@;
            tasks.push(JobTask::Rename(copy_of(&to_rename[i])));
            assert(task_views(tasks@) =~= task_views(before).push(
                TaskView::Rename(to_rename@[i as int]),
            ));
            assert(renames(to_rename@.take(i + 1)) =~= renames(to_rename@.take(i as int)).push(
                TaskView::Rename(to_rename@[i as int]),
            ));
            i = i + 1;
        }
        assert(to_rename@.take(i as int) =~= to_rename@);
        let ghost renaming = tasks@;
        let ghost copied = to_copy@;
        if to_copy.len() > 0 {
            tasks.push(JobTask::Swarm(to_copy));
            assert(task_views(tasks@) =~= task_views(renaming).push(TaskView::Swarm(copied)));
        }
        let ghost swarming = tasks@;
        if plan.small.len() > 0 {
            tasks.push(JobTask::Save);
            assert(task_views(tasks@) =~= task_views(swarming).push(TaskView::Save));
        }
        let ghost first = task_views(tasks@);
        assert(first =~= small_agenda(is_move, plan.small@, same_fs@));
        let mut k: usize = 0;
        assert(first + saved_one_by_one(plan.large@.take(0)) =~= first);
        while k < plan.large.len()
            invariant
                k <= plan.large@.len(),
                task_views(tasks@) == first + saved_one_by_one(plan.large@.take(k as int)),
            decreases plan.large@.len() - k,
        {
            let ghost before = tasks@;
            let ghost file = plan.large@[k as int];
            let ghost done = saved_one_by_one(plan.large@.take(k as int));
            tasks.push(JobTask::Large(copy_of(&plan.large[k])));
            tasks.push(JobTask::Save);
            proof {
                let next = plan.large@.take(k + 1);
                assert(next.drop_last() =~= plan.large@.take(k as int));
                assert(task_views(tasks@) =~= task_views(before).push(TaskView::Large(file)).push(
                    TaskView::Save,
                ));
                assert((first + done).push(TaskView::Large(file)).push(TaskView::Save) =~= first
                    + done.push(TaskView::Large(file)).push(TaskView::Save));
            }
            k = k + 1;
        }
        assert(plan.large@.take(k as int) =~= plan.large@);
        let ghost working = tasks@;
        if is_move {
            tasks.push(JobTask::Cleanup);
            assert(task_views(tasks@) =~= task_views(working).push(TaskView::Cleanup));
        }
        let ghost cleaning = tasks@;
        tasks.push(JobTask::DeleteCheckpoint);
        assert(task_views(tasks@) =~= task_views(cleaning).push(TaskView::DeleteCheckpoint));
        assert(task_views(tasks@) =~= agenda_of(is_move, plan.small@, same_fs@, plan.large@));
        tasks
    }
}

/// The files on an agenda, in its order.
pub open spec fn files_on(tasks: Seq<TaskView>) -> Seq<FileEntry>
    decreases tasks.len(),
{
    if tasks.len() == 0 {
        Seq::empty()
    } else {
        let before = files_on(tasks.drop_last());
        match tasks.last() {
            TaskView::Rename(file) => before.push(file),
            TaskView::Swarm(files) => before + files,
            TaskView::Large(file) => before.push(file),
            TaskView::Save => before,
            TaskView::Cleanup => before,
            TaskView::DeleteCheckpoint => before,
        }
    }
}

/// Every file of the plan is on the agenda, and none is there twice.
pub proof fn law_every_planned_file_is_on_the_agenda(
    is_move: bool,
    small: Seq<FileEntry>,
    same_fs: Seq<bool>,
    large: Seq<FileEntry>,
)
    requires
        same_fs.len() == small.len(),
    ensures
        files_on(agenda_of(is_move, small, same_fs, large)).to_multiset()
            == small.to_multiset().add(large.to_multiset()),
{
    let copied = copied_part(is_move, small, same_fs);
    let renamed = renamed_part(is_move, small, same_fs);
    let swarm = if copied.len() > 0 {
        seq![TaskView::Swarm(copied)]
    } else {
        Seq::empty()
    };
    let save = if small.len() > 0 {
        seq![TaskView::Save]
    } else {
        Seq::empty()
    };
    let cleanup = if is_move {
        seq![TaskView::Cleanup]
    } else {
        Seq::empty()
    };
    let deletion = seq![TaskView::DeleteCheckpoint];
    lemma_files_of_renames(renamed);
    lemma_files_of_large(large);
    assert(files_on(deletion) =~= Seq::<FileEntry>::empty()) by {
        reveal_with_fuel(files_on, 2);
        assert(deletion.drop_last() =~= Seq::<TaskView>::empty());
    }
    assert(files_on(swarm) =~= copied) by {
        reveal_with_fuel(files_on, 2);
        assert(swarm.len() > 0 ==> swarm.drop_last() =~= Seq::<TaskView>::empty());
    }
    assert(files_on(save) =~= Seq::<FileEntry>::empty()) by {
        reveal_with_fuel(files_on, 2);
        assert(save.len() > 0 ==> save.drop_last() =~= Seq::<TaskView>::empty());
    }
    assert(files_on(cleanup) =~= Seq::<FileEntry>::empty()) by {
        reveal_with_fuel(files_on, 2);
        assert(cleanup.len() > 0 ==> cleanup.drop_last() =~= Seq::<TaskView>::empty());
    }
    lemma_files_of_both(renames(renamed), swarm);
    lemma_files_of_both(renames(renamed) + swarm, save);
    lemma_files_of_both(small_agenda(is_move, small, same_fs), saved_one_by_one(large));
    lemma_files_of_both(
        small_agenda(is_move, small, same_fs) + saved_one_by_one(large),
        cleanup,
    );
    lemma_files_of_both(
        small_agenda(is_move, small, same_fs) + saved_one_by_one(large) + cleanup,
        deletion,
    );
    assert(files_on(agenda_of(is_move, small, same_fs, large)) =~= renamed + copied + large);
    lemma_multiset_commutative(renamed + copied, large);
    lemma_multiset_commutative(renamed, copied);
    lemma_parts_are_all(is_move, small, same_fs);
}

proof fn lemma_files_of_both(first: Seq<TaskView>, second: Seq<TaskView>)
    ensures
        files_on(first + second) == files_on(first) + files_on(second),
    decreases second.len(),
{
    if second.len() == 0 {
        assert(first + second =~= first);
    } else {
        lemma_files_of_both(first, second.drop_last());
        assert((first + second).drop_last() =~= first + second.drop_last());
        assert(files_on(first + second) =~= files_on(first) + files_on(second));
    }
}

proof fn lemma_files_of_renames(files: Seq<FileEntry>)
    ensures
        files_on(renames(files)) == files,
    decreases files.len(),
{
    if files.len() > 0 {
        lemma_files_of_renames(files.drop_last());
        assert(renames(files).drop_last() =~= renames(files.drop_last()));
        assert(files.drop_last().push(files.last()) =~= files);
    }
}

proof fn lemma_files_of_large(files: Seq<FileEntry>)
    ensures
        files_on(saved_one_by_one(files)) == files,
    decreases files.len(),
{
    if files.len() > 0 {
        let before = saved_one_by_one(files.drop_last());
        let with_file = before.push(TaskView::Large(files.last()));
        lemma_files_of_large(files.drop_last());
        assert(with_file.drop_last() =~= before);
        assert(files.drop_last().push(files.last()) =~= files);
        assert(files_on(with_file) =~= files);
        assert(with_file.push(TaskView::Save).drop_last() =~= with_file);
    }
}

proof fn lemma_parts_are_all(is_move: bool, files: Seq<FileEntry>, same_fs: Seq<bool>)
    requires
        same_fs.len() == files.len(),
    ensures
        renamed_part(is_move, files, same_fs).to_multiset().add(
            copied_part(is_move, files, same_fs).to_multiset(),
        ) == files.to_multiset(),
    decreases files.len(),
{
    broadcast use vstd::seq_lib::group_to_multiset_ensures;

    let renamed = renamed_part(is_move, files, same_fs).to_multiset();
    let copied = copied_part(is_move, files, same_fs).to_multiset();
    if files.len() == 0 {
        assert(renamed.add(copied) =~= Multiset::<FileEntry>::empty());
        assert(files.to_multiset() =~= Multiset::<FileEntry>::empty());
    } else {
        lemma_parts_are_all(is_move, files.drop_last(), same_fs.drop_last());
        assert(files.drop_last().push(files.last()) =~= files);
        assert(renamed.add(copied) =~= files.to_multiset());
    }
}

/// The checkpoint is deleted last of all: nothing that comes after it could save
/// it again.
pub proof fn law_checkpoint_is_deleted_last(
    is_move: bool,
    small: Seq<FileEntry>,
    same_fs: Seq<bool>,
    large: Seq<FileEntry>,
    i: int,
)
    requires
        0 <= i < agenda_of(is_move, small, same_fs, large).len(),
    ensures
        agenda_of(is_move, small, same_fs, large).last() is DeleteCheckpoint,
        agenda_of(is_move, small, same_fs, large)[i] is DeleteCheckpoint ==> i + 1 == agenda_of(
            is_move,
            small,
            same_fs,
            large,
        ).len(),
{
    let first = small_agenda(is_move, small, same_fs);
    let one_by_one = saved_one_by_one(large);
    if first.len() <= i < first.len() + one_by_one.len() {
        lemma_large_or_save(large, i - first.len());
        assert(agenda_of(is_move, small, same_fs, large)[i] == one_by_one[i - first.len()]);
    }
}

proof fn lemma_large_or_save(files: Seq<FileEntry>, i: int)
    requires
        0 <= i < saved_one_by_one(files).len(),
    ensures
        saved_one_by_one(files)[i] is Large || saved_one_by_one(files)[i] is Save,
    decreases files.len(),
{
    if files.len() > 0 {
        let before = saved_one_by_one(files.drop_last());
        if i < before.len() {
            lemma_large_or_save(files.drop_last(), i);
        }
    }
}

/// The checkpoint is saved right after each large file, so that no more than one
/// of them has to be copied again after an interruption.
pub proof fn law_each_large_file_is_saved(
    is_move: bool,
    small: Seq<FileEntry>,
    same_fs: Seq<bool>,
    large: Seq<FileEntry>,
    i: int,
)
    requires
        0 <= i < agenda_of(is_move, small, same_fs, large).len(),
        agenda_of(is_move, small, same_fs, large)[i] is Large,
    ensures
        i + 1 < agenda_of(is_move, small, same_fs, large).len(),
        agenda_of(is_move, small, same_fs, large)[i + 1] is Save,
{
    let first = small_agenda(is_move, small, same_fs);
    let one_by_one = saved_one_by_one(large);
    assert(i >= first.len());
    assert(agenda_of(is_move, small, same_fs, large)[i] == one_by_one[i - first.len()]);
    lemma_large_alternates(large, i - first.len());
    assert(agenda_of(is_move, small, same_fs, large)[i + 1] == one_by_one[i + 1 - first.len()]);
}

proof fn lemma_large_alternates(files: Seq<FileEntry>, i: int)
    requires
        0 <= i < saved_one_by_one(files).len(),
        saved_one_by_one(files)[i] is Large,
    ensures
        i + 1 < saved_one_by_one(files).len(),
        saved_one_by_one(files)[i + 1] is Save,
    decreases files.len(),
{
    if files.len() > 0 {
        let before = saved_one_by_one(files.drop_last());
        if i < before.len() {
            lemma_large_alternates(files.drop_last(), i);
        }
    }
}

/// Small files come before large ones, and what was done with them is saved before
/// the first large one. In a move the directories are cleaned up once, after all
/// files; a copy cleans nothing up.
pub proof fn law_small_files_come_first(
    orchestrator: Orchestrator,
    plan: RunPlan,
    same_fs: Vec<bool>,
    tasks: Vec<JobTask>,
    i: int,
    j: int,
)
    requires
        call_ensures(Orchestrator::agenda, (&orchestrator, &plan, &same_fs), tasks),
        same_fs@.len() == plan.small@.len(),
        0 <= i < tasks@.len(),
        0 <= j < tasks@.len(),
    ensures
        (tasks@[i] is Rename || tasks@[i] is Swarm) && tasks@[j] is Large ==> i < j && exists|k: int|
            i < k < j && #[trigger] tasks@[k] is Save,
        tasks@[i] is Cleanup ==> orchestrator.config().operation_mode == OperationMode::Move,
        orchestrator.config().operation_mode == OperationMode::Move ==> exists|k: int|
            0 <= k < tasks@.len() && #[trigger] tasks@[k] is Cleanup,
        tasks@[i] is Cleanup && tasks@[j] is Cleanup ==> i == j,
        tasks@[i] is Cleanup && (tasks@[j] is Rename || tasks@[j] is Swarm || tasks@[j] is Large)
            ==> j < i,
        tasks@[i] is Swarm && tasks@[j] is Swarm ==> i == j,
{
    let is_move = orchestrator.config().operation_mode == OperationMode::Move;
    let all = task_views(tasks@);
    let first = small_agenda(is_move, plan.small@, same_fs@);
    let one_by_one = saved_one_by_one(plan.large@);
    let copied = copied_part(is_move, plan.small@, same_fs@);
    let renaming = renames(renamed_part(is_move, plan.small@, same_fs@));
    lemma_kind_at(is_move, plan.small@, same_fs@, plan.large@, i);
    lemma_kind_at(is_move, plan.small@, same_fs@, plan.large@, j);
    assert(all.len() == tasks@.len());
    assert(forall|k: int| 0 <= k < all.len() ==> #[trigger] all[k] == tasks@[k]@);
    assert(all[i] == tasks@[i]@ && all[j] == tasks@[j]@);
    let n = first.len() as int;
    if (tasks@[i] is Rename || tasks@[i] is Swarm) && tasks@[j] is Large {
        assert(plan.small@.len() > 0) by {
            if plan.small@.len() == 0 {
                assert(renamed_part(is_move, plan.small@, same_fs@).len() == 0);
                assert(copied.len() == 0);
                assert(renaming.len() == 0);
            }
        }
        assert(first[n - 1] == TaskView::Save);
        assert(all[n - 1] == first[n - 1]);
        assert(tasks@[n - 1] is Save);
    }
    if is_move {
        let last = all.len() - 2;
        assert(all[last] == TaskView::Cleanup);
        assert(tasks@[last] is Cleanup);
    }
}

/// What kind of task stands where on an agenda.
proof fn lemma_kind_at(
    is_move: bool,
    small: Seq<FileEntry>,
    same_fs: Seq<bool>,
    large: Seq<FileEntry>,
    i: int,
)
    requires
        0 <= i < agenda_of(is_move, small, same_fs, large).len(),
    ensures
        ({
            let all = agenda_of(is_move, small, same_fs, large);
            let renaming = renames(renamed_part(is_move, small, same_fs)).len();
            let first = small_agenda(is_move, small, same_fs).len();
            let middle = saved_one_by_one(large).len();
            &&& all.len() == first + middle + if is_move {
                2int
            } else {
                1int
            }
            &&& i < renaming ==> all[i] is Rename
            &&& i == renaming && i < first ==> all[i] is Swarm || all[i] is Save
            &&& renaming < i < first ==> all[i] is Save
            &&& first <= i < first + middle ==> all[i] is Large || all[i] is Save
            &&& i == first + middle && is_move ==> all[i] is Cleanup
            &&& i == all.len() - 1 ==> all[i] is DeleteCheckpoint
            &&& renaming <= first
            &&& small.len() > 0 ==> first > 0 && all[first - 1] is Save
        }),
{
    let first = small_agenda(is_move, small, same_fs);
    let one_by_one = saved_one_by_one(large);
    let all = agenda_of(is_move, small, same_fs, large);
    if i < first.len() {
        assert(all[i] == first[i]);
    }
    if first.len() <= i < first.len() + one_by_one.len() {
        lemma_large_or_save(large, i - first.len());
        assert(all[i] == one_by_one[i - first.len()]);
    }
    if small.len() > 0 {
        assert(all[first.len() - 1] == first[first.len() - 1]);
    }
}

/// In a move as many files are renamed as lie on the file system of their
/// destination, each of them one that does; a copy renames none. The swarm gets the
/// others, in their order.
pub proof fn law_agenda_renames_what_can_be_renamed(
    orchestrator: Orchestrator,
    plan: RunPlan,
    same_fs: Vec<bool>,
    tasks: Vec<JobTask>,
    parts: (Vec<FileEntry>, Vec<FileEntry>),
    i: int,
)
    requires
        call_ensures(Orchestrator::agenda, (&orchestrator, &plan, &same_fs), tasks),
        call_ensures(Orchestrator::split_renames, (&orchestrator, &plan.small, &same_fs), parts),
        same_fs@.len() == plan.small@.len(),
        0 <= i < tasks@.len(),
    ensures
        parts.0@.len() < tasks@.len(),
        i < parts.0@.len() <==> tasks@[i] is Rename,
        tasks@[i] is Rename ==> tasks@[i]->Rename_0 == parts.0@[i],
        tasks@[i] is Swarm <==> i == parts.0@.len() && parts.1@.len() > 0,
        tasks@[i] is Swarm ==> tasks@[i]->Swarm_0@ == parts.1@,
{
    let is_move = orchestrator.config().operation_mode == OperationMode::Move;
    let all = task_views(tasks@);
    let first = small_agenda(is_move, plan.small@, same_fs@);
    let renaming = renames(parts.0@);
    lemma_kind_at(is_move, plan.small@, same_fs@, plan.large@, i);
    assert(all.len() == tasks@.len());
    assert(all[i] == tasks@[i]@);
    assert(renaming.len() == parts.0@.len());
    if i < first.len() {
        assert(all[i] == first[i]);
        if i < renaming.len() {
            assert(first[i] == renaming[i]);
        }
    }
    let at = renaming.len() as int;
    if parts.1@.len() > 0 {
        assert(first[at] == TaskView::Swarm(parts.1@));
        assert(all[at] == first[at]);
    }
}

/// The large files are taken in their order, each of them once.
pub proof fn law_large_files_keep_their_order(
    is_move: bool,
    small: Seq<FileEntry>,
    same_fs: Seq<bool>,
    large: Seq<FileEntry>,
    i: int,
)
    requires
        0 <= i < large.len(),
    ensures
        ({
            let all = agenda_of(is_move, small, same_fs, large);
            let at = small_agenda(is_move, small, same_fs).len() + 2 * i;
            &&& 0 <= at < all.len() - 1
            &&& all[at] == TaskView::Large(large[i])
            &&& all[at + 1] == TaskView::Save
        }),
{
    let first = small_agenda(is_move, small, same_fs);
    let one_by_one = saved_one_by_one(large);
    let all = agenda_of(is_move, small, same_fs, large);
    lemma_large_places(large, i);
    assert(all[first.len() + 2 * i] == one_by_one[2 * i]);
    assert(all[first.len() + 2 * i + 1] == one_by_one[2 * i + 1]);
}

proof fn lemma_large_places(files: Seq<FileEntry>, i: int)
    requires
        0 <= i < files.len(),
    ensures
        saved_one_by_one(files).len() == 2 * files.len(),
        saved_one_by_one(files)[2 * i] == TaskView::Large(files[i]),
        saved_one_by_one(files)[2 * i + 1] == TaskView::Save,
    decreases files.len(),
{
    let before = files.drop_last();
    if before.len() == 0 {
        assert(saved_one_by_one(before).len() == 0);
    } else if i < before.len() {
        lemma_large_places(before, i);
    } else {
        lemma_large_places(before, 0);
    }
}

} // verus!
