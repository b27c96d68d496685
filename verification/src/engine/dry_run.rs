//! Simulation of a job: what it would do, without a byte written.
//!
//! The plan is made from what a look at the disk found; it lists an action or a
//! problem for every file, and says whether the real job could run.

use vstd::prelude::*;
use vstd::string::*;
use vstd::utf8::*;

use crate::config::EngineConfig;
use crate::path::PathStyle;
use crate::path_map::PathSet;
use crate::text::{bytes_text, decimal, format_bytes, format_decimal};

verus! {

/// What a job would do with a file.
#[derive(Debug)]
#[allow(inconsistent_fields)]
pub enum PlannedAction {
    /// Copy it.
    Copy { source: String, dest: String, size: u64 },
    /// Copy it and delete the source.
    Move { source: String, dest: String, size: u64 },
    /// Leave it.
    Skip { source: String, dest: String, reason: SkipReason },
    /// Replace what is at the destination, which has another size.
    Overwrite { source: String, dest: String, size: u64, existing_size: u64 },
}

/// Why a file is left.
#[derive(Debug, Clone, Copy, PartialEq, Eq, Structural)]
pub enum SkipReason {
    /// A checkpoint says that it is done.
    Checkpoint,
    /// A file of the same size is at the destination.
    AlreadyExists,
}

/// Something that would go wrong.
#[derive(Debug)]
pub struct DryRunProblem {
    pub path: String,
    pub kind: ProblemKind,
    pub message: String,
}

/// The kinds of things that can go wrong.
#[derive(Debug, Clone, Copy, PartialEq, Eq, Structural)]
pub enum ProblemKind {
    /// The source cannot be read.
    NoReadPermission,
    /// The destination cannot be written.
    NoWritePermission,
    /// The path at the destination is longer than the system takes.
    PathTooLong,
    /// The disk has not enough space.
    InsufficientSpace,
    /// The source vanished during the scan.
    SourceGone,
}

/// A `PlannedAction`, with the characters of its paths.
pub enum ActionView {
    Copy { source: Seq<char>, dest: Seq<char>, size: u64 },
    Move { source: Seq<char>, dest: Seq<char>, size: u64 },
    Skip { source: Seq<char>, dest: Seq<char>, reason: SkipReason },
    Overwrite { source: Seq<char>, dest: Seq<char>, size: u64, existing_size: u64 },
}

/// A `DryRunProblem`, with the characters of its texts.
pub struct ProblemView {
    pub path: Seq<char>,
    pub kind: ProblemKind,
    pub message: Seq<char>,
}

impl View for PlannedAction {
    type V = ActionView;

    open spec fn view(&self) -> ActionView {
        match self {
            PlannedAction::Copy { source, dest, size } => ActionView::Copy {
                source: source@,
                dest: dest@,
                size: *size,
            },
            PlannedAction::Move { source, dest, size } => ActionView::Move {
                source: source@,
                dest: dest@,
                size: *size,
            },
            PlannedAction::Skip { source, dest, reason } => ActionView::Skip {
                source: source@,
                dest: dest@,
                reason: *reason,
            },
            PlannedAction::Overwrite { source, dest, size, existing_size } =>
                ActionView::Overwrite {
                source: source@,
                dest: dest@,
                size: *size,
                existing_size: *existing_size,
            },
        }
    }
}

impl View for DryRunProblem {
    type V = ProblemView;

    open spec fn view(&self) -> ProblemView {
        ProblemView { path: self.path@, kind: self.kind, message: self.message@ }
    }
}

/// The plan of a job.
#[derive(Debug)]
pub struct DryRunReport {
    pub actions: Vec<PlannedAction>,
    pub problems: Vec<DryRunProblem>,
    /// How many files would be transferred.
    pub total_files: usize,
    /// How many bytes would be transferred.
    pub total_bytes: u64,
    /// How many files would be left.
    pub skipped_files: usize,
    /// How many problems there are.
    pub problem_files: usize,
    /// Whether there are none.
    pub is_safe: bool,
}

/// What a look at the disk found out about a file of the source.
pub struct ScannedFile {
    pub source: String,
    /// The path below the root of the source.
    pub relative: String,
    pub size: u64,
    /// Whether the source was still there.
    pub exists: bool,
    /// Whether the source could be opened, or why not.
    pub readable: std::result::Result<(), String>,
    /// The size of what is at the destination, if anything is.
    pub existing_size: Option<u64>,
}

/// What the plan of a job depends on besides its files.
pub struct Survey {
    pub style: PathStyle,
    /// The relative paths that a checkpoint says are done.
    pub completed: Set<Seq<char>>,
    pub is_move: bool,
    pub dest_root: Seq<char>,
}

/// The longest path, in bytes, that Windows takes as a rule.
pub const MAX_WINDOWS_PATH: usize = 260;

impl Survey {
    /// Where a file would go.
    pub open spec fn dest(self, file: ScannedFile) -> Seq<char> {
        self.style.joined(self.dest_root, file.relative@)
    }

    /// Whether the file could be transferred at all.
    pub open spec fn reachable(self, file: ScannedFile) -> bool {
        !self.completed.contains(self.style.canonical(file.relative@)) && file.exists
            && file.readable is Ok
    }

    /// What would be done with a file.
    pub open spec fn action(self, file: ScannedFile) -> Option<ActionView> {
        let source = file.source@;
        let dest = self.dest(file);
        if self.completed.contains(self.style.canonical(file.relative@)) {
            Some(ActionView::Skip { source, dest, reason: SkipReason::Checkpoint })
        } else if !self.reachable(file) {
            None
        } else {
            match file.existing_size {
                Some(existing_size) => if existing_size == file.size {
                    Some(ActionView::Skip { source, dest, reason: SkipReason::AlreadyExists })
                } else {
                    Some(ActionView::Overwrite { source, dest, size: file.size, existing_size })
                },
                None => if self.is_move {
                    Some(ActionView::Move { source, dest, size: file.size })
                } else {
                    Some(ActionView::Copy { source, dest, size: file.size })
                },
            }
        }
    }

    /// Whether the path at the destination is too long.
    pub open spec fn too_long(self, file: ScannedFile) -> bool {
        self.style == PathStyle::Windows && encode_utf8(self.dest(file)).len() > MAX_WINDOWS_PATH
    }

    /// What would go wrong with a file.
    pub open spec fn problem(self, file: ScannedFile) -> Option<ProblemView> {
        if self.completed.contains(self.style.canonical(file.relative@)) {
            None
        } else if !file.exists {
            Some(
                ProblemView {
                    path: file.source@,
                    kind: ProblemKind::SourceGone,
                    message: "el archivo desapareció durante el escaneo"@,
                },
            )
        } else if let Err(message) = file.readable {
            Some(
                ProblemView {
                    path: file.source@,
                    kind: ProblemKind::NoReadPermission,
                    message: message@,
                },
            )
        } else if self.too_long(file) {
            Some(
                ProblemView {
                    path: self.dest(file),
                    kind: ProblemKind::PathTooLong,
                    message: "path destino tiene "@ + decimal(encode_utf8(self.dest(file)).len())
                        + " chars (máx 260 en Windows sin LFN)"@,
                },
            )
        } else {
            None
        }
    }

    /// Whether a file would be transferred.
    pub open spec fn transfers(self, file: ScannedFile) -> bool {
        match self.action(file) {
            Some(ActionView::Skip { .. }) => false,
            Some(_) => true,
            None => false,
        }
    }

    /// The actions for a list of files.
    pub open spec fn actions(self, files: Seq<ScannedFile>) -> Seq<ActionView>
        decreases files.len(),
    {
        if files.len() == 0 {
            Seq::empty()
        } else {
            match self.action(files.last()) {
                Some(action) => self.actions(files.drop_last()).push(action),
                None => self.actions(files.drop_last()),
            }
        }
    }

    /// The problems with a list of files.
    pub open spec fn problems(self, files: Seq<ScannedFile>) -> Seq<ProblemView>
        decreases files.len(),
    {
        if files.len() == 0 {
            Seq::empty()
        } else {
            match self.problem(files.last()) {
                Some(problem) => self.problems(files.drop_last()).push(problem),
                None => self.problems(files.drop_last()),
            }
        }
    }

    /// How many files of a list would be transferred.
    pub open spec fn transfer_count(self, files: Seq<ScannedFile>) -> nat
        decreases files.len(),
    {
        if files.len() == 0 {
            0
        } else {
            self.transfer_count(files.drop_last()) + if self.transfers(files.last()) {
                1nat
            } else {
                0nat
            }
        }
    }

    /// How many bytes of a list of files would be transferred.
    pub open spec fn transfer_bytes(self, files: Seq<ScannedFile>) -> nat
        decreases files.len(),
    {
        if files.len() == 0 {
            0
        } else {
            self.transfer_bytes(files.drop_last()) + if self.transfers(files.last()) {
                files.last().size as nat
            } else {
                0nat
            }
        }
    }

    /// The problem of a disk that is too full, if the files of a list do not
    /// fit.
    pub open spec fn space_problem(
        self,
        files: Seq<ScannedFile>,
        available: Option<u64>,
    ) -> Option<ProblemView> {
        match available {
            Some(space) => if self.transfer_bytes(files) > space {
                Some(
                    ProblemView {
                        path: self.dest_root,
                        kind: ProblemKind::InsufficientSpace,
                        message: "necesario: "@ + bytes_text(self.transfer_bytes(files))
                            + ", disponible: "@ + bytes_text(space as nat),
                    },
                )
            } else {
                None
            },
            None => None,
        }
    }

    /// The problem of a destination that cannot be written, if `message` says so.
    pub open spec fn write_problem(self, message: Option<String>) -> Option<ProblemView> {
        match message {
            Some(text) => Some(
                ProblemView {
                    path: self.dest_root,
                    kind: ProblemKind::NoWritePermission,
                    message: text@,
                },
            ),
            None => None,
        }
    }
}

/// Zero or one problem as a sequence.
pub open spec fn as_seq(problem: Option<ProblemView>) -> Seq<ProblemView> {
    match problem {
        Some(p) => seq![p],
        None => Seq::empty(),
    }
}

proof fn lemma_bytes_grow(survey: Survey, files: Seq<ScannedFile>, i: int)
    requires
        0 <= i <= files.len(),
    ensures
        survey.transfer_bytes(files.take(i)) <= survey.transfer_bytes(files),
    decreases files.len(),
{
    if i < files.len() {
        lemma_bytes_grow(survey, files.drop_last(), i);
        assert(files.drop_last().take(i) =~= files.take(i));
    } else {
        assert(files.take(i) =~= files);
    }
}

/// Makes the plan of a job.
pub struct DryRunner<'a> {
    config: &'a EngineConfig,
    is_move: bool,
    completed: PathSet,
}

impl<'a> DryRunner<'a> {
    pub closed spec fn config(self) -> EngineConfig {
        *self.config
    }

    /// How paths are written.
    pub closed spec fn style(self) -> PathStyle {
        self.completed.style()
    }

    pub closed spec fn is_move(self) -> bool {
        self.is_move
    }

    /// The relative paths that a checkpoint says are done.
    pub closed spec fn completed(self) -> Set<Seq<char>> {
        self.completed@
    }

    /// What the plan depends on besides the files.
    pub open spec fn survey(self, dest_root: Seq<char>) -> Survey {
        Survey {
            style: self.style(),
            completed: self.completed(),
            is_move: self.is_move(),
            dest_root,
        }
    }

    pub fn new(config: &'a EngineConfig, is_move: bool, completed: PathSet) -> (runner: Self)
        ensures
            runner.config() == *config,
            runner.style() == completed.style(),
            runner.is_move() == is_move,
            runner.completed() == completed@,
    {
        DryRunner { config, is_move, completed }
    }

    /// Makes the plan. `write_error` says why the destination cannot be written,
    /// if it cannot; `available` is the free space there, where it is known.
    pub fn run(
        &self,
        dest_root: &str,
        files: &Vec<ScannedFile>,
        write_error: Option<String>,
        available: Option<u64>,
    ) -> (report: DryRunReport)
        requires
            self.survey(dest_root@).transfer_bytes(files@) <= u64::MAX,
        ensures
            report.is_plan_of(self.survey(dest_root@), files@, write_error, available),
    {
        let ghost survey = self.survey(dest_root@);
        let ghost first = as_seq(survey.write_problem(write_error));
        let mut actions: Vec<PlannedAction> = Vec::new();
        let mut problems: Vec<DryRunProblem> = Vec::new();
        let mut total_bytes: u64 = 0;
        let mut total_files: usize = 0;
        let mut skipped_files: usize = 0;
        if let Some(message) = write_error {
            problems.push(
                DryRunProblem {
                    path: dest_root.to_owned(),
                    kind: ProblemKind::NoWritePermission,
                    message,
                },
            );
        }
        assert(problem_views_of(problems@) =~= first);
        assert(action_views_of(actions@) =~= survey.actions(files@.take(0)));
        assert(first + survey.problems(files@.take(0)) =~= first);
        let mut i: usize = 0;
        while i < files.len()
            invariant
                i <= files@.len(),
                survey == self.survey(dest_root@),
                survey.transfer_bytes(files@) <= u64::MAX,
                action_views_of(actions@) == survey.actions(files@.take(i as int)),
                problem_views_of(problems@) == first + survey.problems(files@.take(i as int)),
                total_files == survey.transfer_count(files@.take(i as int)),
                total_bytes == survey.transfer_bytes(files@.take(i as int)),
                skipped_files + total_files == actions@.len(),
                actions@.len() <= i,
            decreases files@.len() - i,
        {
            let ghost seen = files@.take(i as int);
            let ghost next = files@.take(i + 1);
            proof {
                assert(next.drop_last() =~= seen);
                assert(next.last() == files@[i as int]);
                lemma_bytes_grow(survey, files@, i + 1);
            }
            let file = &files[i];
            let ghost acted = actions@;
            let ghost reported = problems@;
            let (action, problem) = self.judge(dest_root, file);
            if let Some(action) = action {
                if let PlannedAction::Skip { .. } = action {
                    skipped_files = skipped_files + 1;
                } else {
                    total_files = total_files + 1;
                    total_bytes = total_bytes + file.size;
                }
                actions.push(action);
                assert(action_views_of(actions@) =~= action_views_of(acted).push(action@));
            }
            if let Some(problem) = problem {
                problems.push(problem);
                assert(problem_views_of(problems@) =~= problem_views_of(reported).push(problem@));
                assert(first + survey.problems(seen).push(problem@) =~= (first + survey.problems(
                    seen,
                )).push(problem@));
            }
            i = i + 1;
        }
        assert(files@.take(i as int) =~= files@);
        let ghost reported = problems@;
        if let Some(space) = available {
            if total_bytes > space {
                let mut message = "necesario: ".to_owned();
                message.append(format_bytes(total_bytes).as_str());
                message.append(", disponible: ");
                message.append(format_bytes(space).as_str());
                let problem = DryRunProblem {
                    path: dest_root.to_owned(),
                    kind: ProblemKind::InsufficientSpace,
                    message,
                };
                problems.push(problem);
                assert(problem_views_of(problems@) =~= problem_views_of(reported).push(problem@));
            }
        }
        let problem_files: usize = problems.len();
        let report = DryRunReport {
            actions,
            problems,
            total_files,
            total_bytes,
            skipped_files,
            problem_files,
            is_safe: problem_files == 0,
        };
        assert(report.problem_views() =~= first + survey.problems(files@) + as_seq(
            survey.space_problem(files@, available),
        ));
        report
    }

    /// What would be done with one file, and what would go wrong with it.
    fn judge(&self, dest_root: &str, file: &ScannedFile) -> (verdict: (
        Option<PlannedAction>,
        Option<DryRunProblem>,
    ))
        ensures
            match verdict.0 {
                Some(action) => self.survey(dest_root@).action(*file) == Some(action@),
                None => self.survey(dest_root@).action(*file) is None,
            },
            match verdict.1 {
                Some(problem) => self.survey(dest_root@).problem(*file) == Some(
                    problem@,
                ),
                None => self.survey(dest_root@).problem(*file) is None,
            },
    {
        let source = file.source.clone();
        let style = self.completed.path_style();
        let dest = style.join(dest_root, file.relative.as_str());
        if self.completed.contains(file.relative.as_str()) {
            return (
                Some(PlannedAction::Skip { source, dest, reason: SkipReason::Checkpoint }),
                None,
            );
        }
        if !file.exists {
            let message = "el archivo desapareció durante el escaneo".to_owned();
            return (
                None,
                Some(DryRunProblem { path: source, kind: ProblemKind::SourceGone, message }),
            );
        }
        if let Err(message) = &file.readable {
            return (
                None,
                Some(
                    DryRunProblem {
                        path: source,
                        kind: ProblemKind::NoReadPermission,
                        message: message.clone(),
                    },
                ),
            );
        }
        let length: usize = dest.as_str().as_bytes().len();
        let mut problem: Option<DryRunProblem> = None;
        if style == PathStyle::Windows && length > MAX_WINDOWS_PATH {
            let mut message = "path destino tiene ".to_owned();
            message.append(format_decimal(length as u128).as_str());
            message.append(" chars (máx 260 en Windows sin LFN)");
            problem = Some(
                DryRunProblem { path: dest.clone(), kind: ProblemKind::PathTooLong, message },
            );
        }
        let action = match file.existing_size {
            Some(existing_size) => if existing_size == file.size {
                PlannedAction::Skip { source, dest, reason: SkipReason::AlreadyExists }
            } else {
                PlannedAction::Overwrite { source, dest, size: file.size, existing_size }
            },
            None => if self.is_move {
                PlannedAction::Move { source, dest, size: file.size }
            } else {
                PlannedAction::Copy { source, dest, size: file.size }
            },
        };
        (Some(action), problem)
    }
}

/// The views of a sequence of actions.
pub open spec fn action_views_of(actions: Seq<PlannedAction>) -> Seq<ActionView> {
    actions.map_values(|action: PlannedAction| action@)
}

/// The views of a sequence of problems.
pub open spec fn problem_views_of(problems: Seq<DryRunProblem>) -> Seq<ProblemView> {
    problems.map_values(|problem: DryRunProblem| problem@)
}

/// Every file gets an action or a problem: none is passed over in silence.
pub proof fn law_every_file_is_judged(survey: Survey, file: ScannedFile)
    ensures
        survey.action(file) is Some || survey.problem(file) is Some,
{
}

/// A move plans no plain copy, and a copy plans no move.
pub proof fn law_actions_match_the_operation(survey: Survey, file: ScannedFile)
    ensures
        survey.is_move ==> !(survey.action(file) is Some && survey.action(file)->0 is Copy),
        !survey.is_move ==> !(survey.action(file) is Some && survey.action(file)->0 is Move),
{
}

/// A plan depends on what the look at the disk found alone: a second simulation
/// that finds the same gives the same plan.
pub proof fn law_simulation_is_idempotent(
    survey: Survey,
    files: Seq<ScannedFile>,
    write_error: Option<String>,
    available: Option<u64>,
    first: DryRunReport,
    second: DryRunReport,
)
    requires
        first.is_plan_of(survey, files, write_error, available),
        second.is_plan_of(survey, files, write_error, available),
    ensures
        first.action_views() == second.action_views(),
        first.problem_views() == second.problem_views(),
        first.total_files == second.total_files,
        first.total_bytes == second.total_bytes,
        first.skipped_files == second.skipped_files,
        first.problem_files == second.problem_files,
        first.is_safe == second.is_safe,
{
    assert(first.problem_views().len() == first.problems@.len());
    assert(second.problem_views().len() == second.problems@.len());
}

impl DryRunReport {
    /// Whether this is the plan of a job: `files` are its files, `write_error`
    /// says why the destination cannot be written, if it cannot, and `available`
    /// is the free space there, where it is known.
    pub open spec fn is_plan_of(
        self,
        survey: Survey,
        files: Seq<ScannedFile>,
        write_error: Option<String>,
        available: Option<u64>,
    ) -> bool {
        &&& self.action_views() == survey.actions(files)
        &&& self.problem_views() == as_seq(survey.write_problem(write_error)) + survey.problems(
            files,
        ) + as_seq(survey.space_problem(files, available))
        &&& self.total_files == survey.transfer_count(files)
        &&& self.total_bytes == survey.transfer_bytes(files)
        &&& self.skipped_files == survey.actions(files).len() - survey.transfer_count(files)
        &&& self.problem_files == self.problems@.len()
        &&& self.is_safe == (self.problems@.len() == 0)
    }

    pub open spec fn action_views(self) -> Seq<ActionView> {
        action_views_of(self.actions@)
    }

    pub open spec fn problem_views(self) -> Seq<ProblemView> {
        problem_views_of(self.problems@)
    }
}

/// What is planned for a file follows from what was found, whatever else holds of
/// the job: a file that a checkpoint says is done is skipped as that; one that is
/// gone or cannot be read gets no action; one of just the size of what is at the
/// destination is skipped as existing; what is of any other size there, smaller or
/// larger, is overwritten; and where nothing is there, the file is moved in a move
/// and copied in a copy.
pub proof fn law_plan_follows_what_was_found(survey: Survey, file: ScannedFile)
    ensures
        ({
            let done = survey.completed.contains(survey.style.canonical(file.relative@));
            let there = file.exists && file.readable is Ok;
            let action = survey.action(file);
            &&& done <==> action is Some && action->0 is Skip && action->0->reason
                == SkipReason::Checkpoint
            &&& !done && there && file.existing_size == Some(file.size) <==> action is Some
                && action->0 is Skip && action->0->reason == SkipReason::AlreadyExists
            &&& !done && there && file.existing_size is Some && file.existing_size->0 != file.size
                <==> action is Some && action->0 is Overwrite
            &&& !done && there && file.existing_size is None && survey.is_move <==> action is Some
                && action->0 is Move
            &&& !done && there && file.existing_size is None && !survey.is_move <==> action is Some
                && action->0 is Copy
            &&& !done && !there <==> action is None
        }),
{
}

/// An action names the file, the place below the destination where it goes, and the
/// sizes that were found.
pub proof fn law_action_names_the_file(survey: Survey, file: ScannedFile)
    requires
        survey.action(file) is Some,
    ensures
        match survey.action(file)->0 {
            ActionView::Copy { source, dest, size } => source == file.source@ && dest
                == survey.style.joined(survey.dest_root, file.relative@) && size == file.size,
            ActionView::Move { source, dest, size } => source == file.source@ && dest
                == survey.style.joined(survey.dest_root, file.relative@) && size == file.size,
            ActionView::Skip { source, dest, reason } => source == file.source@ && dest
                == survey.style.joined(survey.dest_root, file.relative@),
            ActionView::Overwrite { source, dest, size, existing_size } => source == file.source@
                && dest == survey.style.joined(survey.dest_root, file.relative@) && size
                == file.size && file.existing_size == Some(existing_size),
        },
{
}

/// What would go wrong is found out in its order: a file that is gone, one that
/// cannot be read, and on Windows a path of more than 260 bytes at the destination.
/// A file that is done has no problem, and any other that none of this holds of has
/// none either.
pub proof fn law_problem_says_what_is_wrong(survey: Survey, file: ScannedFile)
    ensures
        ({
            let done = survey.completed.contains(survey.style.canonical(file.relative@));
            let dest = survey.style.joined(survey.dest_root, file.relative@);
            let long = survey.style == PathStyle::Windows && encode_utf8(dest).len() > 260;
            let problem = survey.problem(file);
            &&& done ==> problem is None
            &&& !done && !file.exists <==> problem is Some && problem->0.kind
                == ProblemKind::SourceGone
            &&& !done && file.exists && file.readable is Err <==> problem is Some
                && problem->0.kind == ProblemKind::NoReadPermission
            &&& !done && file.exists && file.readable is Ok && long <==> problem is Some
                && problem->0.kind == ProblemKind::PathTooLong
            &&& problem is Some && problem->0.kind == ProblemKind::PathTooLong ==> problem->0.path
                == dest
            &&& problem is Some && problem->0.kind != ProblemKind::PathTooLong ==> problem->0.path
                == file.source@
            &&& problem is Some && problem->0.kind == ProblemKind::NoReadPermission
                ==> problem->0.message == file.readable->Err_0@
            &&& problem is Some && problem->0.kind == ProblemKind::SourceGone
                ==> problem->0.message == "el archivo desapareció durante el escaneo"@
            &&& problem is Some && problem->0.kind == ProblemKind::PathTooLong
                ==> problem->0.message == "path destino tiene "@ + decimal(encode_utf8(dest).len())
                + " chars (máx 260 en Windows sin LFN)"@
        }),
{
}

/// The bytes that an action transfers.
pub open spec fn bytes_of(action: ActionView) -> nat {
    match action {
        ActionView::Copy { source, dest, size } => size as nat,
        ActionView::Move { source, dest, size } => size as nat,
        ActionView::Skip { source, dest, reason } => 0,
        ActionView::Overwrite { source, dest, size, existing_size } => size as nat,
    }
}

/// The totals of a plan are those of its actions: every action that is no skip is a
/// transferred file with its bytes, and every skip is a skipped file. A plan is safe
/// if and only if it lists no problem.
pub proof fn law_totals_are_those_of_the_actions(
    runner: DryRunner,
    dest_root: &str,
    files: Vec<ScannedFile>,
    write_error: Option<String>,
    available: Option<u64>,
    report: DryRunReport,
)
    requires
        call_ensures(
            DryRunner::run,
            (&runner, dest_root, &files, write_error, available),
            report,
        ),
    ensures
        report.total_files == report.actions@.filter(|a: PlannedAction| !(a is Skip)).len(),
        report.skipped_files == report.actions@.filter(|a: PlannedAction| a is Skip).len(),
        report.total_bytes == report.actions@.fold_left(
            0nat,
            |sum: nat, a: PlannedAction| sum + bytes_of(a@),
        ),
        report.problem_files == report.problems@.len(),
        report.is_safe <==> report.problems@.len() == 0,
{
    let survey = runner.survey(dest_root@);
    lemma_totals(survey, files@, report.actions@);
}

proof fn lemma_totals(survey: Survey, files: Seq<ScannedFile>, actions: Seq<PlannedAction>)
    requires
        action_views_of(actions) == survey.actions(files),
    ensures
        survey.transfer_count(files) == actions.filter(|a: PlannedAction| !(a is Skip)).len(),
        actions.len() - survey.transfer_count(files) == actions.filter(
            |a: PlannedAction| a is Skip,
        ).len(),
        survey.transfer_bytes(files) == actions.fold_left(
            0nat,
            |sum: nat, a: PlannedAction| sum + bytes_of(a@),
        ),
        survey.actions(files).len() == actions.len(),
    decreases files.len(),
{
    let moved = |a: PlannedAction| !(a is Skip);
    let kept = |a: PlannedAction| a is Skip;
    let add_up = |sum: nat, a: PlannedAction| sum + bytes_of(a@);
    assert(action_views_of(actions).len() == actions.len());
    if files.len() == 0 {
        assert(actions.len() == 0);
        assert(actions.filter(moved).len() == 0 && actions.filter(kept).len() == 0) by {
            reveal(Seq::filter);
        }
    } else {
        let before = files.drop_last();
        match survey.action(files.last()) {
            None => {
                lemma_totals(survey, before, actions);
            },
            Some(action) => {
                let earlier = actions.drop_last();
                let last = actions.len() - 1;
                assert(action_views_of(actions).last() == action);
                assert(actions.last()@ == action);
                assert(action_views_of(earlier) =~= action_views_of(actions).drop_last());
                assert(survey.actions(files).drop_last() =~= survey.actions(before));
                lemma_totals(survey, before, earlier);
                crate::seqs::lemma_filter_next(actions, last, moved);
                crate::seqs::lemma_filter_next(actions, last, kept);
                assert(actions.take(last) =~= earlier);
                assert(actions.take(last + 1) =~= actions);
                assert(moved(actions[last]) == !kept(actions[last]));
            },
        }
    }
}

/// Every file of a job is in its plan, with what is planned for it or what is wrong
/// with it, and the order of the files is kept: what one file more adds comes last.
pub proof fn law_no_file_is_left_out_of_the_plan(
    survey: Survey,
    files: Seq<ScannedFile>,
    file: ScannedFile,
)
    ensures
        survey.action(file) is Some ==> survey.actions(files.push(file)) == survey.actions(
            files,
        ).push(survey.action(file)->0),
        survey.action(file) is None ==> survey.actions(files.push(file)) == survey.actions(files),
        survey.problem(file) is Some ==> survey.problems(files.push(file)) == survey.problems(
            files,
        ).push(survey.problem(file)->0),
        survey.problem(file) is None ==> survey.problems(files.push(file)) == survey.problems(
            files,
        ),
        survey.actions(Seq::<ScannedFile>::empty()).len() == 0,
        survey.problems(Seq::<ScannedFile>::empty()).len() == 0,
{
    assert(files.push(file).drop_last() =~= files);
}

/// A plan lists for its files just what each of them calls for, and of the job that
/// the destination cannot be written where that was found, and that the disk is too
/// full if and only if the bytes to transfer are more than the space that is free.
pub proof fn law_plan_judges_the_whole_job(
    runner: DryRunner,
    dest_root: &str,
    files: Vec<ScannedFile>,
    write_error: Option<String>,
    available: Option<u64>,
    report: DryRunReport,
)
    requires
        call_ensures(
            DryRunner::run,
            (&runner, dest_root, &files, write_error, available),
            report,
        ),
    ensures
        ({
            let survey = runner.survey(dest_root@);
            let own = survey.problems(files@);
            let first: int = if write_error is Some {
                1
            } else {
                0
            };
            let full = available is Some && report.total_bytes > available->0;
            let last: int = if full {
                1
            } else {
                0
            };
            &&& survey.style == runner.style()
            &&& survey.completed == runner.completed()
            &&& survey.is_move == runner.is_move()
            &&& survey.dest_root == dest_root@
            &&& report.action_views() == survey.actions(files@)
            &&& report.problems@.len() == first + own.len() + last
            &&& write_error is Some ==> report.problems@[0].kind == ProblemKind::NoWritePermission
                && report.problems@[0].path@ == dest_root@ && report.problems@[0].message@
                == write_error->0@
            &&& report.problem_views().subrange(first, first + own.len()) == own
            &&& full ==> report.problems@.last().kind == ProblemKind::InsufficientSpace
                && report.problems@.last().path@ == dest_root@
                && report.problems@.last().message@ == "necesario: "@ + bytes_text(
                report.total_bytes as nat,
            ) + ", disponible: "@ + bytes_text(available->0 as nat)
        }),
{
    let survey = runner.survey(dest_root@);
    let own = survey.problems(files@);
    let first = as_seq(survey.write_problem(write_error));
    let last = as_seq(survey.space_problem(files@, available));
    let views = report.problem_views();
    assert(views.len() == report.problems@.len());
    assert(views == first + own + last);
    assert(views.subrange(first.len() as int, (first.len() + own.len()) as int) =~= own);
    if write_error is Some {
        assert(views[0] == first[0]);
        assert(views[0] == report.problems@[0]@);
    }
    if last.len() > 0 {
        assert(views.last() == last[0]);
        assert(views.last() == report.problems@.last()@);
    }
}

/// A runner plans the job that it was made for.
pub proof fn law_runner_plans_its_job(
    config: &EngineConfig,
    is_move: bool,
    completed: PathSet,
    runner: DryRunner,
)
    requires
        call_ensures(DryRunner::new, (config, is_move, completed), runner),
    ensures
        runner.is_move() == is_move,
        runner.completed() == completed@,
        runner.style() == completed.style(),
        runner.config() == *config,
{
}

/// Whatever else a job holds, each of its files that could be transferred and is not done
/// has its action in the plan: where a file of just its size is at the destination it is
/// skipped; where one of any other size is there, smaller or larger, that is overwritten;
/// and where nothing is there, the file is moved in a move and copied in a copy.
pub proof fn law_each_file_has_its_action(
    runner: DryRunner,
    dest_root: &str,
    files: Vec<ScannedFile>,
    write_error: Option<String>,
    available: Option<u64>,
    report: DryRunReport,
    i: int,
)
    requires
        call_ensures(
            DryRunner::run,
            (&runner, dest_root, &files, write_error, available),
            report,
        ),
        0 <= i < files@.len(),
        !runner.completed().contains(runner.style().canonical(files@[i].relative@)),
        files@[i].exists,
        files@[i].readable is Ok,
    ensures
        exists|k: int|
            0 <= k < report.actions@.len() && {
                let file = files@[i];
                match #[trigger] report.actions@[k] {
                    PlannedAction::Skip { source, dest, reason } => source@ == file.source@
                        && reason == SkipReason::AlreadyExists && file.existing_size == Some(
                        file.size,
                    ),
                    PlannedAction::Overwrite { source, dest, size, existing_size } => source@
                        == file.source@ && size == file.size && existing_size != file.size
                        && file.existing_size == Some(existing_size),
                    PlannedAction::Move { source, dest, size } => source@ == file.source@ && size
                        == file.size && file.existing_size is None && runner.is_move(),
                    PlannedAction::Copy { source, dest, size } => source@ == file.source@ && size
                        == file.size && file.existing_size is None && !runner.is_move(),
                }
            },
{
    let survey = runner.survey(dest_root@);
    let action = survey.action(files@[i])->0;
    let views = report.action_views();
    lemma_action_is_listed(survey, files@, i);
    assert(views.contains(action));
    let k = choose|k: int| 0 <= k < views.len() && views[k] == action;
    assert(views[k] == report.actions@[k]@);
}

/// A file that a checkpoint says is done is skipped as that, whatever is at the
/// destination.
pub proof fn law_done_file_is_skipped(
    runner: DryRunner,
    dest_root: &str,
    files: Vec<ScannedFile>,
    write_error: Option<String>,
    available: Option<u64>,
    report: DryRunReport,
    i: int,
)
    requires
        call_ensures(
            DryRunner::run,
            (&runner, dest_root, &files, write_error, available),
            report,
        ),
        0 <= i < files@.len(),
        runner.completed().contains(runner.style().canonical(files@[i].relative@)),
    ensures
        exists|k: int|
            0 <= k < report.actions@.len() && (#[trigger] report.actions@[k]@ matches
                ActionView::Skip { source, dest, reason } && source == files@[i].source@ && reason
                == SkipReason::Checkpoint),
{
    let survey = runner.survey(dest_root@);
    let action = survey.action(files@[i])->0;
    let views = report.action_views();
    lemma_action_is_listed(survey, files@, i);
    assert(views.contains(action));
    let k = choose|k: int| 0 <= k < views.len() && views[k] == action;
    assert(views[k] == report.actions@[k]@);
}

proof fn lemma_action_is_listed(survey: Survey, files: Seq<ScannedFile>, i: int)
    requires
        0 <= i < files.len(),
        survey.action(files[i]) is Some,
    ensures
        survey.actions(files).contains(survey.action(files[i])->0),
    decreases files.len(),
{
    let before = survey.actions(files.drop_last());
    let all = survey.actions(files);
    let action = survey.action(files[i])->0;
    if i < files.len() - 1 {
        lemma_action_is_listed(survey, files.drop_last(), i);
        assert(files.drop_last()[i] == files[i]);
        let k = choose|k: int| 0 <= k < before.len() && before[k] == action;
        assert(all[k] == action);
    } else {
        assert(all.last() == action);
    }
}

} // verus!
