//! The plan of a job as text.

use vstd::prelude::*;
use vstd::string::*;

use crate::engine::dry_run::{
    ActionView, DryRunProblem, DryRunReport, PlannedAction, ProblemKind, ProblemView, SkipReason,
};
use crate::text::{
    bytes_text, decimal, format_bytes, format_decimal, push_line, push_pair, texts,
};

verus! {

/// The line that frames a report.
pub open spec fn rule() -> Seq<char> {
    "━━━━━━━━━━━━━━━━━━━━━━━━━━━━━━━━━━━━━━━━━━━━━━━━━━━━"@
}

/// The label of a kind of problem.
pub open spec fn kind_label(kind: ProblemKind) -> Seq<char> {
    match kind {
        ProblemKind::NoReadPermission => "SIN LECTURA"@,
        ProblemKind::NoWritePermission => "SIN ESCRITURA"@,
        ProblemKind::PathTooLong => "PATH LARGO"@,
        ProblemKind::InsufficientSpace => "DISCO LLENO"@,
        ProblemKind::SourceGone => "ORIGEN DESAPARECIDO"@,
    }
}

/// The line for a problem.
pub open spec fn problem_line(problem: ProblemView) -> Seq<char> {
    "    ["@ + kind_label(problem.kind) + "] "@ + problem.path + " — "@ + problem.message
}

/// The line for an action.
pub open spec fn action_line(action: ActionView) -> Seq<char> {
    match action {
        ActionView::Copy { source, dest, size } => "    COPIAR  "@ + source + " → "@ + dest + " ("@
            + bytes_text(size as nat) + ")"@,
        ActionView::Move { source, dest, size } => "    MOVER   "@ + source + " → "@ + dest + " ("@
            + bytes_text(size as nat) + ")"@,
        ActionView::Skip { source, dest, reason } => "    SALTAR  "@ + source + " ["@ + (
        match reason {
            SkipReason::Checkpoint => "checkpoint"@,
            SkipReason::AlreadyExists => "ya existe"@,
        }) + "]"@,
        ActionView::Overwrite { source, dest, size, existing_size } => "    SOBRE   "@ + source
            + " → "@ + dest + " ("@ + bytes_text(existing_size as nat) + " → "@ + bytes_text(
            size as nat,
        ) + ")"@,
    }
}

/// The lines for some problems, under their heading.
pub open spec fn problem_lines(problems: Seq<ProblemView>) -> Seq<Seq<char>> {
    if problems.len() == 0 {
        Seq::empty()
    } else {
        seq!["  Problemas:"@] + problems.map_values(|problem: ProblemView| problem_line(problem))
    }
}

/// The lines for some actions, under their heading.
pub open spec fn action_lines(actions: Seq<ActionView>) -> Seq<Seq<char>> {
    seq![""@, "  Acciones planificadas:"@] + actions.map_values(
        |action: ActionView| action_line(action),
    )
}

impl DryRunReport {
    /// The head of the report: what would be transferred and left.
    pub open spec fn head_lines(self) -> Seq<Seq<char>> {
        seq![
            rule(),
            "  Dry-run — simulación (sin cambios en disco)"@,
            rule(),
            "  Archivos a procesar: "@ + decimal(self.total_files as nat),
            "  Datos a transferir:  "@ + bytes_text(self.total_bytes as nat),
            "  Archivos a saltar:   "@ + decimal(self.skipped_files as nat),
        ] + (if self.problem_files > 0 {
            seq!["  ⚠  Problemas detectados: "@ + decimal(self.problem_files as nat)]
        } else {
            Seq::empty()
        })
    }

    /// The body of the report: the problems and, if asked for, the actions.
    pub open spec fn body_lines(self, verbose: bool) -> Seq<Seq<char>> {
        if verbose || self.problems@.len() > 0 {
            seq![""@] + problem_lines(self.problem_views()) + (if verbose {
                action_lines(self.action_views())
            } else {
                Seq::empty()
            })
        } else {
            Seq::empty()
        }
    }

    /// The foot of the report: whether the job could run.
    pub open spec fn foot_lines(self) -> Seq<Seq<char>> {
        seq![
            ""@,
            rule(),
            if self.is_safe {
                "  ✓ Sin problemas detectados — la operación puede ejecutarse"@
            } else {
                "  ✗ HAY PROBLEMAS — revisa los errores antes de ejecutar"@
            },
            rule(),
        ]
    }

    /// The lines to print.
    pub fn print(&self, verbose: bool) -> (lines: Vec<String>)
        ensures
            texts(lines@) == self.head_lines() + self.body_lines(verbose) + self.foot_lines(),
    {
        let mut lines: Vec<String> = Vec::new();
        push_line(&mut lines, rule_text());
        push_line(&mut lines, "  Dry-run — simulación (sin cambios en disco)");
        push_line(&mut lines, rule_text());
        push_pair(
            &mut lines,
            "  Archivos a procesar: ",
            format_decimal(self.total_files as u128).as_str(),
        );
        push_pair(&mut lines, "  Datos a transferir:  ", format_bytes(self.total_bytes).as_str());
        push_pair(
            &mut lines,
            "  Archivos a saltar:   ",
            format_decimal(self.skipped_files as u128).as_str(),
        );
        if self.problem_files > 0 {
            push_pair(
                &mut lines,
                "  ⚠  Problemas detectados: ",
                format_decimal(self.problem_files as u128).as_str(),
            );
        }
        assert(texts(lines@) =~= self.head_lines());
        if verbose || self.problems.len() > 0 {
            push_line(&mut lines, "");
            self.add_problems(&mut lines);
            if verbose {
                self.add_actions(&mut lines);
            }
        }
        assert(texts(lines@) =~= self.head_lines() + self.body_lines(verbose));
        push_line(&mut lines, "");
        push_line(&mut lines, rule_text());
        if self.is_safe {
            push_line(&mut lines, "  ✓ Sin problemas detectados — la operación puede ejecutarse");
        } else {
            push_line(&mut lines, "  ✗ HAY PROBLEMAS — revisa los errores antes de ejecutar");
        }
        push_line(&mut lines, rule_text());
        assert(texts(lines@) =~= self.head_lines() + self.body_lines(verbose) + self.foot_lines());
        lines
    }

    fn add_problems(&self, lines: &mut Vec<String>)
        ensures
            texts(final(lines)@) == texts(old(lines)@) + problem_lines(self.problem_views()),
    {
        if self.problems.len() == 0 {
            assert(texts(lines@) =~= texts(old(lines)@) + problem_lines(self.problem_views()));
            return;
        }
        push_line(lines, "  Problemas:");
        let ghost before = texts(lines@);
        let ghost wanted = self.problem_views().map_values(
            |problem: ProblemView| problem_line(problem),
        );
        let mut i: usize = 0;
        assert(texts(lines@) =~= before + wanted.take(0));
        while i < self.problems.len()
            invariant
                i <= self.problems@.len(),
                wanted == self.problem_views().map_values(
                    |problem: ProblemView| problem_line(problem),
                ),
                texts(lines@) == before + wanted.take(i as int),
            decreases self.problems@.len() - i,
        {
            let line = problem_text(&self.problems[i]);
            push_line(lines, line.as_str());
            assert(wanted.take(i + 1) =~= wanted.take(i as int).push(line@));
            assert(texts(lines@) =~= before + wanted.take(i + 1));
            i = i + 1;
        }
        assert(wanted.take(i as int) =~= wanted);
        assert(texts(lines@) =~= texts(old(lines)@) + problem_lines(self.problem_views()));
    }

    fn add_actions(&self, lines: &mut Vec<String>)
        ensures
            texts(final(lines)@) == texts(old(lines)@) + action_lines(self.action_views()),
    {
        push_line(lines, "");
        push_line(lines, "  Acciones planificadas:");
        let ghost before = texts(lines@);
        let ghost wanted = self.action_views().map_values(
            |action: ActionView| action_line(action),
        );
        let mut i: usize = 0;
        assert(texts(lines@) =~= before + wanted.take(0));
        while i < self.actions.len()
            invariant
                i <= self.actions@.len(),
                wanted == self.action_views().map_values(|action: ActionView| action_line(action)),
                texts(lines@) == before + wanted.take(i as int),
            decreases self.actions@.len() - i,
        {
            let line = action_text(&self.actions[i]);
            push_line(lines, line.as_str());
            assert(wanted.take(i + 1) =~= wanted.take(i as int).push(line@));
            assert(texts(lines@) =~= before + wanted.take(i + 1));
            i = i + 1;
        }
        assert(wanted.take(i as int) =~= wanted);
        assert(texts(lines@) =~= texts(old(lines)@) + action_lines(self.action_views()));
    }
}

fn rule_text() -> (text: &'static str)
    ensures
        text@ == rule(),
{
    "━━━━━━━━━━━━━━━━━━━━━━━━━━━━━━━━━━━━━━━━━━━━━━━━━━━━"
}

fn kind_text(kind: ProblemKind) -> (text: &'static str)
    ensures
        text@ == kind_label(kind),
{
    match kind {
        ProblemKind::NoReadPermission => "SIN LECTURA",
        ProblemKind::NoWritePermission => "SIN ESCRITURA",
        ProblemKind::PathTooLong => "PATH LARGO",
        ProblemKind::InsufficientSpace => "DISCO LLENO",
        ProblemKind::SourceGone => "ORIGEN DESAPARECIDO",
    }
}

fn problem_text(problem: &DryRunProblem) -> (line: String)
    ensures
        line@ == problem_line(problem@),
{
    let mut line = "    [".to_owned();
    line.append(kind_text(problem.kind));
    line.append("] ");
    line.append(problem.path.as_str());
    line.append(" — ");
    line.append(problem.message.as_str());
    line
}

fn transfer_text(verb: &str, source: &String, dest: &String, size: u64) -> (line: String)
    ensures
        line@ == verb@ + source@ + " → "@ + dest@ + " ("@ + bytes_text(size as nat) + ")"@,
{
    let mut line = verb.to_owned();
    line.append(source.as_str());
    line.append(" → ");
    line.append(dest.as_str());
    line.append(" (");
    line.append(format_bytes(size).as_str());
    line.append(")");
    line
}

fn action_text(action: &PlannedAction) -> (line: String)
    ensures
        line@ == action_line(action@),
{
    match action {
        PlannedAction::Copy { source, dest, size } => transfer_text(
            "    COPIAR  ",
            source,
            dest,
            *size,
        ),
        PlannedAction::Move { source, dest, size } => transfer_text(
            "    MOVER   ",
            source,
            dest,
            *size,
        ),
        PlannedAction::Skip { source, dest, reason } => {
            let mut line = "    SALTAR  ".to_owned();
            line.append(source.as_str());
            line.append(" [");
            match reason {
                SkipReason::Checkpoint => line.append("checkpoint"),
                SkipReason::AlreadyExists => line.append("ya existe"),
            }
            line.append("]");
            line
        },
        PlannedAction::Overwrite { source, dest, size, existing_size } => {
            let mut line = "    SOBRE   ".to_owned();
            line.append(source.as_str());
            line.append(" → ");
            line.append(dest.as_str());
            line.append(" (");
            line.append(format_bytes(*existing_size).as_str());
            line.append(" → ");
            line.append(format_bytes(*size).as_str());
            line.append(")");
            line
        },
    }
}

/// The end of a report says whether the job could run, as the plan found it.
pub proof fn law_report_ends_with_the_finding(
    report: DryRunReport,
    verbose: bool,
    lines: Vec<String>,
)
    requires
        call_ensures(DryRunReport::print, (&report, verbose), lines),
    ensures
        lines@.len() >= 10,
        report.is_safe <==> lines@[lines@.len() - 2]@
            == "  ✓ Sin problemas detectados — la operación puede ejecutarse"@,
        !report.is_safe <==> lines@[lines@.len() - 2]@
            == "  ✗ HAY PROBLEMAS — revisa los errores antes de ejecutar"@,
{
    let all = texts(lines@);
    let n = all.len() as int;
    let front = report.head_lines() + report.body_lines(verbose);
    assert(all == front + report.foot_lines());
    assert(all[n - 2] == report.foot_lines()[2]);
    assert(lines@[n - 2]@ == all[n - 2]);
    reveal_strlit("  ✓ Sin problemas detectados — la operación puede ejecutarse");
    reveal_strlit("  ✗ HAY PROBLEMAS — revisa los errores antes de ejecutar");
    assert("  ✓ Sin problemas detectados — la operación puede ejecutarse"@[2] == '✓');
    assert("  ✗ HAY PROBLEMAS — revisa los errores antes de ejecutar"@[2] == '✗');
}

/// A report begins with what would be transferred and left, and says how many problems
/// there are where there are any.
pub proof fn law_report_tells_the_totals(report: DryRunReport, verbose: bool, lines: Vec<String>)
    requires
        call_ensures(DryRunReport::print, (&report, verbose), lines),
    ensures
        lines@.len() >= 10,
        lines@[3]@ == "  Archivos a procesar: "@ + decimal(report.total_files as nat),
        lines@[4]@ == "  Datos a transferir:  "@ + bytes_text(report.total_bytes as nat),
        lines@[5]@ == "  Archivos a saltar:   "@ + decimal(report.skipped_files as nat),
        report.problem_files > 0 ==> lines@[6]@ == "  ⚠  Problemas detectados: "@ + decimal(
            report.problem_files as nat,
        ),
{
    let all = texts(lines@);
    let head = report.head_lines();
    assert(forall|i: int| 0 <= i < head.len() ==> all[i] == #[trigger] head[i]);
    assert(forall|i: int| 0 <= i < all.len() ==> #[trigger] all[i] == lines@[i]@);
    assert(head[3] == all[3] && head[4] == all[4] && head[5] == all[5]);
    if report.problem_files > 0 {
        assert(head[6] == all[6]);
    }
}

/// A report has a line for every problem, asked for or not, and a line for every action
/// if and only if they were asked for; it has no other lines but the frame, so none is
/// left out.
pub proof fn law_report_has_a_line_for_everything(
    report: DryRunReport,
    verbose: bool,
    lines: Vec<String>,
    problem: int,
    action: int,
)
    requires
        call_ensures(DryRunReport::print, (&report, verbose), lines),
    ensures
        0 <= problem < report.problems@.len() ==> exists|k: int|
            0 <= k < lines@.len() && (#[trigger] lines@[k])@ == problem_line(
                report.problems@[problem]@,
            ),
        verbose && 0 <= action < report.actions@.len() ==> exists|k: int|
            0 <= k < lines@.len() && (#[trigger] lines@[k])@ == action_line(
                report.actions@[action]@,
            ),
        ({
            let frame = if report.problem_files > 0 {
                11int
            } else {
                10int
            };
            let problems = if report.problems@.len() > 0 {
                report.problems@.len() + 1
            } else {
                0
            };
            &&& verbose ==> lines@.len() == frame + 1 + problems + 2 + report.actions@.len()
            &&& !verbose && problems > 0 ==> lines@.len() == frame + 1 + problems
            &&& !verbose && problems == 0 ==> lines@.len() == frame
        }),
{
    let all = texts(lines@);
    let head = report.head_lines();
    let told = problem_lines(report.problem_views());
    assert(forall|i: int| 0 <= i < all.len() ==> #[trigger] all[i] == lines@[i]@);
    assert(all.len() == lines@.len());
    if 0 <= problem < report.problems@.len() {
        let k = head.len() + 1 + 1 + problem;
        assert(told[1 + problem] == problem_line(report.problem_views()[problem]));
        assert(all[k] == told[1 + problem]);
        assert(lines@[k]@ == all[k]);
    }
    if verbose && 0 <= action < report.actions@.len() {
        let planned = action_lines(report.action_views());
        let k = head.len() + 1 + told.len() + 2 + action;
        assert(planned[2 + action] == action_line(report.action_views()[action]));
        assert(all[k] == planned[2 + action]);
        assert(lines@[k]@ == all[k]);
    }
}

/// The line of an action tells by its first word what is done, then the file; but for
/// one that is skipped it tells where the file goes and how large it is, and for one
/// that is skipped why.
pub proof fn law_action_line_tells_the_action(action: ActionView)
    ensures
        match action {
            ActionView::Copy { source, dest, size } => action_line(action) == "    COPIAR  "@
                + source + " → "@ + dest + " ("@ + bytes_text(size as nat) + ")"@,
            ActionView::Move { source, dest, size } => action_line(action) == "    MOVER   "@
                + source + " → "@ + dest + " ("@ + bytes_text(size as nat) + ")"@,
            ActionView::Overwrite { source, dest, size, existing_size } => action_line(action)
                == "    SOBRE   "@ + source + " → "@ + dest + " ("@ + bytes_text(
                existing_size as nat,
            ) + " → "@ + bytes_text(size as nat) + ")"@,
            ActionView::Skip { source, dest, reason } => {
                &&& reason is Checkpoint ==> action_line(action) == "    SALTAR  "@ + source
                    + " ["@ + "checkpoint"@ + "]"@
                &&& reason is AlreadyExists ==> action_line(action) == "    SALTAR  "@ + source
                    + " ["@ + "ya existe"@ + "]"@
            },
        },
{
}

} // verus!
