//! A command from its name to its status.

use crate::command::capability::Requirements;
use crate::command::launch::{
    after_lookup, failure_of, finish_stages, launch_stages, lookup_next, setup_stages,
    stage_failure, LaunchFailure, LaunchStage, Lookup, LookupNext, Reference,
};
use crate::command::outcome::{
    conclude, conclusion, fault_text, status_of, ApplicationOutcome, CommandStatus, Conclusion,
    ExitCodes,
};
use vstd::prelude::*;

verus! {

/// How a command ends.
#[derive(Debug)]
pub enum Ending {
    /// It is not an external command.
    NotExternal,
    /// With a status.
    Silent(CommandStatus),
    /// With a message on standard error and a status.
    Spoken(&'static str, CommandStatus),
    /// The loaded application is torn down as cancelled; then a message on
    /// standard error and failure.
    TearDown(&'static str),
    /// The machine stops.
    Fatal(&'static str),
}

/// What has to be done for a command.
#[derive(Debug)]
pub enum ExecuteAct {
    /// Look the program up.
    LookUp,
    /// Draw a load address.
    Place,
    /// Read the package and admit its manifest.
    ReadPackage,
    /// Perform a stage of the launch.
    Perform(LaunchStage),
    /// Nothing: it ended like this.
    End(Ending),
}

/// What became of it.
#[derive(Debug)]
pub enum ExecuteEvent {
    /// The program was looked up.
    Looked(Lookup),
    /// A load address was drawn, or not.
    Placed(bool),
    /// The package was not accepted.
    BadPackage,
    /// The package was read, and its manifest admitted or refused.
    Admitted(Result<Requirements, &'static str>),
    /// The stage is done.
    Done,
    /// The stage failed.
    Failed,
    /// The application ran to its end, or not.
    Ran(Option<ApplicationOutcome>),
    /// The lines of the script that the application staged.
    Scripted(Vec<String>),
}

/// Script lines that a command leaves to the shell.
#[derive(Debug)]
pub struct PendingScript {
    /// The lines, until the shell takes them.
    pub lines: Option<Vec<String>>,
}

impl PendingScript {
    /// No lines.
    pub fn new() -> (script: Self)
        ensures
            script.lines is None,
    {
        PendingScript { lines: None }
    }

    /// Hand the lines out, once.
    pub fn take_script_lines(&mut self) -> (lines: Option<Vec<String>>)
        ensures
            lines == old(self).lines,
            final(self).lines is None,
    {
        self.lines.take()
    }
}

/// Where a command stands.
#[derive(Debug)]
pub enum Execution {
    /// Before the lookup.
    Looking,
    /// Before the load address is drawn.
    Placing,
    /// Before the package is read.
    Reading,
    /// At a stage of its launch.
    Launching {
        /// Stages.
        stages: Vec<LaunchStage>,
        /// Position.
        at: usize,
        /// What the application's end leads to, once it ran.
        ending: Option<Conclusion>,
    },
    /// Over.
    Over,
}

/// Where a command stands, as a value.
pub enum ExecutionView {
    /// Before the lookup.
    Looking,
    /// Before the load address is drawn.
    Placing,
    /// Before the package is read.
    Reading,
    /// At a stage of its launch.
    Launching {
        /// Stages.
        stages: Seq<LaunchStage>,
        /// Position.
        at: int,
        /// What the application's end leads to, once it ran.
        ending: Option<Conclusion>,
    },
    /// Over.
    Over,
}

impl View for Execution {
    type V = ExecutionView;

    open spec fn view(&self) -> ExecutionView {
        match *self {
            Execution::Looking => ExecutionView::Looking,
            Execution::Placing => ExecutionView::Placing,
            Execution::Reading => ExecutionView::Reading,
            Execution::Launching { stages, at, ending } => ExecutionView::Launching {
                stages: stages@,
                at: at as int,
                ending,
            },
            Execution::Over => ExecutionView::Over,
        }
    }
}

/// The circumstances of a command.
#[derive(Clone, Copy, Debug, PartialEq, Eq, Structural)]
pub struct Circumstances {
    /// How the program is named.
    pub reference: Reference,
    /// Whether it runs in the background.
    pub background: bool,
    /// Whether its input is the session's terminal.
    pub terminal: bool,
    /// Exit codes.
    pub codes: ExitCodes,
}

/// How a failed stage ends the command.
pub open spec fn failure_ending(failure: LaunchFailure) -> Ending {
    match failure {
        LaunchFailure::Report(message) => Ending::Spoken(message, CommandStatus::Failure),
        LaunchFailure::TearDown(message) => Ending::TearDown(message),
        LaunchFailure::Fatal(message) => Ending::Fatal(message),
        LaunchFailure::Silent => Ending::Silent(CommandStatus::Failure),
    }
}

/// How an application's end ends the command.
pub open spec fn conclusion_ending(ending: Option<Conclusion>) -> Ending {
    match ending {
        None => Ending::Silent(CommandStatus::Success),
        Some(Conclusion::Silent(status)) => Ending::Silent(status),
        Some(Conclusion::Spoken(message)) => Ending::Spoken(message, CommandStatus::Failure),
    }
}

/// Whether a stage is skipped: a script is taken over only from an
/// application that succeeded.
pub open spec fn is_skipped(stage: LaunchStage, ending: Option<Conclusion>) -> bool {
    stage == LaunchStage::Script && ending != Some(Conclusion::Silent(CommandStatus::Success))
}

/// What follows at a position of the launch: its stage, or the end. An
/// interpreter in the background is refused as soon as its stage is reached.
pub open spec fn standing(
    background: bool,
    stages: Seq<LaunchStage>,
    at: int,
    ending: Option<Conclusion>,
) -> (ExecutionView, ExecuteAct) {
    if at >= stages.len() || is_skipped(stages[at], ending) {
        (ExecutionView::Over, ExecuteAct::End(conclusion_ending(ending)))
    } else if stages[at] == LaunchStage::Interpreter {
        (
            ExecutionView::Over,
            ExecuteAct::End(failure_ending(failure_of(LaunchStage::Interpreter, background))),
        )
    } else {
        (ExecutionView::Launching { stages, at, ending }, ExecuteAct::Perform(stages[at]))
    }
}

impl ExecutionView {
    /// Whether an event can happen here.
    pub open spec fn expects(self, event: ExecuteEvent) -> bool {
        match self {
            ExecutionView::Looking => event is Looked,
            ExecutionView::Placing => event is Placed,
            ExecutionView::Reading => event is BadPackage || event is Admitted,
            ExecutionView::Launching { stages, at, ending } => {
                &&& 0 <= at < stages.len()
                &&& if stages[at] == LaunchStage::Run {
                    event is Ran
                } else if stages[at] == LaunchStage::Script {
                    event is Scripted || event is Failed
                } else {
                    event is Done || event is Failed
                }
            },
            ExecutionView::Over => false,
        }
    }

    /// What follows an event.
    pub open spec fn step(self, now: Circumstances, event: ExecuteEvent) -> (
        ExecutionView,
        ExecuteAct,
    ) {
        match (self, event) {
            (ExecutionView::Looking, ExecuteEvent::Looked(lookup)) => match lookup_next(
                now.reference,
                lookup,
            ) {
                LookupNext::Load => (ExecutionView::Placing, ExecuteAct::Place),
                LookupNext::NotExternal => (
                    ExecutionView::Over,
                    ExecuteAct::End(Ending::NotExternal),
                ),
                LookupNext::Report(message, status) => (
                    ExecutionView::Over,
                    ExecuteAct::End(Ending::Spoken(message, status)),
                ),
            },
            (ExecutionView::Placing, ExecuteEvent::Placed(drawn)) => if drawn {
                (ExecutionView::Reading, ExecuteAct::ReadPackage)
            } else {
                (
                    ExecutionView::Over,
                    ExecuteAct::End(
                        failure_ending(failure_of(LaunchStage::Placement, now.background)),
                    ),
                )
            },
            (ExecutionView::Reading, ExecuteEvent::BadPackage) => (
                ExecutionView::Over,
                ExecuteAct::End(failure_ending(failure_of(LaunchStage::Package, now.background))),
            ),
            (ExecutionView::Reading, ExecuteEvent::Admitted(Err(message))) => (
                ExecutionView::Over,
                ExecuteAct::End(Ending::Spoken(message, CommandStatus::Failure)),
            ),
            (ExecutionView::Reading, ExecuteEvent::Admitted(Ok(requirements))) => standing(
                now.background,
                setup_stages(requirements, now.background) + finish_stages(
                    requirements,
                    now.background,
                    now.terminal,
                ),
                0,
                None,
            ),
            (ExecutionView::Launching { stages, at, ending }, ExecuteEvent::Done)
            | (ExecutionView::Launching { stages, at, ending }, ExecuteEvent::Scripted(_)) => {
                standing(now.background, stages, at + 1, ending)
            },
            (ExecutionView::Launching { stages, at, ending }, ExecuteEvent::Ran(outcome)) => standing(
                now.background,
                stages,
                at + 1,
                Some(conclusion(now.codes, outcome)),
            ),
            (ExecutionView::Launching { stages, at, ending }, ExecuteEvent::Failed) => (
                ExecutionView::Over,
                ExecuteAct::End(failure_ending(failure_of(stages[at], now.background))),
            ),
            _ => (ExecutionView::Over, ExecuteAct::End(Ending::NotExternal)),
        }
    }
}

fn end_of_failure(failure: LaunchFailure) -> (ending: Ending)
    ensures
        ending == failure_ending(failure),
{
    match failure {
        LaunchFailure::Report(message) => Ending::Spoken(message, CommandStatus::Failure),
        LaunchFailure::TearDown(message) => Ending::TearDown(message),
        LaunchFailure::Fatal(message) => Ending::Fatal(message),
        LaunchFailure::Silent => Ending::Silent(CommandStatus::Failure),
    }
}

fn after(at: usize, count: usize) -> (next: usize)
    requires
        at < count,
    ensures
        next == at + 1,
{
    at + 1
}

fn stand_at(
    background: bool,
    stages: Vec<LaunchStage>,
    at: usize,
    ending: Option<Conclusion>,
) -> (result: (Execution, ExecuteAct))
    ensures
        (result.0@, result.1) == standing(background, stages@, at as int, ending),
{
    let over = if at >= stages.len() {
        true
    } else if matches!(stages[at], LaunchStage::Script) {
        !matches!(ending, Some(Conclusion::Silent(CommandStatus::Success)))
    } else {
        false
    };
    if over {
        let end = match ending {
            None => Ending::Silent(CommandStatus::Success),
            Some(Conclusion::Silent(status)) => Ending::Silent(status),
            Some(Conclusion::Spoken(message)) => Ending::Spoken(message, CommandStatus::Failure),
        };
        return (Execution::Over, ExecuteAct::End(end));
    }
    let stage = stages[at];
    if matches!(stage, LaunchStage::Interpreter) {
        let end = end_of_failure(stage_failure(LaunchStage::Interpreter, background));
        return (Execution::Over, ExecuteAct::End(end));
    }
    (Execution::Launching { stages, at, ending }, ExecuteAct::Perform(stage))
}

impl Execution {
    /// Begin with the lookup, unless the command names no program. Lines that an
    /// earlier command left are gone either way.
    pub fn new(script: &mut PendingScript, reference: Option<Reference>) -> (begin: (
        Execution,
        ExecuteAct,
    ))
        ensures
            final(script).lines is None,
            (begin.0@, begin.1) == (if reference is Some {
                (ExecutionView::Looking, ExecuteAct::LookUp)
            } else {
                (ExecutionView::Over, ExecuteAct::End(Ending::NotExternal))
            }),
    {
        script.lines = None;
        match reference {
            Some(_) => (Execution::Looking, ExecuteAct::LookUp),
            None => (Execution::Over, ExecuteAct::End(Ending::NotExternal)),
        }
    }

    /// Take what became of the last act, and say what follows. Only a script
    /// leaves lines.
    pub fn execute(self, script: &mut PendingScript, now: Circumstances, event: ExecuteEvent) -> (result: (
        Execution,
        ExecuteAct,
    ))
        requires
            self@.expects(event),
        ensures
            (result.0@, result.1) == self@.step(now, event),
            final(script).lines == match event {
                ExecuteEvent::Scripted(lines) => Some(lines),
                _ => old(script).lines,
            },
    {
        match (self, event) {
            (Execution::Looking, ExecuteEvent::Looked(lookup)) => match after_lookup(
                now.reference,
                lookup,
            ) {
                LookupNext::Load => (Execution::Placing, ExecuteAct::Place),
                LookupNext::NotExternal => (Execution::Over, ExecuteAct::End(Ending::NotExternal)),
                LookupNext::Report(message, status) => (
                    Execution::Over,
                    ExecuteAct::End(Ending::Spoken(message, status)),
                ),
            },
            (Execution::Placing, ExecuteEvent::Placed(drawn)) => {
                if drawn {
                    (Execution::Reading, ExecuteAct::ReadPackage)
                } else {
                    let end = end_of_failure(stage_failure(LaunchStage::Placement, now.background));
                    (Execution::Over, ExecuteAct::End(end))
                }
            },
            (Execution::Reading, ExecuteEvent::BadPackage) => {
                let end = end_of_failure(stage_failure(LaunchStage::Package, now.background));
                (Execution::Over, ExecuteAct::End(end))
            },
            (Execution::Reading, ExecuteEvent::Admitted(Err(message))) => (
                Execution::Over,
                ExecuteAct::End(Ending::Spoken(message, CommandStatus::Failure)),
            ),
            (Execution::Reading, ExecuteEvent::Admitted(Ok(requirements))) => {
                let stages = launch_stages(&requirements, now.background, now.terminal);
                stand_at(now.background, stages, 0, None)
            },
            (Execution::Launching { stages, at, ending }, ExecuteEvent::Done) => {
                let next: usize = after(at, stages.len());
                stand_at(now.background, stages, next, ending)
            },
            (Execution::Launching { stages, at, ending }, ExecuteEvent::Scripted(lines)) => {
                script.lines = Some(lines);
                let next: usize = after(at, stages.len());
                stand_at(now.background, stages, next, ending)
            },
            (Execution::Launching { stages, at, ending }, ExecuteEvent::Ran(outcome)) => {
                let next: usize = after(at, stages.len());
                stand_at(now.background, stages, next, Some(conclude(now.codes, outcome)))
            },
            (Execution::Launching { stages, at, ending }, ExecuteEvent::Failed) => {
                let end = end_of_failure(stage_failure(stages[at], now.background));
                (Execution::Over, ExecuteAct::End(end))
            },
            _ => (Execution::Over, ExecuteAct::End(Ending::NotExternal)),
        }
    }
}

/// A command that runs in the foreground gives the terminal back as soon as
/// the application ended, whatever the end was.
pub proof fn the_terminal_comes_back(
    now: Circumstances,
    stages: Seq<LaunchStage>,
    at: int,
    ending: Option<Conclusion>,
    outcome: Option<ApplicationOutcome>,
)
    requires
        0 <= at < stages.len() - 1,
        stages[at] == LaunchStage::Run,
        stages[at + 1] == LaunchStage::ReturnLoan,
    ensures
        (ExecutionView::Launching { stages, at, ending }).step(now, ExecuteEvent::Ran(outcome)).1
            == ExecuteAct::Perform(LaunchStage::ReturnLoan),
{
}

/// Only an application that succeeded leaves a script behind.
pub proof fn scripts_come_from_success(
    now: Circumstances,
    view: ExecutionView,
    event: ExecuteEvent,
)
    requires
        view.expects(event),
        view.step(now, event).1 == ExecuteAct::Perform(LaunchStage::Script),
    ensures
        view.step(now, event).0 matches ExecutionView::Launching { ending, .. } && ending == Some(
            Conclusion::Silent(CommandStatus::Success),
        ),
{
}

/// Lines are left only by a command that performed the stage of its script.
pub proof fn lines_come_from_scripts(view: ExecutionView, lines: Vec<String>)
    requires
        view.expects(ExecuteEvent::Scripted(lines)),
    ensures
        view matches ExecutionView::Launching { stages, at, .. } && stages[at]
            == LaunchStage::Script,
{
}

/// An interpreter never runs in the background: its launch ends before a slot
/// is looked for.
pub proof fn interpreters_stay_in_the_foreground(
    now: Circumstances,
    requirements: Requirements,
)
    requires
        now.background,
        requirements.shell_script,
    ensures
        ({
            let stages = setup_stages(requirements, true) + finish_stages(
                requirements,
                true,
                now.terminal,
            );
            let at = if requirements.diagnostics {
                2int
            } else {
                1
            };
            &&& stages[at] == LaunchStage::Interpreter
            &&& standing(true, stages, at, None).1 == ExecuteAct::End(
                Ending::Spoken(
                    "interpreter applications require the foreground session",
                    CommandStatus::Failure,
                ),
            )
        }),
{
    let setup = setup_stages(requirements, true);
    let at = if requirements.diagnostics {
        2int
    } else {
        1
    };
    assert(setup[at] == LaunchStage::Interpreter);
}

/// A command ends with the status of its application: silently with the status
/// of its exit code, spoken of as a failure where it faulted. A job that was
/// started succeeds. Only success leaves a script to take over.
pub proof fn commands_end_as_their_application(
    now: Circumstances,
    stages: Seq<LaunchStage>,
    outcome: Option<ApplicationOutcome>,
    message: &'static str,
    status: CommandStatus,
)
    ensures
        conclusion_ending(None) == Ending::Silent(CommandStatus::Success),
        conclusion_ending(Some(Conclusion::Silent(status))) == Ending::Silent(status),
        conclusion_ending(Some(Conclusion::Spoken(message))) == Ending::Spoken(
            message,
            CommandStatus::Failure,
        ),
        is_skipped(LaunchStage::Script, Some(Conclusion::Silent(status))) == (status
            != CommandStatus::Success),
        is_skipped(LaunchStage::Script, Some(Conclusion::Spoken(message))),
        stages.len() == 1 && stages[0] == LaunchStage::Run ==> (ExecutionView::Launching {
            stages,
            at: 0,
            ending: None,
        }).step(now, ExecuteEvent::Ran(outcome)).1 == ExecuteAct::End(
            match outcome {
                Some(ApplicationOutcome::Exited(code)) => Ending::Silent(
                    status_of(now.codes, code),
                ),
                Some(ApplicationOutcome::Faulted(fault)) => Ending::Spoken(
                    fault_text(fault),
                    CommandStatus::Failure,
                ),
                None => Ending::Spoken("application rejected", CommandStatus::Failure),
            },
        ),
{
}

/// A stage that fails ends the command as that stage fails: with its message
/// and as a failure, after tearing the application down, silently, or for good.
pub proof fn failed_stages_end_the_command(
    now: Circumstances,
    stages: Seq<LaunchStage>,
    at: int,
    ending: Option<Conclusion>,
)
    requires
        0 <= at < stages.len(),
    ensures
        ({
            let next = (ExecutionView::Launching { stages, at, ending }).step(
                now,
                ExecuteEvent::Failed,
            );
            &&& next.0 == ExecutionView::Over
            &&& (failure_of(stages[at], now.background) matches LaunchFailure::Report(message)
                ==> next.1 == ExecuteAct::End(Ending::Spoken(message, CommandStatus::Failure)))
            &&& (failure_of(stages[at], now.background) matches LaunchFailure::TearDown(message)
                ==> next.1 == ExecuteAct::End(Ending::TearDown(message)))
            &&& (failure_of(stages[at], now.background) matches LaunchFailure::Fatal(message)
                ==> next.1 == ExecuteAct::End(Ending::Fatal(message)))
            &&& (failure_of(stages[at], now.background) is Silent ==> next.1 == ExecuteAct::End(
                Ending::Silent(CommandStatus::Failure),
            ))
        }),
{
}

/// A stage that was done leads to the next one; after the last the command is
/// over.
pub proof fn stages_are_performed_in_turn(
    now: Circumstances,
    stages: Seq<LaunchStage>,
    at: int,
    ending: Option<Conclusion>,
)
    requires
        0 <= at < stages.len(),
    ensures
        ({
            let next = (ExecutionView::Launching { stages, at, ending }).step(
                now,
                ExecuteEvent::Done,
            );
            &&& at + 1 < stages.len() && stages[at + 1] != LaunchStage::Interpreter && stages[at
                + 1] != LaunchStage::Script ==> next == (
                ExecutionView::Launching { stages, at: at + 1, ending },
                ExecuteAct::Perform(stages[at + 1]),
            )
            &&& at + 1 == stages.len() ==> next == (
                ExecutionView::Over,
                ExecuteAct::End(conclusion_ending(ending)),
            )
            &&& at + 1 < stages.len() && stages[at + 1] == LaunchStage::Script && ending == Some(
                Conclusion::Silent(CommandStatus::Success),
            ) ==> next.1 == ExecuteAct::Perform(LaunchStage::Script)
        }),
{
}

/// A command is looked up, placed and read before anything else is done, in this
/// order, and ends where one of these fails: a name that no program has is not a
/// command of this kind, and what the manifest is refused for is said.
pub proof fn commands_are_read_before_they_are_launched(
    now: Circumstances,
    requirements: Requirements,
    message: &'static str,
)
    ensures
        ExecutionView::Looking.step(now, ExecuteEvent::Looked(Lookup::File)) == (
            ExecutionView::Placing,
            ExecuteAct::Place,
        ),
        ExecutionView::Placing.step(now, ExecuteEvent::Placed(true)) == (
            ExecutionView::Reading,
            ExecuteAct::ReadPackage,
        ),
        ExecutionView::Placing.step(now, ExecuteEvent::Placed(false)).1 == ExecuteAct::End(
            Ending::Spoken("application placement failed", CommandStatus::Failure),
        ),
        ExecutionView::Reading.step(now, ExecuteEvent::BadPackage).1 == ExecuteAct::End(
            Ending::Spoken("application package rejected", CommandStatus::Failure),
        ),
        ExecutionView::Reading.step(now, ExecuteEvent::Admitted(Err(message))).1
            == ExecuteAct::End(Ending::Spoken(message, CommandStatus::Failure)),
        now.reference == Reference::CatalogName ==> ExecutionView::Looking.step(
            now,
            ExecuteEvent::Looked(Lookup::Missing),
        ).1 == ExecuteAct::End(Ending::NotExternal),
        now.reference == Reference::Path ==> ExecutionView::Looking.step(
            now,
            ExecuteEvent::Looked(Lookup::Missing),
        ).1 == ExecuteAct::End(Ending::Spoken("not found", CommandStatus::NotFound)),
        ({
            let first = ExecutionView::Reading.step(now, ExecuteEvent::Admitted(Ok(requirements)));
            let stages = setup_stages(requirements, now.background) + finish_stages(
                requirements,
                now.background,
                now.terminal,
            );
            &&& first.0 == (ExecutionView::Launching { stages, at: 0, ending: None })
            &&& first.1 == ExecuteAct::Perform(
                if requirements.diagnostics {
                    LaunchStage::Snapshot
                } else {
                    LaunchStage::MemoryReport
                },
            )
        }),
{
    let setup = setup_stages(requirements, now.background);
    assert(setup[0] == if requirements.diagnostics {
        LaunchStage::Snapshot
    } else {
        LaunchStage::MemoryReport
    });
}

} // verus!
