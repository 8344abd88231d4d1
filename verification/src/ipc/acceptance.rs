//! The whole acceptance: every measured run, then every behaviour.

use crate::ipc::baseline::{planned, planned_runs, PlannedRun};
use crate::ipc::fates::{behaviours, fate_opcodes};
use vstd::prelude::*;

verus! {

/// What the acceptance does next.
#[derive(Clone, Copy, Debug, PartialEq, Eq, Structural)]
pub enum AcceptAction {
    /// Check the pool of channels.
    CheckPool,
    /// Make a measured run; `size` is the position of its message size among
    /// all sizes.
    Measure {
        /// Run.
        plan: PlannedRun,
        /// Position of its size.
        size: usize,
    },
    /// Try a behaviour.
    Try(u16),
    /// Print the report.
    Report,
    /// Everything is accepted.
    Passed,
    /// Something is not.
    Failed,
}

/// The acceptance.
#[derive(Clone, Copy, Debug, PartialEq, Eq, Structural)]
pub struct AcceptRun {
    /// Runs measured.
    pub measured: usize,
    /// Behaviours tried.
    pub tried: usize,
    /// What is being done.
    pub doing: AcceptAction,
}

/// What follows this many measured runs and tried behaviours.
pub open spec fn due(measured: int, tried: int) -> AcceptAction {
    if measured < planned().len() {
        AcceptAction::Measure { plan: planned()[measured], size: (measured / 2) as usize }
    } else if tried < behaviours().len() {
        AcceptAction::Try(behaviours()[tried])
    } else {
        AcceptAction::Report
    }
}

fn what_is_due(measured: usize, tried: usize) -> (action: AcceptAction)
    ensures
        action == due(measured as int, tried as int),
{
    let runs = planned_runs();
    if measured < runs.len() {
        return AcceptAction::Measure { plan: runs[measured], size: measured / 2 };
    }
    let opcodes = fate_opcodes();
    if tried < opcodes.len() {
        AcceptAction::Try(opcodes[tried])
    } else {
        AcceptAction::Report
    }
}

impl AcceptRun {
    /// Start the acceptance.
    pub fn start() -> (run: Self)
        ensures
            run == (AcceptRun { measured: 0, tried: 0, doing: AcceptAction::CheckPool }),
            run.well_formed(),
    {
        AcceptRun { measured: 0, tried: 0, doing: AcceptAction::CheckPool }
    }

    /// Whether the counts fit what is being done.
    pub open spec fn well_formed(self) -> bool {
        &&& self.measured <= planned().len()
        &&& self.tried <= behaviours().len()
        &&& match self.doing {
            AcceptAction::CheckPool => self.measured == 0 && self.tried == 0,
            AcceptAction::Measure { .. } => self.measured < planned().len() && self.tried == 0
                && self.doing == due(self.measured as int, 0),
            AcceptAction::Try(opcode) => self.measured == planned().len() && self.tried
                < behaviours().len() && opcode == behaviours()[self.tried as int],
            AcceptAction::Report | AcceptAction::Passed => self.measured == planned().len()
                && self.tried == behaviours().len(),
            AcceptAction::Failed => true,
        }
    }

    /// The run after a step that went well or not.
    pub open spec fn next(self, passed: bool) -> AcceptRun {
        let measured = self.measured + if self.doing is Measure {
            1int
        } else {
            0
        };
        let tried = self.tried + if self.doing is Try {
            1int
        } else {
            0
        };
        if !passed {
            AcceptRun { doing: AcceptAction::Failed, ..self }
        } else if self.doing is Report {
            AcceptRun { doing: AcceptAction::Passed, ..self }
        } else {
            AcceptRun {
                measured: measured as usize,
                tried: tried as usize,
                doing: due(measured, tried),
            }
        }
    }

    /// Go on after a step that went well or not.
    pub fn observe(&mut self, passed: bool) -> (action: AcceptAction)
        requires
            old(self).well_formed(),
            !(old(self).doing is Passed),
            !(old(self).doing is Failed),
        ensures
            final(self).well_formed(),
            *final(self) == old(self).next(passed),
            action == final(self).doing,
    {
        if !passed {
            self.doing = AcceptAction::Failed;
            return self.doing;
        }
        match self.doing {
            AcceptAction::Report => {
                self.doing = AcceptAction::Passed;
                return self.doing;
            },
            AcceptAction::Measure { .. } => {
                self.measured = self.measured + 1;
            },
            AcceptAction::Try(_) => {
                self.tried = self.tried + 1;
            },
            _ => {},
        }
        self.doing = what_is_due(self.measured, self.tried);
        self.doing
    }
}

/// Acceptance takes every measured run and every behaviour.
pub proof fn acceptance_is_complete(run: AcceptRun)
    requires
        run.well_formed(),
        run.doing is Passed,
    ensures
        run.measured == planned().len(),
        run.tried == behaviours().len(),
{
}

/// Acceptance measures each planned run in turn, then tries each behaviour in
/// turn, and then reports. A step that fails ends it.
pub proof fn acceptance_goes_in_order(run: AcceptRun)
    requires
        run.well_formed(),
    ensures
        run.next(false).doing == AcceptAction::Failed,
        run.doing == AcceptAction::CheckPool ==> run.next(true).doing == (AcceptAction::Measure {
            plan: planned()[0],
            size: 0,
        }),
        run.doing is Measure && run.measured + 1 < 8 ==> (run.next(true).doing matches
            AcceptAction::Measure { plan, size } && plan == planned()[run.measured + 1] && size == (
        run.measured + 1) / 2),
        run.doing is Measure && run.measured + 1 == 8 ==> run.next(true).doing
            == AcceptAction::Try(3),
        run.doing is Try && run.tried + 1 < 12 ==> run.next(true).doing == AcceptAction::Try(
            behaviours()[run.tried + 1],
        ),
        run.doing is Try && run.tried + 1 == 12 ==> run.next(true).doing == AcceptAction::Report,
        run.doing == AcceptAction::Report ==> run.next(true).doing == AcceptAction::Passed,
{
}

} // verus!
