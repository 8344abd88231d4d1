//! The cooperative services that run before anything else.

use crate::boot::arena::{
    BootMemory, SERVER_TASK_STACK_PAGES, SHELL_TASK_STACK_PAGES, TASK_STACK_PAGES,
};
use vstd::prelude::*;

verus! {

/// What a task asks for at the end of a step.
#[derive(Clone, Copy, Debug, PartialEq, Eq, Structural)]
pub enum TaskStep {
    /// Run again later.
    Yield,
    /// End with success.
    ExitSuccess,
    /// End with failure.
    ExitFailure,
}

/// A service that yields a number of times and then ends.
#[derive(Clone, Copy, Debug, PartialEq, Eq, Structural)]
pub struct CooperativeService {
    /// Yields to come.
    pub remaining_yields: u8,
    /// Steps done.
    pub completed_steps: u8,
}

/// A service after one step.
pub open spec fn stepped(service: CooperativeService) -> (CooperativeService, TaskStep) {
    let completed_steps = if service.completed_steps < 255 {
        (service.completed_steps + 1) as u8
    } else {
        255u8
    };
    if service.remaining_yields == 0 {
        (CooperativeService { completed_steps, ..service }, TaskStep::ExitSuccess)
    } else {
        (
            CooperativeService {
                remaining_yields: (service.remaining_yields - 1) as u8,
                completed_steps,
            },
            TaskStep::Yield,
        )
    }
}

/// One step of a service.
pub fn cooperative_service_step(service: &mut CooperativeService) -> (step: TaskStep)
    ensures
        stepped(*old(service)) == (*final(service), step),
{
    service.completed_steps = service.completed_steps.saturating_add(1);
    if service.remaining_yields == 0 {
        TaskStep::ExitSuccess
    } else {
        service.remaining_yields = service.remaining_yields - 1;
        TaskStep::Yield
    }
}

/// A service after `n` steps.
pub open spec fn after_steps(service: CooperativeService, n: nat) -> CooperativeService
    decreases n,
{
    if n == 0 {
        service
    } else {
        stepped(after_steps(service, (n - 1) as nat)).0
    }
}

/// A service with `yields` yields ends with success in its step after them,
/// and in no earlier one.
pub proof fn service_ends_after_its_yields(yields: u8, n: nat)
    requires
        n <= yields < 255,
    ensures
        ({
            let service = CooperativeService { remaining_yields: yields, completed_steps: 0 };
            let before = after_steps(service, n);
            &&& before.remaining_yields == yields - n
            &&& before.completed_steps == n
            &&& stepped(before).1 == (if n == yields {
                TaskStep::ExitSuccess
            } else {
                TaskStep::Yield
            })
        }),
    decreases n,
{
    if n > 0 {
        service_ends_after_its_yields(yields, (n - 1) as nat);
    }
}

/// What to do with a task after a step.
#[derive(Clone, Copy, Debug, PartialEq, Eq, Structural)]
pub enum TaskAction {
    /// Put it back into the queue.
    Requeue,
    /// End it with a status and collect it; the status must come back.
    Reap(u32),
}

/// Decide what becomes of a task after a step.
pub fn after_task_step(step: TaskStep) -> (action: TaskAction)
    ensures
        action == (match step {
            TaskStep::Yield => TaskAction::Requeue,
            TaskStep::ExitSuccess => TaskAction::Reap(0),
            TaskStep::ExitFailure => TaskAction::Reap(1),
        }),
{
    match step {
        TaskStep::Yield => TaskAction::Requeue,
        TaskStep::ExitSuccess => TaskAction::Reap(0),
        TaskStep::ExitFailure => TaskAction::Reap(1),
    }
}

/// Whether every task stack has its size and its guards.
pub fn task_stacks_are_guarded(memory: &BootMemory) -> (yes: bool)
    ensures
        yes == (memory.task_stack.guards(TASK_STACK_PAGES as int) && memory.server_stack.guards(
            SERVER_TASK_STACK_PAGES as int,
        ) && memory.shell_stack.guards(SHELL_TASK_STACK_PAGES as int)),
{
    memory.task_stack.is_guarded(TASK_STACK_PAGES) && memory.server_stack.is_guarded(
        SERVER_TASK_STACK_PAGES,
    ) && memory.shell_stack.is_guarded(SHELL_TASK_STACK_PAGES)
}

/// Which of the services is dispatched.
#[derive(Clone, Copy, Debug, PartialEq, Eq, Structural)]
pub enum Dispatched {
    /// The first service.
    First,
    /// The second service.
    Second,
    /// The service that reuses a stack.
    Reused,
    /// Anything else, or nothing.
    Other,
}

/// Scheduler totals.
#[derive(Clone, Copy, Debug, PartialEq, Eq, Structural)]
pub struct SchedulerTotals {
    /// Yields so far.
    pub yields: u64,
    /// Collected tasks so far.
    pub reaped: u64,
    /// Stack pages in use.
    pub owned_stack_pages: u64,
}

/// What the run of the services does next.
#[derive(Clone, Copy, Debug, PartialEq, Eq, Structural)]
pub enum ServiceAction {
    /// Spawn the first service in slot 0.
    SpawnFirst,
    /// Spawn the second service in slot 1.
    SpawnSecond,
    /// Dispatch a service.
    Dispatch,
    /// Go over to the stack in a slot and step the service.
    Step {
        /// Service.
        who: Dispatched,
        /// Slot.
        slot: u32,
    },
    /// Put the service back into the queue.
    Requeue,
    /// End the service with a status and collect it.
    Reap(u32),
    /// Read the scheduler's totals.
    Count,
    /// Spawn a third service on the stack in this slot.
    SpawnReused(u32),
    /// Everything went as planned.
    Passed,
    /// Something did not.
    Failed,
}

/// What happened.
#[derive(Clone, Copy, Debug, PartialEq, Eq, Structural)]
pub enum ServiceEvent {
    /// It was done.
    Done,
    /// It failed.
    Failed,
    /// A service was dispatched.
    Dispatched(Dispatched),
    /// The stack was entered; the service makes its step.
    Entered,
    /// A service was collected.
    Reaped {
        /// Slot of its stack.
        slot: u32,
        /// Its exit status.
        status: u32,
    },
    /// The totals were read.
    Totals(SchedulerTotals),
}

/// Task stacks of the machine.
pub const TASK_STACKS: u32 = 3;

/// The run of the cooperative services: two services that take turns, then a
/// third on the stack of the one that ended first.
#[derive(Clone, Copy, Debug, PartialEq, Eq, Structural)]
pub struct ServiceRun {
    /// First service.
    pub first: CooperativeService,
    /// Second service.
    pub second: CooperativeService,
    /// Third service.
    pub third: CooperativeService,
    /// Services of the first two that ended.
    pub completed: u8,
    /// Stack slot of the service that ended first.
    pub reusable: Option<u32>,
    /// Whether the third service was spawned.
    pub reusing: bool,
    /// What is being done.
    pub doing: ServiceAction,
}

impl ServiceRun {
    /// Two services with two and three yields; they run only on guarded
    /// stacks.
    pub fn start(memory: &BootMemory) -> (run: Self)
        ensures
            run == (ServiceRun {
                first: CooperativeService { remaining_yields: 2, completed_steps: 0 },
                second: CooperativeService { remaining_yields: 3, completed_steps: 0 },
                third: CooperativeService { remaining_yields: 0, completed_steps: 0 },
                completed: 0,
                reusable: None,
                reusing: false,
                doing: if memory.task_stack.guards(TASK_STACK_PAGES as int)
                    && memory.server_stack.guards(SERVER_TASK_STACK_PAGES as int)
                    && memory.shell_stack.guards(SHELL_TASK_STACK_PAGES as int) {
                    ServiceAction::SpawnFirst
                } else {
                    ServiceAction::Failed
                },
            }),
            run.well_formed(),
    {
        ServiceRun {
            first: CooperativeService { remaining_yields: 2, completed_steps: 0 },
            second: CooperativeService { remaining_yields: 3, completed_steps: 0 },
            third: CooperativeService { remaining_yields: 0, completed_steps: 0 },
            completed: 0,
            reusable: None,
            reusing: false,
            doing: if task_stacks_are_guarded(memory) {
                ServiceAction::SpawnFirst
            } else {
                ServiceAction::Failed
            },
        }
    }

    /// Whether the parts fit together: the third service runs only once the
    /// first two did all their steps.
    pub open spec fn well_formed(self) -> bool {
        &&& self.third.remaining_yields == 0
        &&& self.completed <= 2
        &&& self.completed > 0 ==> self.reusable is Some
        &&& self.reusing || self.doing is SpawnReused ==> {
            &&& self.completed == 2
            &&& self.first.completed_steps == 3
            &&& self.second.completed_steps == 4
        }
        &&& self.doing matches ServiceAction::SpawnReused(slot) ==> self.reusable == Some(slot)
        &&& self.doing matches ServiceAction::Step { who, .. } ==> who != Dispatched::Other && (
        who == Dispatched::Reused) == self.reusing
        &&& match self.doing {
            ServiceAction::SpawnFirst
            | ServiceAction::SpawnSecond => self.completed == 0 && !self.reusing,
            ServiceAction::Dispatch
            | ServiceAction::Step { .. }
            | ServiceAction::Requeue
            | ServiceAction::Reap(_) => self.completed < 2 || self.reusing,
            ServiceAction::Count => self.completed == 2,
            ServiceAction::SpawnReused(_) => !self.reusing,
            ServiceAction::Passed => self.reusing,
            ServiceAction::Failed => true,
        }
    }

    /// Whether an event answers what is being done.
    pub open spec fn expects(self, event: ServiceEvent) -> bool {
        match self.doing {
            ServiceAction::Passed | ServiceAction::Failed => false,
            ServiceAction::Dispatch => event is Dispatched || event is Failed,
            ServiceAction::Step { .. } => event is Entered || event is Failed,
            ServiceAction::Reap(_) => event is Reaped || event is Failed,
            ServiceAction::Count => event is Totals || event is Failed,
            _ => event is Done || event is Failed,
        }
    }

    /// What follows a dispatch: a service steps on its own stack, and only a
    /// third service, once there is one, on the reused stack.
    pub open spec fn after_dispatch(self, who: Dispatched) -> ServiceAction {
        match who {
            Dispatched::First if !self.reusing => ServiceAction::Step { who, slot: 0 },
            Dispatched::Second if !self.reusing => ServiceAction::Step { who, slot: 1 },
            Dispatched::Reused if self.reusing => match self.reusable {
                Some(slot) if slot < TASK_STACKS => ServiceAction::Step { who, slot },
                _ => ServiceAction::Failed,
            },
            _ => ServiceAction::Failed,
        }
    }

    /// The run after a step of a service.
    pub open spec fn after_step(self, who: Dispatched) -> ServiceRun {
        let service = match who {
            Dispatched::First => self.first,
            Dispatched::Second => self.second,
            _ => self.third,
        };
        let (after, step) = stepped(service);
        let doing = match step {
            TaskStep::Yield => ServiceAction::Requeue,
            TaskStep::ExitSuccess => ServiceAction::Reap(0),
            TaskStep::ExitFailure => ServiceAction::Reap(1),
        };
        match who {
            Dispatched::First => ServiceRun { first: after, doing, ..self },
            Dispatched::Second => ServiceRun { second: after, doing, ..self },
            _ => ServiceRun { third: after, doing, ..self },
        }
    }

    /// The run after a service with the wanted status was collected.
    pub open spec fn after_reap(self, wanted: u32, slot: u32, status: u32) -> ServiceRun {
        if status != wanted {
            ServiceRun { doing: ServiceAction::Failed, ..self }
        } else if self.reusing {
            ServiceRun { doing: ServiceAction::Count, ..self }
        } else {
            ServiceRun {
                completed: (self.completed + 1) as u8,
                reusable: if self.reusable is None {
                    Some(slot)
                } else {
                    self.reusable
                },
                doing: if self.completed + 1 < 2 {
                    ServiceAction::Dispatch
                } else {
                    ServiceAction::Count
                },
                ..self
            }
        }
    }

    /// What follows the totals: five yields and two collected services first,
    /// three collected services in the end, and no stack in use either time.
    pub open spec fn after_totals(self, totals: SchedulerTotals) -> ServiceAction {
        if self.reusing {
            if totals.reaped == 3 && totals.owned_stack_pages == 0 {
                ServiceAction::Passed
            } else {
                ServiceAction::Failed
            }
        } else {
            match self.reusable {
                Some(slot) if totals == (SchedulerTotals {
                    yields: 5,
                    reaped: 2,
                    owned_stack_pages: 0,
                }) && self.first.completed_steps == 3 && self.second.completed_steps == 4 =>
                    ServiceAction::SpawnReused(slot),
                _ => ServiceAction::Failed,
            }
        }
    }

    /// The run after an event.
    pub open spec fn next(self, event: ServiceEvent) -> ServiceRun {
        match event {
            ServiceEvent::Failed => ServiceRun { doing: ServiceAction::Failed, ..self },
            ServiceEvent::Dispatched(who) => ServiceRun { doing: self.after_dispatch(who), ..self },
            ServiceEvent::Entered => match self.doing {
                ServiceAction::Step { who, .. } => self.after_step(who),
                _ => self,
            },
            ServiceEvent::Reaped { slot, status } => match self.doing {
                ServiceAction::Reap(wanted) => self.after_reap(wanted, slot, status),
                _ => self,
            },
            ServiceEvent::Totals(totals) => ServiceRun { doing: self.after_totals(totals), ..self },
            ServiceEvent::Done => match self.doing {
                ServiceAction::SpawnFirst => ServiceRun {
                    doing: ServiceAction::SpawnSecond,
                    ..self
                },
                ServiceAction::SpawnReused(_) => ServiceRun {
                    reusing: true,
                    doing: ServiceAction::Dispatch,
                    ..self
                },
                ServiceAction::Requeue if self.reusing => ServiceRun {
                    doing: ServiceAction::Failed,
                    ..self
                },
                _ => ServiceRun { doing: ServiceAction::Dispatch, ..self },
            },
        }
    }

    fn step_service(&mut self, who: Dispatched)
        ensures
            *final(self) == old(self).after_step(who),
    {
        let step = match who {
            Dispatched::First => cooperative_service_step(&mut self.first),
            Dispatched::Second => cooperative_service_step(&mut self.second),
            _ => cooperative_service_step(&mut self.third),
        };
        self.doing = match after_task_step(step) {
            TaskAction::Requeue => ServiceAction::Requeue,
            TaskAction::Reap(status) => ServiceAction::Reap(status),
        };
    }

    fn dispatch(&self, who: Dispatched) -> (action: ServiceAction)
        ensures
            action == self.after_dispatch(who),
    {
        match who {
            Dispatched::First => if !self.reusing {
                ServiceAction::Step { who, slot: 0 }
            } else {
                ServiceAction::Failed
            },
            Dispatched::Second => if !self.reusing {
                ServiceAction::Step { who, slot: 1 }
            } else {
                ServiceAction::Failed
            },
            Dispatched::Reused => match self.reusable {
                Some(slot) => if self.reusing && slot < TASK_STACKS {
                    ServiceAction::Step { who, slot }
                } else {
                    ServiceAction::Failed
                },
                None => ServiceAction::Failed,
            },
            Dispatched::Other => ServiceAction::Failed,
        }
    }

    fn reap(&mut self, wanted: u32, slot: u32, status: u32)
        requires
            old(self).completed < 2 || old(self).reusing,
        ensures
            *final(self) == old(self).after_reap(wanted, slot, status),
    {
        if status != wanted {
            self.doing = ServiceAction::Failed;
        } else if self.reusing {
            self.doing = ServiceAction::Count;
        } else {
            self.completed = self.completed + 1;
            if self.reusable.is_none() {
                self.reusable = Some(slot);
            }
            self.doing = if self.completed < 2 {
                ServiceAction::Dispatch
            } else {
                ServiceAction::Count
            };
        }
    }

    fn judge(&self, totals: SchedulerTotals) -> (action: ServiceAction)
        ensures
            action == self.after_totals(totals),
    {
        if self.reusing {
            return if totals.reaped == 3 && totals.owned_stack_pages == 0 {
                ServiceAction::Passed
            } else {
                ServiceAction::Failed
            };
        }
        match self.reusable {
            Some(slot) => if totals.yields == 5 && totals.reaped == 2 && totals.owned_stack_pages
                == 0 && self.first.completed_steps == 3 && self.second.completed_steps == 4 {
                ServiceAction::SpawnReused(slot)
            } else {
                ServiceAction::Failed
            },
            None => ServiceAction::Failed,
        }
    }

    /// Take an event and go on.
    pub fn observe(&mut self, event: ServiceEvent) -> (action: ServiceAction)
        requires
            old(self).well_formed(),
            old(self).expects(event),
        ensures
            final(self).well_formed(),
            *final(self) == old(self).next(event),
            action == final(self).doing,
    {
        match event {
            ServiceEvent::Failed => {
                self.doing = ServiceAction::Failed;
            },
            ServiceEvent::Dispatched(who) => {
                self.doing = self.dispatch(who);
            },
            ServiceEvent::Entered => {
                match self.doing {
                    ServiceAction::Step { who, .. } => self.step_service(who),
                    _ => {},
                }
            },
            ServiceEvent::Reaped { slot, status } => {
                match self.doing {
                    ServiceAction::Reap(wanted) => self.reap(wanted, slot, status),
                    _ => {},
                }
            },
            ServiceEvent::Totals(totals) => {
                self.doing = self.judge(totals);
            },
            ServiceEvent::Done => {
                match self.doing {
                    ServiceAction::SpawnFirst => {
                        self.doing = ServiceAction::SpawnSecond;
                    },
                    ServiceAction::SpawnReused(_) => {
                        self.reusing = true;
                        self.doing = ServiceAction::Dispatch;
                    },
                    ServiceAction::Requeue => {
                        self.doing = if self.reusing {
                            ServiceAction::Failed
                        } else {
                            ServiceAction::Dispatch
                        };
                    },
                    _ => {
                        self.doing = ServiceAction::Dispatch;
                    },
                }
            },
        }
        self.doing
    }

    /// How many steps may still follow.
    pub open spec fn steps_left(self) -> int {
        let turns = 4 * self.first.remaining_yields + 4 * self.second.remaining_yields + 4 * (2
            - self.completed);
        let phase = if self.reusing {
            0int
        } else {
            8
        };
        let rest = match self.doing {
            ServiceAction::SpawnFirst => 6int,
            ServiceAction::SpawnSecond => 5,
            ServiceAction::Dispatch => 4,
            ServiceAction::Step { .. } => 3,
            ServiceAction::Requeue => 5,
            ServiceAction::Reap(_) => 2,
            ServiceAction::Count => 1,
            ServiceAction::SpawnReused(_) => 0,
            ServiceAction::Passed | ServiceAction::Failed => 0,
        };
        if self.doing is Passed || self.doing is Failed {
            0
        } else {
            1 + turns + phase + rest
        }
    }
}

/// The services come to an end: each event leaves fewer steps.
pub proof fn services_come_to_an_end(run: ServiceRun, event: ServiceEvent)
    requires
        run.well_formed(),
        run.expects(event),
    ensures
        0 <= run.next(event).steps_left() < run.steps_left(),
{
}

/// Where the run passes, the first two services did all their steps before the
/// third one started, and the third one ran on the stack of the service that
/// ended first.
pub proof fn passed_services_did_their_steps(run: ServiceRun)
    requires
        run.well_formed(),
        run.doing is Passed,
    ensures
        run.first.completed_steps == 3,
        run.second.completed_steps == 4,
        run.reusable is Some,
{
}

/// A service yields as often as it was told to and exits with success; each step
/// is counted once.
pub proof fn services_yield_as_often_as_told(service: CooperativeService)
    ensures
        ({
            let (after, step) = stepped(service);
            &&& step == if service.remaining_yields > 0 {
                TaskStep::Yield
            } else {
                TaskStep::ExitSuccess
            }
            &&& service.remaining_yields > 0 ==> after.remaining_yields
                == service.remaining_yields - 1
            &&& service.remaining_yields == 0 ==> after.remaining_yields == 0
            &&& service.completed_steps < 255 ==> after.completed_steps == service.completed_steps
                + 1
        }),
{
}

/// Each service runs on the stack of its own slot, and the third on the one that
/// was given back first. Services that yield are queued again, those that exit
/// are reaped with their status, and any other status fails the run. The third
/// is started only after five yields and two reaped services that left no page,
/// and the run passes only with three.
pub proof fn services_run_on_their_own_stacks(
    run: ServiceRun,
    slot: u32,
    status: u32,
    totals: SchedulerTotals,
)
    ensures
        !run.reusing ==> run.after_dispatch(Dispatched::First) == (ServiceAction::Step {
            who: Dispatched::First,
            slot: 0,
        }),
        !run.reusing ==> run.after_dispatch(Dispatched::Second) == (ServiceAction::Step {
            who: Dispatched::Second,
            slot: 1,
        }),
        run.reusing && run.reusable == Some(slot) && slot < 3 ==> run.after_dispatch(
            Dispatched::Reused,
        ) == (ServiceAction::Step { who: Dispatched::Reused, slot }),
        run.after_dispatch(Dispatched::Other) == ServiceAction::Failed,
        run.reusing ==> run.after_dispatch(Dispatched::First) == ServiceAction::Failed
            && run.after_dispatch(Dispatched::Second) == ServiceAction::Failed,
        !run.reusing ==> run.after_dispatch(Dispatched::Reused) == ServiceAction::Failed,
        run.first.remaining_yields > 0 ==> run.after_step(Dispatched::First).doing
            == ServiceAction::Requeue,
        run.first.remaining_yields == 0 ==> run.after_step(Dispatched::First).doing
            == ServiceAction::Reap(0),
        run.after_step(Dispatched::First).second == run.second,
        run.after_step(Dispatched::Second).first == run.first,
        run.second.remaining_yields > 0 ==> run.after_step(Dispatched::Second).doing
            == ServiceAction::Requeue,
        status != 0 ==> run.after_reap(0, slot, status).doing == ServiceAction::Failed,
        !run.reusing && run.reusable is None ==> run.after_reap(0, slot, 0).reusable == Some(slot),
        !run.reusing && run.reusable is Some ==> run.after_reap(0, slot, 0).reusable
            == run.reusable,
        run.reusing ==> (run.after_totals(totals) == ServiceAction::Passed <==> totals.reaped == 3
            && totals.owned_stack_pages == 0),
        !run.reusing ==> (run.after_totals(totals) is SpawnReused <==> run.reusable is Some
            && totals.yields == 5 && totals.reaped == 2 && totals.owned_stack_pages == 0
            && run.first.completed_steps == 3 && run.second.completed_steps == 4),
{
}

} // verus!
