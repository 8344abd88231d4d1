//! Requests that probed programs make of the scheduler, and the replies that
//! they expect.

use crate::memory::isolated::USER_DATA_BASE;
use crate::probe::layout::{FIRST_TX, SECOND_TX};
use vstd::prelude::*;

verus! {

/// What a token names.
#[derive(Clone, Copy, Debug, PartialEq, Eq, Structural)]
pub enum Kind {
    /// A thread.
    Thread,
    /// A mutex.
    Mutex,
    /// A condition.
    Condition,
    /// A permit.
    Permit,
}

/// Name of a thread or an object.
#[derive(Clone, Copy, Debug, PartialEq, Eq, Structural)]
pub struct Token {
    /// What it names.
    pub kind: Kind,
    /// Slot.
    pub slot: u32,
    /// Incarnation of the slot.
    pub generation: u32,
}

/// The token of a slot. Fails where the slot number does not fit.
pub fn identity(kind: Kind, slot: u64, generation: u32) -> (token: Option<Token>)
    ensures
        match token {
            Some(t) => t.kind == kind && t.slot == slot && t.generation == generation,
            None => slot > u32::MAX,
        },
{
    if slot > u32::MAX as u64 {
        None
    } else {
        Some(Token { kind, slot: slot as u32, generation })
    }
}

/// How long a wait lasts.
#[derive(Clone, Copy, Debug, PartialEq, Eq, Structural)]
pub struct Wait {
    /// When it is over, if ever.
    pub deadline: Option<u64>,
    /// Whether a stop request ends it.
    pub observe_stop: bool,
}

/// Whether a request waits.
#[derive(Clone, Copy, Debug, PartialEq, Eq, Structural)]
pub enum WaitMode {
    /// It does not.
    Try,
    /// It does.
    Wait(Wait),
}

/// A wait without end.
pub open spec fn endless() -> Wait {
    Wait { deadline: None, observe_stop: true }
}

/// A wait that is over at once.
pub open spec fn expired() -> Wait {
    Wait { deadline: Some(0), observe_stop: true }
}

/// A request to the scheduler.
#[derive(Clone, Copy, Debug, PartialEq, Eq, Structural)]
pub enum Request {
    /// Lock a mutex.
    Lock {
        /// Mutex.
        mutex: Token,
        /// Whether it waits.
        wait: WaitMode,
    },
    /// Unlock a mutex.
    Unlock(Token),
    /// Unlock a mutex, wait for a condition, and lock the mutex again.
    ConditionWait {
        /// Condition.
        condition: Token,
        /// Mutex.
        mutex: Token,
        /// How long it waits.
        wait: Wait,
    },
    /// Wake waiters of a condition.
    Notify {
        /// Condition.
        condition: Token,
        /// Whether all of them.
        all: bool,
    },
    /// Take one of a permit.
    AcquirePermit {
        /// Permit.
        permit: Token,
        /// Whether it waits.
        wait: WaitMode,
    },
    /// Give back some of a permit.
    ReleasePermit {
        /// Permit.
        permit: Token,
        /// How many.
        count: u32,
    },
    /// Destroy a mutex.
    DestroyMutex(Token),
    /// Destroy a condition.
    DestroyCondition(Token),
    /// Destroy a permit.
    DestroyPermit(Token),
    /// Ask for the caller's own name.
    Current,
    /// Wait for the end of a thread.
    Join {
        /// Thread.
        thread: Token,
        /// Whether it waits.
        wait: WaitMode,
    },
    /// Revoke a prepared thread.
    Abort(Token),
    /// End the calling thread.
    Exit(u64),
    /// Prepare a thread.
    Prepare {
        /// Offset of its entry.
        entry_offset: u64,
        /// Its argument.
        argument: u64,
        /// Pages of its stack.
        stack_pages: u64,
    },
    /// Start a prepared thread.
    Start(Token),
}

/// Outcome of a request.
#[derive(Clone, Copy, Debug, PartialEq, Eq, Structural)]
pub enum Outcome {
    /// It did what it asked for.
    Success,
    /// Its time was over.
    TimedOut,
    /// A counter would have overflowed.
    Overflow,
    /// The object was not in the right state.
    InvalidState,
}

/// A reply that a program expects.
#[derive(Clone, Copy, Debug, PartialEq, Eq, Structural)]
pub struct Reply {
    /// Outcome.
    pub outcome: Outcome,
    /// Value.
    pub value: u64,
}

/// A request and its expected outcome.
#[derive(Clone, Copy, Debug, PartialEq, Eq, Structural)]
pub struct ScriptStep {
    /// Request.
    pub request: Request,
    /// Outcome.
    pub outcome: Outcome,
}

/// Most steps of a script.
pub const MAX_STEPS: usize = 16;

/// Bytes of an encoded step: its request and its reply.
pub const STEP_BYTES: u64 = 96;

/// Bytes of an encoded request.
pub const REQUEST_BYTES: u64 = 64;

/// Offset of the first thread's script in the data page.
pub const FIRST_SCRIPT: u64 = 0x100;

/// Offset of the sibling's script in the data page.
pub const SECOND_SCRIPT: u64 = 0x900;

/// A bounded list of steps.
#[derive(Debug)]
pub struct Script {
    steps: Vec<ScriptStep>,
}

impl View for Script {
    type V = Seq<ScriptStep>;

    closed spec fn view(&self) -> Seq<ScriptStep> {
        self.steps@
    }
}

impl Script {
    /// It is within its bound.
    pub open spec fn well_formed(self) -> bool {
        self@.len() <= MAX_STEPS
    }

    /// An empty script.
    pub fn new() -> (script: Script)
        ensures
            script@ == Seq::<ScriptStep>::empty(),
            script.well_formed(),
    {
        Script { steps: Vec::new() }
    }

    /// Add a step, if there is room.
    pub fn push(&mut self, request: Request, outcome: Outcome) -> (added: bool)
        requires
            old(self).well_formed(),
        ensures
            final(self).well_formed(),
            added == (old(self)@.len() < MAX_STEPS),
            final(self)@ == if added {
                old(self)@.push(ScriptStep { request, outcome })
            } else {
                old(self)@
            },
    {
        if self.steps.len() >= MAX_STEPS {
            return false;
        }
        self.steps.push(ScriptStep { request, outcome });
        true
    }

    /// A step, if there is one.
    pub fn get(&self, index: usize) -> (step: Option<ScriptStep>)
        ensures
            step == if index < self@.len() {
                Some(self@[index as int])
            } else {
                None
            },
    {
        if index < self.steps.len() {
            Some(self.steps[index])
        } else {
            None
        }
    }

    /// Number of steps.
    pub fn len(&self) -> (count: usize)
        ensures
            count == self@.len(),
    {
        self.steps.len()
    }
}

/// Where a script lies in the data page.
pub open spec fn script_offset(second: bool) -> u64 {
    if second {
        SECOND_SCRIPT
    } else {
        FIRST_SCRIPT
    }
}

/// Where a step of a script lies.
#[derive(Clone, Copy, Debug, PartialEq, Eq, Structural)]
pub struct Placement {
    /// Offset of the encoded request.
    pub request_at: u64,
    /// Offset of the encoded reply.
    pub reply_at: u64,
    /// The step.
    pub step: ScriptStep,
}

/// Where the steps of a script lie: one behind the other.
pub open spec fn placements(second: bool, script: Seq<ScriptStep>) -> Seq<Placement> {
    Seq::new(
        script.len(),
        |i: int|
            Placement {
                request_at: (script_offset(second) + 96 * i) as u64,
                reply_at: (script_offset(second) + 96 * i + 64) as u64,
                step: script[i],
            },
    )
}

/// Place the steps of a script; an empty script is refused.
pub fn place_script(second: bool, script: &Script) -> (places: Option<Vec<Placement>>)
    requires
        script.well_formed(),
    ensures
        match places {
            Some(p) => script@.len() > 0 && p@ == placements(second, script@),
            None => script@.len() == 0,
        },
{
    if script.len() == 0 {
        return None;
    }
    let base: u64 = if second {
        SECOND_SCRIPT
    } else {
        FIRST_SCRIPT
    };
    let mut places: Vec<Placement> = Vec::new();
    let ghost whole = placements(second, script@);
    let mut i: usize = 0;
    while i < script.steps.len()
        invariant
            i <= script.steps@.len(),
            script.well_formed(),
            script@ == script.steps@,
            base == script_offset(second),
            base <= 0x900,
            whole == placements(second, script@),
            places@ == whole.take(i as int),
        decreases script.steps@.len() - i,
    {
        let at: u64 = base + STEP_BYTES * (i as u64);
        places.push(
            Placement {
                request_at: at,
                reply_at: at + REQUEST_BYTES,
                step: script.steps[i],
            },
        );
        i = i + 1;
        assert(places@ =~= whole.take(i as int));
    }
    assert(whole.take(whole.len() as int) =~= whole);
    Some(places)
}

/// Steps of one script do not overlap one another or those of the other
/// script, and all lie in the data page.
pub proof fn scripts_do_not_overlap(
    first: Seq<ScriptStep>,
    second: Seq<ScriptStep>,
    i: int,
    j: int,
)
    requires
        first.len() <= MAX_STEPS,
        second.len() <= MAX_STEPS,
    ensures
        0 <= i < j < first.len() ==> placements(false, first)[i].request_at + STEP_BYTES
            <= placements(false, first)[j].request_at,
        0 <= i < first.len() && 0 <= j < second.len() ==> placements(false, first)[i].request_at
            + STEP_BYTES <= placements(true, second)[j].request_at,
        0 <= j < second.len() ==> placements(true, second)[j].request_at + STEP_BYTES <= 4096,
{
}

/// A word in a thread-local page.
#[derive(Clone, Copy, Debug, PartialEq, Eq, Structural)]
pub struct TlsWord {
    /// Whether the page is the sibling's.
    pub second: bool,
    /// Offset.
    pub offset: u64,
    /// Word.
    pub word: u64,
}

/// What a thread finds of its script: where it lies, the handle of the
/// scheduler, the number of steps, and whether it traps in the end.
pub open spec fn script_words(second: bool, steps: u64, handle: u64, trap: bool) -> Seq<TlsWord> {
    seq![
        TlsWord { second, offset: 8, word: (USER_DATA_BASE + script_offset(second)) as u64 },
        TlsWord { second, offset: 40, word: handle },
        TlsWord { second, offset: 48, word: steps },
        TlsWord {
            second,
            offset: 64,
            word: if trap {
                1
            } else {
                0
            },
        },
    ]
}

/// List what a thread finds of its script.
pub fn list_script_words(second: bool, steps: u64, handle: u64, trap: bool) -> (words: Vec<TlsWord>)
    ensures
        words@ == script_words(second, steps, handle, trap),
{
    let base: u64 = if second {
        SECOND_SCRIPT
    } else {
        FIRST_SCRIPT
    };
    let flag: u64 = if trap {
        1
    } else {
        0
    };
    let mut words: Vec<TlsWord> = Vec::new();
    words.push(TlsWord { second, offset: 8, word: USER_DATA_BASE + base });
    words.push(TlsWord { second, offset: 40, word: handle });
    words.push(TlsWord { second, offset: 48, word: steps });
    words.push(TlsWord { second, offset: 64, word: flag });
    assert(words@ =~= script_words(second, steps, handle, trap));
    words
}

/// An encoded request in the data page and the reply behind it.
#[derive(Clone, Copy, Debug, PartialEq, Eq, Structural)]
pub struct Line {
    /// Offset.
    pub offset: u64,
    /// Request.
    pub request: Request,
    /// Expected reply, if the caller lives to see one.
    pub reply: Option<Reply>,
}

/// The requests of a retirement probe: the worker exits with the largest
/// status; the sibling asks for its own name and joins or revokes the worker.
pub open spec fn retirement_lines(
    worker: Token,
    own_name: u64,
    abort: bool,
    started: bool,
) -> Seq<Line> {
    seq![
        Line { offset: 0x100, request: Request::Exit(u64::MAX), reply: None },
        Line {
            offset: 0x200,
            request: Request::Current,
            reply: Some(Reply { outcome: Outcome::Success, value: own_name }),
        },
        Line {
            offset: 0x260,
            request: if abort {
                Request::Abort(worker)
            } else {
                Request::Join { thread: worker, wait: WaitMode::Wait(endless()) }
            },
            reply: Some(
                Reply {
                    outcome: if started {
                        Outcome::InvalidState
                    } else {
                        Outcome::Success
                    },
                    value: if abort {
                        0
                    } else {
                        u64::MAX
                    },
                },
            ),
        },
    ]
}

/// List the requests of a retirement probe.
pub fn list_retirement_lines(worker: Token, own_name: u64, abort: bool, started: bool) -> (lines:
    Vec<Line>)
    ensures
        lines@ == retirement_lines(worker, own_name, abort, started),
{
    let mut lines: Vec<Line> = Vec::new();
    lines.push(Line { offset: 0x100, request: Request::Exit(u64::MAX), reply: None });
    lines.push(
        Line {
            offset: 0x200,
            request: Request::Current,
            reply: Some(Reply { outcome: Outcome::Success, value: own_name }),
        },
    );
    let request = if abort {
        Request::Abort(worker)
    } else {
        Request::Join {
            thread: worker,
            wait: WaitMode::Wait(Wait { deadline: None, observe_stop: true }),
        }
    };
    let outcome = if started {
        Outcome::InvalidState
    } else {
        Outcome::Success
    };
    let value: u64 = if abort {
        0
    } else {
        u64::MAX
    };
    lines.push(Line { offset: 0x260, request, reply: Some(Reply { outcome, value }) });
    assert(lines@ =~= retirement_lines(worker, own_name, abort, started));
    lines
}

/// What the threads of a retirement probe find: where their requests lie, the
/// handle of the scheduler, how many requests there are, their transmit page,
/// and the address that is touched in the end.
pub open spec fn retirement_words(handle: u64, touched: u64) -> Seq<TlsWord> {
    seq![
        TlsWord { second: false, offset: 8, word: (USER_DATA_BASE + 0x100) as u64 },
        TlsWord { second: false, offset: 40, word: handle },
        TlsWord { second: false, offset: 48, word: 1 },
        TlsWord { second: false, offset: 24, word: FIRST_TX },
        TlsWord { second: false, offset: 64, word: touched },
        TlsWord { second: true, offset: 8, word: (USER_DATA_BASE + 0x200) as u64 },
        TlsWord { second: true, offset: 40, word: handle },
        TlsWord { second: true, offset: 48, word: 2 },
        TlsWord { second: true, offset: 24, word: SECOND_TX },
        TlsWord { second: true, offset: 64, word: touched },
    ]
}

/// List what the threads of a retirement probe find.
pub fn list_retirement_words(handle: u64, touched: u64) -> (words: Vec<TlsWord>)
    ensures
        words@ == retirement_words(handle, touched),
{
    let mut words: Vec<TlsWord> = Vec::new();
    words.push(TlsWord { second: false, offset: 8, word: USER_DATA_BASE + 0x100 });
    words.push(TlsWord { second: false, offset: 40, word: handle });
    words.push(TlsWord { second: false, offset: 48, word: 1 });
    words.push(TlsWord { second: false, offset: 24, word: FIRST_TX });
    words.push(TlsWord { second: false, offset: 64, word: touched });
    words.push(TlsWord { second: true, offset: 8, word: USER_DATA_BASE + 0x200 });
    words.push(TlsWord { second: true, offset: 40, word: handle });
    words.push(TlsWord { second: true, offset: 48, word: 2 });
    words.push(TlsWord { second: true, offset: 24, word: SECOND_TX });
    words.push(TlsWord { second: true, offset: 64, word: touched });
    assert(words@ =~= retirement_words(handle, touched));
    words
}

/// The objects of a synchronization probe.
#[derive(Clone, Copy, Debug, PartialEq, Eq, Structural)]
pub struct SyncObjects {
    /// Mutex.
    pub mutex: Token,
    /// Condition.
    pub condition: Token,
    /// Permit of at most two.
    pub permit: Token,
}

/// A step.
pub open spec fn expect(request: Request, outcome: Outcome) -> ScriptStep {
    ScriptStep { request, outcome }
}

/// What the first thread asks: it takes the mutex; unless it is to trap, it
/// waits for the condition and for a permit, overfills and empties the
/// permit, lets two waits run out, and destroys everything.
pub open spec fn first_script(objects: SyncObjects, fault: bool) -> Seq<ScriptStep> {
    let mutex = objects.mutex;
    let condition = objects.condition;
    let permit = objects.permit;
    let lock = expect(Request::Lock { mutex, wait: WaitMode::Try }, Outcome::Success);
    if fault {
        seq![lock]
    } else {
        seq![
            lock,
            expect(
                Request::ConditionWait { condition, mutex, wait: endless() },
                Outcome::Success,
            ),
            expect(Request::Unlock(mutex), Outcome::Success),
            expect(
                Request::AcquirePermit { permit, wait: WaitMode::Wait(endless()) },
                Outcome::Success,
            ),
            expect(Request::ReleasePermit { permit, count: 2 }, Outcome::Success),
            expect(Request::ReleasePermit { permit, count: 1 }, Outcome::Overflow),
            expect(Request::AcquirePermit { permit, wait: WaitMode::Try }, Outcome::Success),
            expect(Request::AcquirePermit { permit, wait: WaitMode::Try }, Outcome::Success),
            expect(
                Request::AcquirePermit { permit, wait: WaitMode::Wait(expired()) },
                Outcome::TimedOut,
            ),
            expect(Request::Lock { mutex, wait: WaitMode::Try }, Outcome::Success),
            expect(
                Request::ConditionWait { condition, mutex, wait: expired() },
                Outcome::TimedOut,
            ),
            expect(Request::Unlock(mutex), Outcome::Success),
            expect(Request::DestroyCondition(condition), Outcome::Success),
            expect(Request::DestroyMutex(mutex), Outcome::Success),
            expect(Request::DestroyPermit(permit), Outcome::Success),
        ]
    }
}

/// What the sibling asks: it waits for the mutex; unless the first thread is
/// to trap, it notifies the condition, lets a wait run out and releases a
/// permit.
pub open spec fn second_script(objects: SyncObjects, fault: bool) -> Seq<ScriptStep> {
    let mutex = objects.mutex;
    let condition = objects.condition;
    let permit = objects.permit;
    let lock = expect(
        Request::Lock { mutex, wait: WaitMode::Wait(endless()) },
        Outcome::Success,
    );
    if fault {
        seq![lock]
    } else {
        seq![
            lock,
            expect(Request::Notify { condition, all: true }, Outcome::Success),
            expect(Request::Unlock(mutex), Outcome::Success),
            expect(
                Request::AcquirePermit { permit, wait: WaitMode::Wait(expired()) },
                Outcome::TimedOut,
            ),
            expect(Request::ReleasePermit { permit, count: 1 }, Outcome::Success),
        ]
    }
}

fn add_step(script: &mut Script, request: Request, outcome: Outcome)
    requires
        old(script)@.len() < MAX_STEPS,
    ensures
        final(script)@ == old(script)@.push(expect(request, outcome)),
        final(script).well_formed(),
{
    let added = script.push(request, outcome);
    assert(added);
}

/// Write both scripts.
pub fn sync_scripts(objects: &SyncObjects, fault: bool) -> (scripts: (Script, Script))
    ensures
        scripts.0.well_formed(),
        scripts.1.well_formed(),
        scripts.0@ == first_script(*objects, fault),
        scripts.1@ == second_script(*objects, fault),
{
    let mutex = objects.mutex;
    let condition = objects.condition;
    let permit = objects.permit;
    let endless = Wait { deadline: None, observe_stop: true };
    let over = Wait { deadline: Some(0), observe_stop: true };
    let block = WaitMode::Wait(endless);
    let late = WaitMode::Wait(over);
    let mut first = Script::new();
    let mut second = Script::new();
    add_step(&mut first, Request::Lock { mutex, wait: WaitMode::Try }, Outcome::Success);
    add_step(&mut second, Request::Lock { mutex, wait: block }, Outcome::Success);
    if !fault {
        add_step(
            &mut first,
            Request::ConditionWait { condition, mutex, wait: endless },
            Outcome::Success,
        );
        add_step(&mut first, Request::Unlock(mutex), Outcome::Success);
        add_step(&mut first, Request::AcquirePermit { permit, wait: block }, Outcome::Success);
        add_step(&mut first, Request::ReleasePermit { permit, count: 2 }, Outcome::Success);
        add_step(&mut first, Request::ReleasePermit { permit, count: 1 }, Outcome::Overflow);
        add_step(
            &mut first,
            Request::AcquirePermit { permit, wait: WaitMode::Try },
            Outcome::Success,
        );
        add_step(
            &mut first,
            Request::AcquirePermit { permit, wait: WaitMode::Try },
            Outcome::Success,
        );
        add_step(&mut first, Request::AcquirePermit { permit, wait: late }, Outcome::TimedOut);
        add_step(&mut first, Request::Lock { mutex, wait: WaitMode::Try }, Outcome::Success);
        add_step(
            &mut first,
            Request::ConditionWait { condition, mutex, wait: over },
            Outcome::TimedOut,
        );
        add_step(&mut first, Request::Unlock(mutex), Outcome::Success);
        add_step(&mut first, Request::DestroyCondition(condition), Outcome::Success);
        add_step(&mut first, Request::DestroyMutex(mutex), Outcome::Success);
        add_step(&mut first, Request::DestroyPermit(permit), Outcome::Success);
        add_step(&mut second, Request::Notify { condition, all: true }, Outcome::Success);
        add_step(&mut second, Request::Unlock(mutex), Outcome::Success);
        add_step(&mut second, Request::AcquirePermit { permit, wait: late }, Outcome::TimedOut);
        add_step(&mut second, Request::ReleasePermit { permit, count: 1 }, Outcome::Success);
    }
    assert(first@ =~= first_script(*objects, fault));
    assert(second@ =~= second_script(*objects, fault));
    (first, second)
}

/// Requests and replies of a script lie 96 bytes apart, a reply 64 bytes behind
/// its request.
pub proof fn scripts_are_laid_out_step_by_step(second: bool, script: Seq<ScriptStep>, i: int)
    requires
        script.len() <= 16,
        0 <= i < script.len(),
    ensures
        ({
            let placed = placements(second, script);
            &&& placed.len() == script.len()
            &&& placed[i].step == script[i]
            &&& !second ==> placed[i].request_at == 0x100 + 96 * i
            &&& second ==> placed[i].request_at == 0x900 + 96 * i
            &&& placed[i].reply_at - placed[i].request_at == 64
        }),
{
}

/// Words tell a thread where its script lies, its handle, the number of its steps
/// and whether it ends in a trap.
pub proof fn script_words_tell_the_thread(second: bool, steps: u64, handle: u64, trap: bool)
    ensures
        ({
            let words = script_words(second, steps, handle, trap);
            &&& words.len() == 4
            &&& forall|i: int| 0 <= i < 4 ==> (#[trigger] words[i]).second == second
            &&& words[0].offset == 8 && (words[0].word == if second {
                0x4000_0000_1900u64
            } else {
                0x4000_0000_1100u64
            })
            &&& words[1].offset == 40 && words[1].word == handle
            &&& words[2].offset == 48 && words[2].word == steps
            &&& words[3].offset == 64 && (words[3].word == if trap {
                1u64
            } else {
                0u64
            })
        }),
{
}

/// Of a retiring pair, one thread exits with the largest status; the other asks
/// for its own name and then aborts or joins the first. An abort of a thread that
/// was started is invalid, and a join gives the status.
pub proof fn retirement_lines_ask_and_expect(
    worker: Token,
    own_name: u64,
    abort: bool,
    started: bool,
)
    ensures
        ({
            let lines = retirement_lines(worker, own_name, abort, started);
            &&& lines.len() == 3
            &&& lines[0].offset == 0x100 && lines[0].request == Request::Exit(u64::MAX)
                && lines[0].reply is None
            &&& lines[1].offset == 0x200 && lines[1].request == Request::Current && lines[1].reply
                == Some(Reply { outcome: Outcome::Success, value: own_name })
            &&& lines[2].offset == 0x260
            &&& abort ==> lines[2].request == Request::Abort(worker)
            &&& !abort ==> lines[2].request == (Request::Join {
                thread: worker,
                wait: WaitMode::Wait(Wait { deadline: None, observe_stop: true }),
            })
            &&& (lines[2].reply matches Some(reply) && (reply.outcome == if started {
                Outcome::InvalidState
            } else {
                Outcome::Success
            }) && (reply.value == if abort {
                0u64
            } else {
                u64::MAX
            }))
        }),
{
}

/// Exactly what waits for a time that is over times out, exactly a permit beyond
/// the limit overflows, and all else succeeds.
pub proof fn scripts_expect_what_objects_do(objects: SyncObjects, i: int)
    ensures
        ({
            let script = first_script(objects, false);
            0 <= i < script.len() ==> {
                let late = script[i].request == (Request::AcquirePermit {
                    permit: objects.permit,
                    wait: WaitMode::Wait(Wait { deadline: Some(0), observe_stop: true }),
                }) || script[i].request == (Request::ConditionWait {
                    condition: objects.condition,
                    mutex: objects.mutex,
                    wait: Wait { deadline: Some(0), observe_stop: true },
                });
                let beyond = script[i].request == (Request::ReleasePermit {
                    permit: objects.permit,
                    count: 1,
                });
                &&& script[i].outcome == Outcome::TimedOut <==> late
                &&& script[i].outcome == Outcome::Overflow <==> beyond
                &&& script[i].outcome == Outcome::Success <==> !late && !beyond
            }
        }),
        ({
            let script = second_script(objects, false);
            0 <= i < script.len() ==> {
                let late = script[i].request == (Request::AcquirePermit {
                    permit: objects.permit,
                    wait: WaitMode::Wait(Wait { deadline: Some(0), observe_stop: true }),
                });
                &&& script[i].outcome == Outcome::TimedOut <==> late
                &&& script[i].outcome == Outcome::Success <==> !late
            }
        }),
        first_script(objects, false).len() == 15,
        second_script(objects, false).len() == 5,
        first_script(objects, true) == seq![
            ScriptStep {
                request: Request::Lock { mutex: objects.mutex, wait: WaitMode::Try },
                outcome: Outcome::Success,
            },
        ],
        second_script(objects, true) == seq![
            ScriptStep {
                request: Request::Lock {
                    mutex: objects.mutex,
                    wait: WaitMode::Wait(Wait { deadline: None, observe_stop: true }),
                },
                outcome: Outcome::Success,
            },
        ],
{
    let first = first_script(objects, false);
    let second = second_script(objects, false);
    if 0 <= i < first.len() {
        assert(i == 0 || i == 1 || i == 2 || i == 3 || i == 4 || i == 5 || i == 6 || i == 7 || i == 8
            || i == 9 || i == 10 || i == 11 || i == 12 || i == 13 || i == 14);
    }
    if 0 <= i < second.len() {
        assert(i == 0 || i == 1 || i == 2 || i == 3 || i == 4);
    }
}

} // verus!
