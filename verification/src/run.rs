//! A monitor at work: what it waits for, in which order it polls, and when it is done.
//!
//! A run is a state machine. Its driver polls what [`RunState::next_poll`] names, hands back
//! what came of it as an [`Event`], and carries out the wakes that [`RunState::step`] returns.
use vstd::prelude::*;

use crate::shutdown::{Poll, Shutdown, ShutdownView};
use crate::wakes::{Slot, Wake};

verus! {

/// What a run polls besides its workers and the shutdown token.
///
/// Without a terminator a run goes on until every worker has completed. With one it goes on
/// until every worker has completed or the terminator has resolved, whichever is first.
#[derive(Clone, Copy, Debug, PartialEq, Eq, Structural)]
pub struct Plan {
    /// Whether the run was given a shutdown signal.
    pub signal: bool,
    /// Whether the run has a terminator, which is polled from the start of the shutdown on.
    pub terminator: bool,
}

impl Plan {
    /// Whether the run only looks at the shutdown token instead of awaiting it.
    ///
    /// A token remembers one waiting task. A run with a signal and a terminator does not take
    /// that place from a task that awaits the token; its driver registers a waker slot with
    /// the token and so learns of a shutdown that others start.
    pub open spec fn watches(self) -> bool {
        self.signal && self.terminator
    }
}

/// How a run fails: the terminator ended it while workers had not completed.
#[derive(Clone, Copy, Debug, PartialEq, Eq, Structural)]
pub struct Outstanding {
    /// How many workers had not completed.
    pub remaining: usize,
}

/// What a run polls.
#[derive(Clone, Copy, Debug, PartialEq, Eq, Structural)]
pub enum Source {
    /// The workers that have not completed.
    Workers,
    /// The shutdown signal.
    Signal,
    /// The terminator.
    Terminator,
    /// The shutdown token.
    Shutdown,
}

/// What came of a poll.
///
/// Where the event may start the shutdown, `seen` holds what was found in the slot of each
/// listener of the shutdown token.
#[derive(Debug)]
pub enum Event<W, X> {
    /// The workers were polled, and this many of them completed.
    Workers { finished: usize, seen: Vec<Slot<W>> },
    /// The shutdown signal resolved, to `result`.
    Signal { result: Result<(), X>, seen: Vec<Slot<W>> },
    /// The terminator resolved.
    Terminator,
    /// The shutdown token is polled on behalf of the task with this waker, or, by a run that
    /// watches it, looked at.
    Shutdown { waker: W },
}

impl<W, X> Event<W, X> {
    /// The source whose poll led to this event.
    pub open spec fn source(self) -> Source {
        match self {
            Event::Workers { .. } => Source::Workers,
            Event::Signal { .. } => Source::Signal,
            Event::Terminator => Source::Terminator,
            Event::Shutdown { .. } => Source::Shutdown,
        }
    }
}

/// The place of a source in the order in which a run polls.
///
/// With a terminator the workers come before the signal: when the last of them has completed,
/// nothing else is polled any more.
pub open spec fn place(plan: Plan, source: Source) -> int {
    match source {
        Source::Workers => if plan.terminator {
            0
        } else {
            1
        },
        Source::Signal => if plan.terminator {
            1
        } else {
            0
        },
        Source::Shutdown => 2,
        Source::Terminator => 3,
    }
}

/// Whether `source` comes later in a round of polls than `after`, or, where `after` is
/// `None`, whether a round can begin with it.
pub open spec fn later(plan: Plan, after: Option<Source>, source: Source) -> bool {
    match after {
        Some(previous) => place(plan, previous) < place(plan, source),
        None => true,
    }
}

/// Whether the shutdown can be started, the listeners' slots being found as `seen` says.
pub open spec fn startable<W, L>(shutdown: ShutdownView<W, L>, seen: Seq<Slot<W>>) -> bool {
    !shutdown.waker_poisoned && shutdown.surveyed_by(seen)
}

/// The state of a run, as the contracts speak of it.
#[verifier::ext_equal]
pub struct RunView<H> {
    /// What the run waits for.
    pub plan: Plan,
    /// The workers that the shutdown signal wakes.
    pub workers: Seq<H>,
    /// How many workers have not completed.
    pub remaining: nat,
    /// Whether every worker has completed and the shutdown was started for it.
    pub drained: bool,
    /// Whether the shutdown signal was received.
    pub signalled: bool,
    /// Whether the terminator resolved.
    pub terminated: bool,
    /// Whether the run has seen that the shutdown started.
    pub observed: bool,
}

impl<H> RunView<H> {
    /// The state of a run that begins.
    pub open spec fn begin(plan: Plan, workers: Seq<H>, remaining: nat) -> Self {
        RunView {
            plan,
            workers,
            remaining,
            drained: false,
            signalled: false,
            terminated: false,
            observed: false,
        }
    }

    /// Whether the run is done.
    pub open spec fn finished(self) -> bool {
        if self.plan.terminator {
            self.drained || self.terminated
        } else {
            self.drained && self.observed
        }
    }

    /// Whether the run still waits for `source`.
    pub open spec fn awaits(self, source: Source) -> bool {
        !self.finished() && match source {
            Source::Workers => !self.drained,
            Source::Signal => self.plan.signal && !self.signalled,
            Source::Terminator => self.plan.terminator && (self.signalled || self.observed),
            Source::Shutdown => !self.observed,
        }
    }

    /// Whether `event` can come next.
    ///
    /// The terminator is polled after the workers, so a run that it ends has workers left.
    pub open spec fn accepts<W, L, X>(
        self,
        shutdown: ShutdownView<W, L>,
        event: Event<W, X>,
    ) -> bool {
        self.awaits(event.source()) && match event {
            Event::Workers { finished, seen } => {
                &&& finished <= self.remaining
                &&& finished == self.remaining ==> startable(shutdown, seen@)
            },
            Event::Signal { seen, .. } => startable(shutdown, seen@),
            Event::Terminator => self.remaining > 0,
            Event::Shutdown { .. } => !self.plan.watches() && !shutdown.started
                ==> !shutdown.waker_poisoned,
        }
    }

    /// The state of the run after `event`.
    pub open spec fn step<W, L, X>(self, shutdown: ShutdownView<W, L>, event: Event<W, X>) -> Self {
        match event {
            Event::Workers { finished, .. } => RunView {
                remaining: (self.remaining - finished) as nat,
                drained: finished == self.remaining,
                ..self
            },
            Event::Signal { .. } => RunView { signalled: true, ..self },
            Event::Terminator => RunView { terminated: true, ..self },
            Event::Shutdown { .. } => RunView { observed: shutdown.started, ..self },
        }
    }

    /// The state of the shutdown token after `event`.
    pub open spec fn step_shutdown<W, L, X>(
        self,
        shutdown: ShutdownView<W, L>,
        event: Event<W, X>,
    ) -> ShutdownView<W, L> {
        match event {
            Event::Workers { finished, seen } => if finished == self.remaining {
                shutdown.start(seen@)
            } else {
                shutdown
            },
            Event::Signal { seen, .. } => shutdown.start(seen@),
            Event::Terminator => shutdown,
            Event::Shutdown { waker } => if self.plan.watches() {
                shutdown
            } else {
                shutdown.poll(waker)
            },
        }
    }

    /// The wakes that are owed after `event`.
    pub open spec fn step_wakes<W, L, X>(
        self,
        shutdown: ShutdownView<W, L>,
        event: Event<W, X>,
    ) -> Seq<Wake<W>> {
        match event {
            Event::Workers { finished, seen } => if finished == self.remaining {
                shutdown.start_wakes(seen@)
            } else {
                Seq::empty()
            },
            Event::Signal { seen, .. } => shutdown.start_wakes(seen@)
                + crate::wakes::worker_wakes(self.workers.len()),
            Event::Terminator => Seq::empty(),
            Event::Shutdown { .. } => Seq::empty(),
        }
    }
}

/// Starts the shutdown and wakes every worker so that it observes it.
///
/// Raising the flag alone does not re-poll a worker that is parked on an idle backend.
/// `seen` holds what was found in the slot of each listener of the token.
pub fn shutdown_workers<W, L, H>(
    shutdown: &mut Shutdown<W, L>,
    workers: &Vec<H>,
    seen: Vec<Slot<W>>,
) -> (wakes: Vec<Wake<W>>)
    requires
        startable(old(shutdown)@, seen@),
    ensures
        final(shutdown)@ == old(shutdown)@.start(seen@),
        wakes@ == old(shutdown)@.start_wakes(seen@) + crate::wakes::worker_wakes(workers@.len()),
{
    let ghost owed = shutdown@.start_wakes(seen@);
    let mut wakes = shutdown.start_shutdown(seen);
    let mut i: usize = 0;
    assert(wakes@ =~= owed + crate::wakes::worker_wakes::<W>(0));
    while i < workers.len()
        invariant
            i <= workers.len(),
            wakes@ == owed + crate::wakes::worker_wakes::<W>(i as nat),
        decreases workers.len() - i,
    {
        wakes.push(Wake::Worker(i));
        i = i + 1;
        assert(wakes@ =~= owed + crate::wakes::worker_wakes::<W>(i as nat));
    }
    wakes
}

/// The state of a run.
#[derive(Debug)]
pub struct RunState<H> {
    plan: Plan,
    workers: Vec<H>,
    remaining: usize,
    drained: bool,
    signalled: bool,
    terminated: bool,
    observed: bool,
}

impl<H> View for RunState<H> {
    type V = RunView<H>;

    closed spec fn view(&self) -> RunView<H> {
        RunView {
            plan: self.plan,
            workers: self.workers@,
            remaining: self.remaining as nat,
            drained: self.drained,
            signalled: self.signalled,
            terminated: self.terminated,
            observed: self.observed,
        }
    }
}

impl<H> RunState<H> {
    /// Begins a run of `remaining` workers.
    ///
    /// `workers` are those that the shutdown signal wakes.
    pub fn begin(plan: Plan, workers: Vec<H>, remaining: usize) -> (run: Self)
        ensures
            run@ == RunView::begin(plan, workers@, remaining as nat),
    {
        RunState {
            plan,
            workers,
            remaining,
            drained: false,
            signalled: false,
            terminated: false,
            observed: false,
        }
    }

    /// Whether the run is done.
    pub fn is_finished(&self) -> (finished: bool)
        ensures
            finished == self@.finished(),
    {
        if self.plan.terminator {
            self.drained || self.terminated
        } else {
            self.drained && self.observed
        }
    }

    /// What the run exits with, once it is done: success where every worker has completed, and
    /// an error where the terminator ended the run before that.
    ///
    /// What the shutdown signal resolved to makes no difference.
    pub fn exit(&self) -> (exit: Option<Result<(), Outstanding>>)
        ensures
            !self@.finished() ==> exit is None,
            self@.finished() && self@.terminated ==> (exit matches Some(Err(outstanding))
                && outstanding.remaining == self@.remaining),
            self@.finished() && !self@.terminated ==> exit == Some(Ok::<(), Outstanding>(())),
    {
        if !self.is_finished() {
            None
        } else if self.terminated {
            Some(Err(Outstanding { remaining: self.remaining }))
        } else {
            Some(Ok(()))
        }
    }

    /// Whether the run still waits for `source`.
    pub fn is_awaiting(&self, source: Source) -> (awaits: bool)
        ensures
            awaits == self@.awaits(source),
    {
        !self.is_finished() && match source {
            Source::Workers => !self.drained,
            Source::Signal => self.plan.signal && !self.signalled,
            Source::Terminator => self.plan.terminator && (self.signalled || self.observed),
            Source::Shutdown => !self.observed,
        }
    }

    /// Whether the run only looks at the shutdown token instead of awaiting it: its driver then
    /// registers a waker slot with the token, to be woken when the shutdown starts.
    pub fn is_watching(&self) -> (watches: bool)
        ensures
            watches == self@.plan.watches(),
    {
        self.plan.signal && self.plan.terminator
    }

    /// What to poll next in a round of polls in which `after` was polled last.
    ///
    /// `None` where the round is over: the run is then done, or waits to be woken.
    pub fn next_poll(&self, after: Option<Source>) -> (next: Option<Source>)
        ensures
            match next {
                Some(source) => {
                    &&& self@.awaits(source)
                    &&& later(self@.plan, after, source)
                    &&& forall|other: Source| #[trigger]
                        self@.awaits(other) && later(self@.plan, after, other) ==> place(
                            self@.plan,
                            source,
                        ) <= place(self@.plan, other)
                },
                None => forall|other: Source| #[trigger]
                    self@.awaits(other) ==> !later(self@.plan, after, other),
            },
    {
        let (first, second) = if self.plan.terminator {
            (Source::Workers, Source::Signal)
        } else {
            (Source::Signal, Source::Workers)
        };
        let passed: usize = match after {
            None => 0,
            Some(source) => if source == first {
                1
            } else if source == second {
                2
            } else if source == Source::Shutdown {
                3
            } else {
                4
            },
        };
        if passed < 1 && self.is_awaiting(first) {
            Some(first)
        } else if passed < 2 && self.is_awaiting(second) {
            Some(second)
        } else if passed < 3 && self.is_awaiting(Source::Shutdown) {
            Some(Source::Shutdown)
        } else if passed < 4 && self.is_awaiting(Source::Terminator) {
            Some(Source::Terminator)
        } else {
            None
        }
    }

    /// Counts the workers that completed in a poll; when none remains, starts the shutdown.
    ///
    /// `seen` holds what was found in the slot of each listener of the token.
    pub fn run_all_workers<W, L>(
        &mut self,
        shutdown: &mut Shutdown<W, L>,
        finished: usize,
        seen: Vec<Slot<W>>,
    ) -> (wakes: Vec<Wake<W>>)
        requires
            finished <= old(self)@.remaining,
            finished == old(self)@.remaining ==> startable(old(shutdown)@, seen@),
        ensures
            final(self)@ == (RunView {
                remaining: (old(self)@.remaining - finished) as nat,
                drained: finished == old(self)@.remaining,
                ..old(self)@
            }),
            finished == old(self)@.remaining ==> {
                &&& final(shutdown)@ == old(shutdown)@.start(seen@)
                &&& wakes@ == old(shutdown)@.start_wakes(seen@)
            },
            finished < old(self)@.remaining ==> {
                &&& final(shutdown)@ == old(shutdown)@
                &&& wakes@ == Seq::<Wake<W>>::empty()
            },
    {
        self.remaining = self.remaining - finished;
        self.drained = self.remaining == 0;
        if self.drained {
            shutdown.start_shutdown(seen)
        } else {
            Vec::new()
        }
    }

    /// Takes in what came of a poll, and returns the wakes that are owed for it.
    pub fn step<W, L, X>(
        &mut self,
        shutdown: &mut Shutdown<W, L>,
        event: Event<W, X>,
    ) -> (wakes: Vec<Wake<W>>)
        requires
            old(self)@.accepts(old(shutdown)@, event),
        ensures
            final(self)@ == old(self)@.step(old(shutdown)@, event),
            final(shutdown)@ == old(self)@.step_shutdown(old(shutdown)@, event),
            wakes@ == old(self)@.step_wakes(old(shutdown)@, event),
    {
        match event {
            Event::Workers { finished, seen } => self.run_all_workers(shutdown, finished, seen),
            Event::Signal { result: _, seen } => {
                self.signalled = true;
                shutdown_workers(shutdown, &self.workers, seen)
            },
            Event::Terminator => {
                self.terminated = true;
                Vec::new()
            },
            Event::Shutdown { waker } => {
                self.observed = if self.is_watching() {
                    shutdown.is_shutting_down()
                } else {
                    shutdown.poll(waker) == Poll::Ready
                };
                Vec::new()
            },
        }
    }

    /// The workers that the shutdown signal wakes.
    pub fn workers(&self) -> (workers: &Vec<H>)
        ensures
            workers@ == self@.workers,
    {
        &self.workers
    }

    /// How many workers have not completed.
    pub fn remaining(&self) -> (remaining: usize)
        ensures
            remaining == self@.remaining,
    {
        self.remaining
    }
}

/// A step of a run: what the shutdown token was when the event came, and the event.
pub struct Moment<W, L, X> {
    /// The state of the shutdown token before the event.
    pub shutdown: ShutdownView<W, L>,
    /// What came of a poll.
    pub event: Event<W, X>,
}

/// The state of a run that began as `start`, after the steps of `trace`.
pub open spec fn after<H, W, L, X>(start: RunView<H>, trace: Seq<Moment<W, L, X>>) -> RunView<H>
    decreases trace.len(),
{
    if trace.len() == 0 {
        start
    } else {
        after(start, trace.drop_last()).step(trace.last().shutdown, trace.last().event)
    }
}

/// Whether the last step of `trace` left the shutdown started.
pub open spec fn left_started<H, W, L, X>(
    start: RunView<H>,
    trace: Seq<Moment<W, L, X>>,
) -> bool {
    trace.len() > 0 && after(start, trace.drop_last()).step_shutdown(
        trace.last().shutdown,
        trace.last().event,
    ).started
}

/// Whether a run that began as `start` can go through the steps of `trace`.
///
/// Other holders of the shutdown token use it between the steps: its state before a step is
/// arbitrary, but for a shutdown once started, which stays so.
pub open spec fn possible<H, W, L, X>(start: RunView<H>, trace: Seq<Moment<W, L, X>>) -> bool
    decreases trace.len(),
{
    trace.len() == 0 || {
        let earlier = trace.drop_last();
        &&& possible(start, earlier)
        &&& after(start, earlier).accepts(trace.last().shutdown, trace.last().event)
        &&& left_started(start, earlier) ==> trace.last().shutdown.started
    }
}

/// How many workers completed in the steps of `trace`.
pub open spec fn completed<W, L, X>(trace: Seq<Moment<W, L, X>>) -> nat
    decreases trace.len(),
{
    if trace.len() == 0 {
        0
    } else {
        completed(trace.drop_last()) + match trace.last().event {
            Event::Workers { finished, .. } => finished as nat,
            _ => 0,
        }
    }
}

/// Whether a poll of `source` led to an event in `trace`.
pub open spec fn happened<W, L, X>(trace: Seq<Moment<W, L, X>>, source: Source) -> bool
    decreases trace.len(),
{
    trace.len() > 0 && (trace.last().event.source() == source || happened(
        trace.drop_last(),
        source,
    ))
}

/// Whether, in `trace`, a poll of the shutdown token found it started.
pub open spec fn observed_start<W, L, X>(trace: Seq<Moment<W, L, X>>) -> bool
    decreases trace.len(),
{
    trace.len() > 0 && (trace.last().event is Shutdown && trace.last().shutdown.started
        || observed_start(trace.drop_last()))
}

/// What a run knows is what happened: it counts the workers that completed, it is drained
/// when it found none left, and it has the signal and the terminator when they came. The
/// terminator comes only where the run has one, once the shutdown has begun, and while workers
/// are left. Once the signal came, the workers were drained or the token was found started,
/// the shutdown is started.
pub proof fn law_run_records_what_happened<H, W, L, X>(
    plan: Plan,
    workers: Seq<H>,
    count: nat,
    trace: Seq<Moment<W, L, X>>,
)
    requires
        possible(RunView::begin(plan, workers, count), trace),
    ensures
        ({
            let start = RunView::begin(plan, workers, count);
            let run = after(start, trace);
            &&& run.plan == plan
            &&& run.workers == workers
            &&& run.remaining + completed(trace) == count
            &&& run.drained <==> happened(trace, Source::Workers) && completed(trace) == count
            &&& run.signalled <==> happened(trace, Source::Signal)
            &&& run.signalled ==> plan.signal
            &&& run.terminated <==> happened(trace, Source::Terminator)
            &&& run.terminated ==> {
                &&& plan.terminator
                &&& run.signalled || run.observed
                &&& run.remaining > 0
            }
            &&& run.observed <==> observed_start(trace)
            &&& run.drained || run.signalled || run.observed ==> left_started(start, trace)
        }),
    decreases trace.len(),
{
    if trace.len() > 0 {
        law_run_records_what_happened(plan, workers, count, trace.drop_last());
    }
}

/// A run exits exactly when what it waits for has happened, and the shutdown is then started.
///
/// Without a terminator: all workers completed, and the token was found started, with or
/// without a signal. With a terminator: all workers completed, or the terminator resolved,
/// which it does only once the signal came or the token was found started.
pub proof fn law_run_exits_exactly_when<H, W, L, X>(
    plan: Plan,
    workers: Seq<H>,
    count: nat,
    trace: Seq<Moment<W, L, X>>,
)
    requires
        possible(RunView::begin(plan, workers, count), trace),
    ensures
        ({
            let start = RunView::begin(plan, workers, count);
            let drained = happened(trace, Source::Workers) && completed(trace) == count;
            &&& after(start, trace).finished() <==> if plan.terminator {
                drained || happened(trace, Source::Terminator)
            } else {
                drained && observed_start(trace)
            }
            &&& happened(trace, Source::Terminator) ==> happened(trace, Source::Signal)
                || observed_start(trace)
            &&& after(start, trace).finished() ==> left_started(start, trace)
        }),
{
    law_run_records_what_happened(plan, workers, count, trace);
}

/// A run fails exactly when the terminator ended it with workers outstanding, and it then
/// counts them; where it succeeds, every worker has completed.
pub proof fn law_run_fails_exactly_when_cut_short<H, W, L, X>(
    plan: Plan,
    workers: Seq<H>,
    count: nat,
    trace: Seq<Moment<W, L, X>>,
)
    requires
        possible(RunView::begin(plan, workers, count), trace),
        after(RunView::begin(plan, workers, count), trace).finished(),
    ensures
        ({
            let run = after(RunView::begin(plan, workers, count), trace);
            &&& run.terminated <==> happened(trace, Source::Terminator) && completed(trace) < count
            &&& run.terminated ==> run.remaining == count - completed(trace)
            &&& !run.terminated ==> completed(trace) == count
        }),
{
    law_run_records_what_happened(plan, workers, count, trace);
}

/// A run without a terminator exits in the very round in which it finds that the last worker
/// has completed: what is left to poll in the round is the shutdown token, and it is ready.
pub proof fn law_run_exits_once_drained<H, W, L, X>(
    run: RunView<H>,
    shutdown: ShutdownView<W, L>,
    last: Event<W, X>,
    later_shutdown: ShutdownView<W, L>,
    waker: W,
)
    requires
        !run.plan.terminator,
        run.accepts(shutdown, last),
        last matches Event::Workers { finished, .. } && finished == run.remaining,
        run.step_shutdown(shutdown, last).started ==> later_shutdown.started,
    ensures
        ({
            let drained = run.step(shutdown, last);
            let poll = Event::<W, X>::Shutdown { waker };
            &&& !run.observed ==> {
                &&& drained.awaits(Source::Shutdown)
                &&& later(run.plan, Some(Source::Workers), Source::Shutdown)
                &&& drained.accepts(later_shutdown, poll)
                &&& drained.step(later_shutdown, poll).finished()
            }
            &&& run.observed ==> drained.finished()
        }),
{
}

/// A run in which all workers have completed, and the token was found started, is done: it
/// waits for no signal, whether one came or not.
pub proof fn law_drained_run_waits_for_no_signal<H>(run: RunView<H>)
    requires
        run.drained,
        run.observed,
    ensures
        run.finished(),
        !run.awaits(Source::Signal),
{
}

/// A run with a terminator exits the moment the last worker has completed, without waiting for
/// the terminator or the signal, and else the moment the terminator resolves.
pub proof fn law_race_exits_at_the_first<H, W, L, X>(
    run: RunView<H>,
    shutdown: ShutdownView<W, L>,
    event: Event<W, X>,
)
    requires
        run.plan.terminator,
        run.accepts(shutdown, event),
    ensures
        run.step(shutdown, event).finished() <==> match event {
            Event::Workers { finished, .. } => finished == run.remaining,
            Event::Terminator => true,
            _ => false,
        },
{
}

/// A terminator is polled from the start of the shutdown on, and not before: in the very round
/// in which the signal comes, or in which a poll finds the token started by whomever, and in
/// every round after that.
pub proof fn law_terminator_runs_once_the_shutdown_begins<H, W, L, X>(
    run: RunView<H>,
    shutdown: ShutdownView<W, L>,
    event: Event<W, X>,
)
    requires
        run.plan.terminator,
        run.accepts(shutdown, event),
    ensures
        run.awaits(Source::Terminator) <==> run.signalled || run.observed,
        event is Signal || event is Shutdown && shutdown.started ==> {
            &&& run.step(shutdown, event).awaits(Source::Terminator)
            &&& later(run.plan, Some(event.source()), Source::Terminator)
        },
        run.awaits(Source::Terminator) ==> run.step(shutdown, event).awaits(Source::Terminator)
            || run.step(shutdown, event).finished(),
{
}

/// A run with a signal and a terminator forgets no task that awaits the token: the task's
/// waker stays stored until the shutdown starts, and where a step of the run starts it, the
/// task is woken first of all.
pub proof fn law_watching_run_forgets_no_waiter<H, W, L, X>(
    run: RunView<H>,
    shutdown: ShutdownView<W, L>,
    event: Event<W, X>,
    waker: W,
)
    requires
        run.plan.watches(),
        run.accepts(shutdown, event),
        shutdown.waker == Some(waker),
    ensures
        ({
            let stored = run.step_shutdown(shutdown, event).waker == Some(waker);
            let wakes = run.step_wakes(shutdown, event);
            ||| stored && wakes.len() == 0
            ||| {
                &&& run.step_shutdown(shutdown, event).started
                &&& wakes.len() > 0
                &&& wakes[0] == Wake::Task(waker)
            }
        }),
{
}

/// The shutdown signal starts the shutdown and wakes every worker, once each and in order,
/// after whatever the start of the shutdown wakes.
pub proof fn law_signal_wakes_every_worker<H, W, L, X>(
    run: RunView<H>,
    shutdown: ShutdownView<W, L>,
    signal: Event<W, X>,
)
    requires
        signal is Signal,
        run.workers.len() <= usize::MAX,
    ensures
        run.step_shutdown(shutdown, signal).started,
        ({
            let first = shutdown.start_wakes(signal->Signal_seen@).len();
            let wakes = run.step_wakes(shutdown, signal);
            &&& wakes.len() == first + run.workers.len()
            &&& wakes.take(first as int) == shutdown.start_wakes(signal->Signal_seen@)
            &&& forall|i: int|
                0 <= i < run.workers.len() ==> (#[trigger] wakes[first + i]) is Worker
                    && wakes[first + i]->Worker_0 == i
        }),
{
    let started = shutdown.start_wakes(signal->Signal_seen@);
    let wakes = run.step_wakes(shutdown, signal);
    assert(wakes.take(started.len() as int) =~= started);
}

/// The shutdown signal cuts no worker short: the same workers remain, and a run in which some
/// worker has not completed goes on waiting for it.
pub proof fn law_signal_cuts_no_worker_short<H, W, L, X>(
    run: RunView<H>,
    shutdown: ShutdownView<W, L>,
    signal: Event<W, X>,
)
    requires
        signal is Signal,
        run.accepts(shutdown, signal),
        !run.drained,
    ensures
        run.step(shutdown, signal).remaining == run.remaining,
        run.step(shutdown, signal).awaits(Source::Workers),
{
}

/// What the shutdown signal resolved to makes no difference to a run.
pub proof fn law_signal_result_makes_no_difference<H, W, L, X>(
    run: RunView<H>,
    shutdown: ShutdownView<W, L>,
    one: Result<(), X>,
    other: Result<(), X>,
    seen: Vec<Slot<W>>,
)
    ensures
        ({
            let a = Event::Signal { result: one, seen };
            let b = Event::Signal { result: other, seen };
            &&& run.step(shutdown, a) == run.step(shutdown, b)
            &&& run.step_shutdown(shutdown, a) == run.step_shutdown(shutdown, b)
            &&& run.step_wakes(shutdown, a) == run.step_wakes(shutdown, b)
        }),
{
}

/// A run that is not done waits for something, and one that is done waits for nothing.
pub proof fn law_run_is_never_stuck<H>(run: RunView<H>)
    ensures
        !run.finished() <==> exists|source: Source| run.awaits(source),
{
    if !run.finished() {
        assert(run.awaits(Source::Workers) || run.awaits(Source::Signal) || run.awaits(
            Source::Shutdown,
        ));
    }
}

/// No step of a run takes a started shutdown back.
pub proof fn law_run_keeps_shutdown_started<H, W, L, X>(
    run: RunView<H>,
    shutdown: ShutdownView<W, L>,
    event: Event<W, X>,
)
    requires
        shutdown.started,
    ensures
        run.step_shutdown(shutdown, event).started,
{
}

/// A run that begins has every worker before it, and nothing has happened to it.
pub proof fn law_run_begins_with_everything_before_it<H>(
    plan: Plan,
    workers: Seq<H>,
    remaining: nat,
)
    ensures
        ({
            let run = RunView::begin(plan, workers, remaining);
            &&& run.plan == plan
            &&& run.workers == workers
            &&& run.remaining == remaining
            &&& !run.drained && !run.signalled && !run.terminated && !run.observed
        }),
{
}

/// A run is done once its workers are drained and it has seen the shutdown started, and, where
/// it has a terminator, already once its workers are drained or the terminator has resolved. It
/// is done in no other case: neither the signal nor the start of the shutdown ends it.
pub proof fn law_run_is_done_when_drained_or_terminated<H>(run: RunView<H>)
    ensures
        run.drained && run.observed ==> run.finished(),
        run.drained && run.plan.terminator ==> run.finished(),
        run.terminated && run.plan.terminator ==> run.finished(),
        !run.drained && !run.terminated ==> !run.finished(),
        !run.drained && !run.plan.terminator ==> !run.finished(),
        !run.observed && !run.plan.terminator ==> !run.finished(),
{
}

/// A run polls its workers until all have completed, however many remain and whether or not the
/// shutdown was signalled, started or observed; drained workers are polled no more.
pub proof fn law_workers_are_polled_until_drained<H>(run: RunView<H>)
    ensures
        !run.drained && !run.finished() ==> run.awaits(Source::Workers),
        run.drained || run.finished() ==> !run.awaits(Source::Workers),
{
}

/// A run with a signal polls it until it comes, however many workers have completed and whether
/// or not the shutdown was started by others; a run without one, or which has it, does not.
pub proof fn law_signal_is_polled_until_it_comes<H>(run: RunView<H>)
    ensures
        run.plan.signal && !run.signalled && !run.finished() ==> run.awaits(Source::Signal),
        !run.plan.signal || run.signalled || run.finished() ==> !run.awaits(Source::Signal),
{
}

/// A run polls the shutdown token until it has seen the shutdown started.
pub proof fn law_token_is_polled_until_seen_started<H>(run: RunView<H>)
    ensures
        !run.observed && !run.finished() ==> run.awaits(Source::Shutdown),
        run.observed || run.finished() ==> !run.awaits(Source::Shutdown),
{
}

/// A run with a terminator polls it once the signal came or the shutdown was seen started,
/// however many workers remain; before that, or without one, it does not.
pub proof fn law_terminator_is_polled_during_the_shutdown<H>(run: RunView<H>)
    ensures
        run.plan.terminator && run.signalled && !run.finished() ==> run.awaits(Source::Terminator),
        run.plan.terminator && run.observed && !run.finished() ==> run.awaits(Source::Terminator),
        !run.plan.terminator || run.finished() ==> !run.awaits(Source::Terminator),
        !run.signalled && !run.observed ==> !run.awaits(Source::Terminator),
{
}

/// Whatever a run has been through, while it is not done it goes on polling what has not
/// happened yet: the workers while some have not completed, the signal while it has not come,
/// the token while it was not found started, and the terminator once the shutdown has begun.
pub proof fn law_run_goes_on_polling_what_is_missing<H, W, L, X>(
    plan: Plan,
    workers: Seq<H>,
    count: nat,
    trace: Seq<Moment<W, L, X>>,
)
    requires
        possible(RunView::begin(plan, workers, count), trace),
        !after(RunView::begin(plan, workers, count), trace).finished(),
    ensures
        ({
            let run = after(RunView::begin(plan, workers, count), trace);
            &&& completed(trace) < count ==> run.awaits(Source::Workers)
            &&& !happened(trace, Source::Workers) ==> run.awaits(Source::Workers)
            &&& plan.signal && !happened(trace, Source::Signal) ==> run.awaits(Source::Signal)
            &&& !observed_start(trace) ==> run.awaits(Source::Shutdown)
            &&& plan.terminator && (happened(trace, Source::Signal) || observed_start(trace))
                ==> run.awaits(Source::Terminator)
        }),
{
    law_run_records_what_happened(plan, workers, count, trace);
}

/// Something happened in a history exactly when one of its steps is an event of that source.
pub proof fn law_happened_at_some_step<W, L, X>(trace: Seq<Moment<W, L, X>>, source: Source)
    ensures
        happened(trace, source) <==> exists|i: int|
            0 <= i < trace.len() && (#[trigger] trace[i]).event.source() == source,
    decreases trace.len(),
{
    if trace.len() > 0 {
        let init = trace.drop_last();
        law_happened_at_some_step(init, source);
        if happened(init, source) {
            let i = choose|i: int|
                0 <= i < init.len() && (#[trigger] init[i]).event.source() == source;
            assert(trace[i].event.source() == source);
        }
        if exists|i: int| 0 <= i < trace.len() && (#[trigger] trace[i]).event.source() == source {
            let i = choose|i: int|
                0 <= i < trace.len() && (#[trigger] trace[i]).event.source() == source;
            if i < init.len() {
                assert(init[i].event.source() == source);
            }
        }
    }
}

/// An event comes of the source that is named like it.
pub proof fn law_event_comes_of_its_source<W, X>(event: Event<W, X>)
    ensures
        event is Workers <==> event.source() == Source::Workers,
        event is Signal <==> event.source() == Source::Signal,
        event is Terminator <==> event.source() == Source::Terminator,
        event is Shutdown <==> event.source() == Source::Shutdown,
{
}

/// A round of polls goes in one order: the workers, then the signal, or, without a terminator,
/// the signal, then the workers; then the token, and then the terminator. It begins anywhere and
/// never goes back or polls twice.
pub proof fn law_round_goes_in_one_order(plan: Plan, source: Source, other: Source)
    ensures
        plan.terminator ==> later(plan, Some(Source::Workers), Source::Signal),
        !plan.terminator ==> later(plan, Some(Source::Signal), Source::Workers),
        later(plan, Some(Source::Workers), Source::Shutdown),
        later(plan, Some(Source::Signal), Source::Shutdown),
        later(plan, Some(Source::Workers), Source::Terminator),
        later(plan, Some(Source::Signal), Source::Terminator),
        later(plan, Some(Source::Shutdown), Source::Terminator),
        !later(plan, Some(source), source),
        later(plan, Some(source), other) ==> !later(plan, Some(other), source),
        later(plan, Some(source), other) <==> place(plan, source) < place(plan, other),
        source != other ==> later(plan, Some(source), other) || later(plan, Some(other), source),
        later(plan, None, source),
{
}

/// A round passes over nothing: while something that the run waits for is still to come in the
/// round, the round goes on, with that or with something before it. `next` is what
/// [`RunState::next_poll`] names after `after`.
pub proof fn law_round_passes_over_nothing<H>(
    run: RunView<H>,
    after: Option<Source>,
    next: Option<Source>,
    source: Source,
)
    requires
        match next {
            Some(named) => {
                &&& run.awaits(named)
                &&& later(run.plan, after, named)
                &&& forall|other: Source| #[trigger]
                    run.awaits(other) && later(run.plan, after, other) ==> place(run.plan, named)
                        <= place(run.plan, other)
            },
            None => forall|other: Source| #[trigger]
                run.awaits(other) ==> !later(run.plan, after, other),
        },
        run.awaits(source),
        later(run.plan, after, source),
    ensures
        next == Some(source) || next is Some && later(run.plan, next, source),
{
}

/// The shutdown can be started exactly where the waiting task's waker is within reach and the
/// look into the slots covers each listener that is.
pub proof fn law_shutdown_can_start_when_surveyed<W, L>(
    shutdown: ShutdownView<W, L>,
    seen: Seq<Slot<W>>,
)
    ensures
        startable(shutdown, seen) <==> !shutdown.waker_poisoned && (shutdown.listeners_poisoned
            || seen.len() == shutdown.listeners.len()),
{
}

/// A run takes in whatever comes of what it waits for: any number of completions up to the
/// workers that remain, the signal whatever it resolved to, the terminator while workers remain,
/// and any poll of the token. Only where the event starts the shutdown must it be possible to
/// start, and only where the run waits at the token must the waker's place be within reach.
pub proof fn law_run_takes_in_what_it_waits_for<H, W, L, X>(
    run: RunView<H>,
    shutdown: ShutdownView<W, L>,
    event: Event<W, X>,
)
    ensures
        run.accepts(shutdown, event) ==> run.awaits(event.source()),
        event matches Event::Workers { finished, seen } ==> (run.accepts(shutdown, event) <==> (
        run.awaits(Source::Workers) && finished <= run.remaining && (finished < run.remaining
            || startable(shutdown, seen@)))),
        event matches Event::Signal { seen, .. } ==> (run.accepts(shutdown, event) <==> (run.awaits(
            Source::Signal,
        ) && startable(shutdown, seen@))),
        event is Terminator ==> (run.accepts(shutdown, event) <==> run.awaits(Source::Terminator)
            && run.remaining > 0),
        event is Shutdown ==> (run.accepts(shutdown, event) <==> run.awaits(Source::Shutdown) && (
        run.plan.signal && run.plan.terminator || shutdown.started || !shutdown.waker_poisoned)),
{
}

/// A run looks at the token without taking the waiter's place exactly where it has both a signal
/// and a terminator.
pub proof fn law_run_watches_with_signal_and_terminator(plan: Plan)
    ensures
        plan.signal && plan.terminator ==> plan.watches(),
        plan.watches() ==> plan.signal,
        plan.watches() ==> plan.terminator,
{
}

/// An event changes of a run what it is about, and nothing else. Completions are counted off, and
/// the run is drained when, and only when, none remains; the signal and the terminator are
/// recorded; a poll of the token records whether the shutdown has started.
pub proof fn law_event_changes_what_it_is_about<H, W, L, X>(
    run: RunView<H>,
    shutdown: ShutdownView<W, L>,
    event: Event<W, X>,
)
    requires
        run.accepts(shutdown, event),
    ensures
        ({
            let next = run.step(shutdown, event);
            &&& next.plan == run.plan
            &&& next.workers == run.workers
            &&& event matches Event::Workers { finished, .. } ==> {
                &&& next.remaining + finished == run.remaining
                &&& next.drained <==> next.remaining == 0
            }
            &&& !(event is Workers) ==> next.remaining == run.remaining && next.drained
                == run.drained
            &&& event is Signal ==> next.signalled
            &&& !(event is Signal) ==> next.signalled == run.signalled
            &&& event is Terminator ==> next.terminated
            &&& !(event is Terminator) ==> next.terminated == run.terminated
            &&& event is Shutdown ==> next.observed == shutdown.started
            &&& !(event is Shutdown) ==> next.observed == run.observed
        }),
{
}

/// A run starts the shutdown when the signal comes and when the last worker completes, and at no
/// other event; what is woken then is what the start of the shutdown wakes, and, for the signal,
/// every worker besides. Any other event wakes nobody and leaves the token as it is, but for a
/// poll of it by a run that awaits it.
pub proof fn law_run_starts_the_shutdown_when_due<H, W, L, X>(
    run: RunView<H>,
    shutdown: ShutdownView<W, L>,
    event: Event<W, X>,
)
    requires
        run.accepts(shutdown, event),
    ensures
        ({
            let token = run.step_shutdown(shutdown, event);
            let wakes = run.step_wakes(shutdown, event);
            &&& event matches Event::Signal { seen, .. } ==> {
                &&& token == shutdown.start(seen@)
                &&& wakes.len() == shutdown.start_wakes(seen@).len() + run.workers.len()
            }
            &&& event matches Event::Workers { finished, seen } ==> {
                &&& finished == run.remaining ==> token == shutdown.start(seen@) && wakes
                    == shutdown.start_wakes(seen@)
                &&& finished < run.remaining ==> token == shutdown && wakes.len() == 0
            }
            &&& event is Terminator ==> token == shutdown && wakes.len() == 0
            &&& event matches Event::Shutdown { waker } ==> {
                &&& wakes.len() == 0
                &&& run.plan.signal && run.plan.terminator ==> token == shutdown
                &&& !(run.plan.signal && run.plan.terminator) ==> token == shutdown.poll(waker)
            }
        }),
{
}

} // verus!
