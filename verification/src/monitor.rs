//! The monitor: a collection of workers that run and shut down together.
use std::sync::Arc;
use std::time::Duration;
use vstd::prelude::*;

use crate::decimal::append_decimal;
use crate::run::{Event, Plan, RunState, RunView, Source};
use crate::shutdown::ShutdownView;
use crate::worker::{Ready, Worker};

verus! {

/// What a monitor holds, as the contracts speak of it.
#[verifier::ext_equal]
pub struct MonitorView<F, H, S, E> {
    /// The futures that run the registered workers, in the order of their registration.
    pub futures: Seq<F>,
    /// The handles of the registered workers, in the order of their registration.
    pub workers: Seq<H>,
    /// The future that forces the end of a shutdown.
    pub terminator: Option<F>,
    /// The shutdown token that the monitor shares with its workers.
    pub shutdown: Arc<S>,
    /// The event handler that the monitor shares with its workers.
    pub event_handler: Arc<E>,
}

impl<F, H, S, E> MonitorView<F, H, S, E> {
    /// Whether futures and workers are paired by `runs`: there are as many of one as of the
    /// other, and it holds of the worker and the future in each place.
    pub open spec fn paired_by(self, runs: spec_fn(H, F) -> bool) -> bool {
        &&& self.futures.len() == self.workers.len()
        &&& forall|i: int|
            #![trigger self.workers[i]]
            #![trigger self.futures[i]]
            0 <= i < self.workers.len() ==> runs(self.workers[i], self.futures[i])
    }

    /// What a run of the monitor polls, with or without a shutdown signal.
    pub open spec fn plan(self, signal: bool) -> Plan {
        Plan { signal, terminator: self.terminator is Some }
    }

    /// The monitor after the worker with this handle, run by this future, has been added.
    pub open spec fn add(self, handle: H, future: F) -> Self {
        MonitorView {
            futures: self.futures.push(future),
            workers: self.workers.push(handle),
            ..self
        }
    }

    /// `worker`, tied to the monitor: it obeys the monitor's shutdown token, and its events go
    /// to the monitor's event handler.
    pub open spec fn tie<B>(self, worker: Worker<Ready<B, S, E>>) -> Worker<Ready<B, S, E>> {
        Worker {
            id: worker.id,
            state: Ready {
                body: worker.state.body,
                shutdown: Some(self.shutdown),
                event_handler: self.event_handler,
            },
        }
    }

    /// Whether `copy` is the copy with number `index` of `worker`, tied to the monitor.
    pub open spec fn is_copy<B: Clone>(
        self,
        worker: Worker<Ready<B, S, E>>,
        index: int,
        copy: Worker<Ready<B, S, E>>,
    ) -> bool {
        &&& copy.id@ == crate::worker::numbered_name(worker.id@, index as nat)
        &&& cloned(worker.state.body, copy.state.body)
        &&& copy.state.shutdown == Some(self.shutdown)
        &&& copy.state.event_handler == self.event_handler
    }

    /// Whether `copies` are `count` copies of `worker`, numbered from 0 and tied to the
    /// monitor, and `run` gave these handles and futures of them.
    pub open spec fn runs_copies<B: Clone, R: Fn(Worker<Ready<B, S, E>>) -> (H, F)>(
        self,
        worker: Worker<Ready<B, S, E>>,
        run: R,
        count: nat,
        copies: Seq<Worker<Ready<B, S, E>>>,
        handles: Seq<H>,
        futures: Seq<F>,
    ) -> bool {
        &&& copies.len() == count
        &&& handles.len() == count
        &&& futures.len() == count
        &&& forall|i: int|
            #![trigger copies[i]]
            #![trigger handles[i]]
            #![trigger futures[i]]
            0 <= i < count ==> self.is_copy(worker, i, copies[i]) && call_ensures(
                run,
                (copies[i],),
                (handles[i], futures[i]),
            )
    }
}

/// A monitor for coordinating and managing a collection of workers.
///
/// `F` is a future that runs a worker, or forces the end of a shutdown; `H` is a handle of a
/// running worker; `S` holds the shutdown token and `E` the event handler, both shared.
pub struct Monitor<F, H, S, E> {
    futures: Vec<F>,
    workers: Vec<H>,
    terminator: Option<F>,
    shutdown: Arc<S>,
    event_handler: Arc<E>,
}

impl<F, H, S, E> View for Monitor<F, H, S, E> {
    type V = MonitorView<F, H, S, E>;

    closed spec fn view(&self) -> MonitorView<F, H, S, E> {
        MonitorView {
            futures: self.futures@,
            workers: self.workers@,
            terminator: self.terminator,
            shutdown: self.shutdown,
            event_handler: self.event_handler,
        }
    }
}

/// What it takes to drive a run of a monitor.
pub struct Running<F, H, S> {
    /// The futures of the workers, to be polled until each has completed.
    pub futures: Vec<F>,
    /// The terminator, to be polled once the shutdown has begun.
    pub terminator: Option<F>,
    /// The shutdown token.
    pub shutdown: Arc<S>,
    /// The state of the run.
    pub state: RunState<H>,
}

/// Sets the event handler in its place: `handler` takes over from any handler set before.
///
/// `place` is `None` where the place cannot be reached because a panic poisoned it; then
/// nothing changes.
pub fn set_handler<G>(place: Option<&mut Option<G>>, handler: G)
    ensures
        place matches Some(reached) ==> *final(reached) == Some(handler),
{
    if let Some(reached) = place {
        *reached = Some(handler);
    }
}

impl<F, H, S, E> Monitor<F, H, S, E> {
    /// Registers a single instance of a worker.
    ///
    /// The worker is tied to the monitor, then run by `run`, which returns the worker's handle
    /// and the future that runs it.
    pub fn register<B, R>(self, worker: Worker<Ready<B, S, E>>, run: R) -> (monitor: Self) where
        R: FnOnce(Worker<Ready<B, S, E>>) -> (H, F),

        requires
            call_requires(run, (self@.tie(worker),)),
        ensures
            exists|handle: H, future: F| #[trigger]
                call_ensures(run, (self@.tie(worker),), (handle, future)) && monitor@ == self@.add(
                    handle,
                    future,
                ),
    {
        let worker = self.tie(worker);
        let (handle, future) = run(worker);
        self.add(handle, future)
    }

    /// Registers `count` copies of a worker, named after it and numbered from 0.
    ///
    /// Each copy is tied to the monitor, then run by `run`, which returns the copy's handle
    /// and the future that runs it.
    pub fn register_with_count<B, R>(
        self,
        count: usize,
        worker: Worker<Ready<B, S, E>>,
        run: R,
    ) -> (monitor: Self) where B: Clone, R: Fn(Worker<Ready<B, S, E>>) -> (H, F)
        requires
            forall|i: int, copy: Worker<Ready<B, S, E>>|
                0 <= i < count && #[trigger] self@.is_copy(worker, i, copy) ==> call_requires(
                    run,
                    (copy,),
                ),
        ensures
            exists|copies: Seq<Worker<Ready<B, S, E>>>, handles: Seq<H>, futures: Seq<F>| #[trigger]
                self@.runs_copies(worker, run, count as nat, copies, handles, futures) && monitor@
                    == (MonitorView {
                    futures: self@.futures + futures,
                    workers: self@.workers + handles,
                    ..self@
                }),
    {
        let ghost before = self@;
        let mut monitor = self;
        let mut index: usize = 0;
        let ghost mut copies: Seq<Worker<Ready<B, S, E>>> = Seq::empty();
        let ghost mut handles: Seq<H> = Seq::empty();
        let ghost mut futures: Seq<F> = Seq::empty();
        assert(monitor@ =~= (MonitorView {
            futures: before.futures + futures,
            workers: before.workers + handles,
            ..before
        }));
        while index < count
            invariant
                index <= count,
                forall|i: int, copy: Worker<Ready<B, S, E>>|
                    0 <= i < count && #[trigger] before.is_copy(worker, i, copy) ==> call_requires(
                        run,
                        (copy,),
                    ),
                before.runs_copies(worker, run, index as nat, copies, handles, futures),
                monitor@ == (MonitorView {
                    futures: before.futures + futures,
                    workers: before.workers + handles,
                    ..before
                }),
            decreases count - index,
        {
            let copy = Worker {
                id: worker.id.numbered(index),
                state: Ready {
                    body: worker.state.body.clone(),
                    shutdown: None,
                    event_handler: worker.state.event_handler.clone(),
                },
            };
            let copy = monitor.tie(copy);
            assert(before.is_copy(worker, index as int, copy));
            proof {
                copies = copies.push(copy);
            }
            let (handle, future) = run(copy);
            proof {
                handles = handles.push(handle);
                futures = futures.push(future);
            }
            monitor = monitor.add(handle, future);
            index = index + 1;
            assert(monitor@ =~= (MonitorView {
                futures: before.futures + futures,
                workers: before.workers + handles,
                ..before
            }));
        }
        monitor
    }

    /// Ties `worker` to the monitor.
    fn tie<B>(&self, worker: Worker<Ready<B, S, E>>) -> (tied: Worker<Ready<B, S, E>>)
        ensures
            tied == self@.tie(worker),
    {
        let mut tied = worker;
        tied.state.shutdown = Some(self.shutdown.clone());
        tied.state.event_handler = self.event_handler.clone();
        tied
    }

    /// Adds the worker with this handle, run by this future.
    fn add(self, handle: H, future: F) -> (monitor: Self)
        ensures
            monitor@ == self@.add(handle, future),
    {
        let mut monitor = self;
        monitor.workers.push(handle);
        monitor.futures.push(future);
        monitor
    }

    /// Sets a future that will start being polled when the monitor's shutdown process starts.
    ///
    /// Once the shutdown has begun the terminator is polled, and if it completes before all
    /// workers have, the run ends all the same, with an error. This can be used to force a full shutdown,
    /// by a timeout or a signal, when a task takes longer than expected to finish.
    pub fn with_terminator(self, future: F) -> (monitor: Self)
        ensures
            monitor@ == (MonitorView { terminator: Some(future), ..self@ }),
    {
        let mut monitor = self;
        monitor.terminator = Some(future);
        monitor
    }

    /// Sets a timeout for the monitor's shutdown process: its terminator is the future that
    /// `sleep` makes of `duration`.
    pub fn shutdown_timeout<Z>(self, duration: Duration, sleep: Z) -> (monitor: Self) where
        Z: FnOnce(Duration) -> F,

        requires
            call_requires(sleep, (duration,)),
        ensures
            exists|future: F| #[trigger]
                call_ensures(sleep, (duration,), future) && monitor@ == (MonitorView {
                    terminator: Some(future),
                    ..self@
                }),
    {
        self.with_terminator(sleep(duration))
    }

    /// Handles the events that the workers emit with `handler`.
    ///
    /// `install` puts the handler into the place that the monitor shares with its workers, those
    /// registered before and those registered after; see [`set_handler`].
    pub fn on_event<G, I>(self, handler: G, install: I) -> (monitor: Self) where
        I: FnOnce(Arc<E>, G),

        requires
            call_requires(install, (self@.event_handler, handler)),
        ensures
            monitor@ == self@,
            call_ensures(install, (self@.event_handler, handler), ()),
    {
        install(self.event_handler.clone(), handler);
        self
    }

    /// Runs the monitor and all its registered workers until they have all completed.
    ///
    /// Once all workers have completed, the run starts the shutdown. With a terminator set, a
    /// shutdown that was started before that lasts no longer than the terminator: the run then
    /// exits forcefully, with an error.
    pub fn run(self) -> (running: Running<F, H, S>)
        ensures
            running.futures@ == self@.futures,
            running.terminator == self@.terminator,
            running.shutdown == self@.shutdown,
            running.state@ == RunView::begin(
                self@.plan(false),
                self@.workers,
                self@.futures.len(),
            ),
            running.state@.plan.terminator <==> self@.terminator is Some,
            running.state@.plan.signal == false,
            running.state@.workers == self@.workers,
            running.state@.remaining == self@.futures.len(),
    {
        self.begin(false)
    }

    /// Runs the monitor and all its registered workers until they have all completed, and
    /// tells them to stop when a shutdown signal is received.
    ///
    /// The run exits once all workers have completed, whether or not the signal has come; the
    /// signal does not cut them short. With a terminator set, the run waits for the workers
    /// no longer than the terminator, which starts with the shutdown: it then exits
    /// forcefully, with an error.
    pub fn run_with_signal(self) -> (running: Running<F, H, S>)
        ensures
            running.futures@ == self@.futures,
            running.terminator == self@.terminator,
            running.shutdown == self@.shutdown,
            running.state@ == RunView::begin(
                self@.plan(true),
                self@.workers,
                self@.futures.len(),
            ),
            running.state@.plan.terminator <==> self@.terminator is Some,
            running.state@.plan.signal == true,
            running.state@.workers == self@.workers,
            running.state@.remaining == self@.futures.len(),
    {
        self.begin(true)
    }

    /// Begins a run, with or without a shutdown signal.
    fn begin(self, signal: bool) -> (running: Running<F, H, S>)
        ensures
            running.futures@ == self@.futures,
            running.terminator == self@.terminator,
            running.shutdown == self@.shutdown,
            running.state@ == RunView::begin(
                self@.plan(signal),
                self@.workers,
                self@.futures.len(),
            ),
    {
        let remaining = self.futures.len();
        let plan = Plan { signal, terminator: self.terminator.is_some() };
        Running {
            futures: self.futures,
            terminator: self.terminator,
            shutdown: self.shutdown,
            state: RunState::begin(plan, self.workers, remaining),
        }
    }

    /// The shutdown token that the monitor shares with its workers.
    pub fn shutdown(&self) -> (shutdown: &Arc<S>)
        ensures
            *shutdown == self@.shutdown,
    {
        &self.shutdown
    }

    /// The event handler that the monitor shares with its workers.
    pub fn event_handler(&self) -> (event_handler: &Arc<E>)
        ensures
            *event_handler == self@.event_handler,
    {
        &self.event_handler
    }

    /// How many workers are registered.
    pub fn worker_count(&self) -> (count: usize)
        ensures
            count == self@.futures.len(),
    {
        self.futures.len()
    }

    /// The monitor as text, for debugging.
    pub fn debug_text(&self) -> (text: String)
        ensures
            text@ == "Monitor { shutdown: \"[Graceful shutdown listener]\", workers: "@
                + crate::decimal::decimal(self@.futures.len()) + " }"@,
    {
        let mut text = String::new();
        text.append("Monitor { shutdown: \"[Graceful shutdown listener]\", workers: ");
        append_decimal(&mut text, self.futures.len());
        text.append(" }");
        text
    }
}

impl<F, H, S: Default, E: Default> Default for Monitor<F, H, S, E> {
    fn default() -> (monitor: Self)
        ensures
            monitor@.futures == Seq::<F>::empty(),
            monitor@.workers == Seq::<H>::empty(),
            monitor@.terminator is None,
            call_ensures(S::default, (), *monitor@.shutdown),
            call_ensures(E::default, (), *monitor@.event_handler),
    {
        Monitor {
            shutdown: Arc::default(),
            futures: Vec::new(),
            terminator: None,
            event_handler: Arc::default(),
            workers: Vec::new(),
        }
    }
}

impl<F, H, S: Default, E: Default> Monitor<F, H, S, E> {
    /// Creates a new monitor instance, with an empty collection of workers.
    pub fn new() -> (monitor: Self)
        ensures
            monitor@.futures == Seq::<F>::empty(),
            monitor@.workers == Seq::<H>::empty(),
            monitor@.terminator is None,
            call_ensures(S::default, (), *monitor@.shutdown),
            call_ensures(E::default, (), *monitor@.event_handler),
    {
        Self::default()
    }
}

/// The workers of a monitor share one shutdown token and one event handler, those registered
/// before other workers and those registered after them.
pub proof fn law_workers_share_the_monitor<F, H, S, E, B, C>(
    monitor: MonitorView<F, H, S, E>,
    handle: H,
    future: F,
    terminator: F,
    earlier: Worker<Ready<B, S, E>>,
    later: Worker<Ready<C, S, E>>,
)
    ensures
        ({
            let grown = (MonitorView { terminator: Some(terminator), ..monitor.add(handle, future) });
            let first = monitor.tie(earlier).state;
            let second = grown.tie(later).state;
            &&& first.shutdown == Some(monitor.shutdown)
            &&& first.shutdown == second.shutdown
            &&& first.event_handler == second.event_handler
        }),
{
}

/// An event handler serves the workers registered before it was set and those registered after.
///
/// `serves` is whatever `install` achieves of a place and the handler put there. It holds of the
/// place that a worker is tied to, whether the handler is set first and the worker registered
/// then, or the other way round.
pub proof fn law_handler_serves_earlier_and_later_workers<F, H, S, E, B, G, I: FnOnce(Arc<E>, G)>(
    monitor: MonitorView<F, H, S, E>,
    worker: Worker<Ready<B, S, E>>,
    handle: H,
    future: F,
    handler: G,
    install: I,
    serves: spec_fn(Arc<E>, G) -> bool,
)
    requires
        forall|place: Arc<E>, g: G| #[trigger]
            call_ensures(install, (place, g), ()) ==> serves(place, g),
    ensures
        ({
            let place = monitor.tie(worker).state.event_handler;
            let registered = monitor.add(handle, future);
            &&& call_ensures(install, (monitor.event_handler, handler), ()) <==> call_ensures(
                install,
                (registered.event_handler, handler),
                (),
            )
            &&& call_ensures(install, (monitor.event_handler, handler), ()) ==> serves(
                place,
                handler,
            )
            &&& call_ensures(install, (registered.event_handler, handler), ()) ==> serves(
                place,
                handler,
            )
        }),
{
}

/// Futures and workers stay paired. Where every call of `run` returns a handle and a future of
/// which `runs` holds, it holds of the worker and the future in each place: of a monitor
/// without workers, after each registration, and whatever terminator is set. A run then waits
/// for as many workers as the shutdown signal wakes.
pub proof fn law_futures_and_workers_are_paired<
    F,
    H,
    S,
    E,
    B,
    R: FnOnce(Worker<Ready<B, S, E>>) -> (H, F),
>(
    monitor: MonitorView<F, H, S, E>,
    runs: spec_fn(H, F) -> bool,
    worker: Worker<Ready<B, S, E>>,
    run: R,
    handle: H,
    future: F,
    terminator: F,
    plan: Plan,
)
    requires
        forall|h: H, f: F| #[trigger]
            call_ensures(run, (monitor.tie(worker),), (h, f)) ==> runs(h, f),
        call_ensures(run, (monitor.tie(worker),), (handle, future)),
    ensures
        monitor.futures.len() == 0 && monitor.workers.len() == 0 ==> monitor.paired_by(runs),
        monitor.paired_by(runs) ==> {
            &&& monitor.add(handle, future).paired_by(runs)
            &&& (MonitorView { terminator: Some(terminator), ..monitor }).paired_by(runs)
            &&& RunView::begin(plan, monitor.workers, monitor.futures.len()).remaining
                == monitor.workers.len()
        },
{
}

/// Futures and workers stay paired when copies of a worker are registered: where every call of
/// `run` on a copy returns a handle and a future of which `runs` holds, it holds of the worker
/// and the future in each place.
pub proof fn law_copies_are_paired<
    F,
    H,
    S,
    E,
    B: Clone,
    R: Fn(Worker<Ready<B, S, E>>) -> (H, F),
>(
    monitor: MonitorView<F, H, S, E>,
    runs: spec_fn(H, F) -> bool,
    worker: Worker<Ready<B, S, E>>,
    run: R,
    count: nat,
    copies: Seq<Worker<Ready<B, S, E>>>,
    handles: Seq<H>,
    futures: Seq<F>,
)
    requires
        monitor.paired_by(runs),
        monitor.runs_copies(worker, run, count, copies, handles, futures),
        forall|i: int, copy: Worker<Ready<B, S, E>>, h: H, f: F|
            0 <= i < count && #[trigger] monitor.is_copy(worker, i, copy) && #[trigger]
                call_ensures(run, (copy,), (h, f)) ==> runs(h, f),
    ensures
        (MonitorView {
            futures: monitor.futures + futures,
            workers: monitor.workers + handles,
            ..monitor
        }).paired_by(runs),
{
    let grown = (MonitorView {
        futures: monitor.futures + futures,
        workers: monitor.workers + handles,
        ..monitor
    });
    let n = monitor.workers.len();
    assert forall|i: int|
        #![trigger grown.workers[i]]
        #![trigger grown.futures[i]]
        0 <= i < grown.workers.len() implies runs(grown.workers[i], grown.futures[i]) by {
        if i < n {
            assert(grown.workers[i] == monitor.workers[i]);
            assert(grown.futures[i] == monitor.futures[i]);
        } else {
            assert(monitor.is_copy(worker, i - n, copies[i - n]));
            assert(grown.workers[i] == handles[i - n]);
            assert(grown.futures[i] == futures[i - n]);
        }
    }
}

/// The copies of a worker all have different names.
pub proof fn law_copies_have_different_names<
    F,
    H,
    S,
    E,
    B: Clone,
    R: Fn(Worker<Ready<B, S, E>>) -> (H, F),
>(
    monitor: MonitorView<F, H, S, E>,
    worker: Worker<Ready<B, S, E>>,
    run: R,
    count: nat,
    copies: Seq<Worker<Ready<B, S, E>>>,
    handles: Seq<H>,
    futures: Seq<F>,
    i: int,
    j: int,
)
    requires
        monitor.runs_copies(worker, run, count, copies, handles, futures),
        0 <= i < j < count,
    ensures
        copies[i].id@ != copies[j].id@,
{
    crate::worker::law_numbered_names_differ(worker.id@, i as nat, j as nat);
}

/// Registering one more copy of a worker registers the copies before it in the same way: the
/// copies are added one by one, each as by a registration of its own.
pub proof fn law_copies_are_added_one_by_one<
    F,
    H,
    S,
    E,
    B: Clone,
    R: Fn(Worker<Ready<B, S, E>>) -> (H, F),
>(
    monitor: MonitorView<F, H, S, E>,
    worker: Worker<Ready<B, S, E>>,
    run: R,
    count: nat,
    copies: Seq<Worker<Ready<B, S, E>>>,
    handles: Seq<H>,
    futures: Seq<F>,
)
    requires
        monitor.runs_copies(worker, run, count + 1, copies, handles, futures),
    ensures
        monitor.runs_copies(
            worker,
            run,
            count,
            copies.drop_last(),
            handles.drop_last(),
            futures.drop_last(),
        ),
        monitor.tie(copies.last()) == copies.last(),
        call_ensures(run, (monitor.tie(copies.last()),), (handles.last(), futures.last())),
        (MonitorView {
            futures: monitor.futures + futures,
            workers: monitor.workers + handles,
            ..monitor
        }) == (MonitorView {
            futures: monitor.futures + futures.drop_last(),
            workers: monitor.workers + handles.drop_last(),
            ..monitor
        }).add(handles.last(), futures.last()),
{
    let n = count as int;
    assert(copies[n] == copies.last());
    assert(monitor.tie(copies.last()) == copies.last());
    assert forall|i: int| 0 <= i < count implies monitor.is_copy(
        worker,
        i,
        #[trigger] copies.drop_last()[i],
    ) && call_ensures(
        run,
        (copies.drop_last()[i],),
        (handles.drop_last()[i], futures.drop_last()[i]),
    ) by {
        assert(copies.drop_last()[i] == copies[i]);
    }
    assert(monitor.futures + futures =~= (monitor.futures + futures.drop_last()).push(
        futures.last(),
    ));
    assert(monitor.workers + handles =~= (monitor.workers + handles.drop_last()).push(
        handles.last(),
    ));
}

/// The run that a monitor begins has a terminator exactly when the monitor has one, and a signal
/// exactly when it is given one, whatever the monitor's workers.
pub proof fn law_run_has_what_the_monitor_has<F, H, S, E>(
    monitor: MonitorView<F, H, S, E>,
    signal: bool,
)
    ensures
        monitor.plan(signal).terminator <==> monitor.terminator is Some,
        monitor.plan(signal).signal == signal,
{
}

/// A terminator that was set forces the end of the shutdown, whatever the number of workers: once
/// the signal has come to a run of the monitor, the terminator is polled, and the run ends with
/// it though workers are outstanding.
pub proof fn law_terminator_forces_the_end<F, H, S, E, W, L, X>(
    monitor: MonitorView<F, H, S, E>,
    terminator: F,
    token: ShutdownView<W, L>,
    token_then: ShutdownView<W, L>,
    signal: Event<W, X>,
)
    requires
        monitor.futures.len() > 0,
        signal is Signal,
    ensures
        ({
            let timed = (MonitorView { terminator: Some(terminator), ..monitor });
            let begun = RunView::begin(timed.plan(true), timed.workers, timed.futures.len());
            let signalled = begun.step(token, signal);
            let end = Event::<W, X>::Terminator;
            &&& signalled.awaits(Source::Terminator)
            &&& signalled.accepts(token_then, end)
            &&& signalled.step(token_then, end).finished()
            &&& signalled.step(token_then, end).remaining == monitor.futures.len()
        }),
{
}

/// Adding a worker puts its handle and its future last, leaves every other in its place, and
/// changes nothing else of the monitor.
pub proof fn law_adding_a_worker_changes_no_other<F, H, S, E>(
    monitor: MonitorView<F, H, S, E>,
    handle: H,
    future: F,
)
    ensures
        ({
            let grown = monitor.add(handle, future);
            &&& grown.futures.len() == monitor.futures.len() + 1
            &&& grown.workers.len() == monitor.workers.len() + 1
            &&& grown.futures[monitor.futures.len() as int] == future
            &&& grown.workers[monitor.workers.len() as int] == handle
            &&& forall|i: int|
                0 <= i < monitor.futures.len() ==> #[trigger] grown.futures[i]
                    == monitor.futures[i]
            &&& forall|i: int|
                0 <= i < monitor.workers.len() ==> #[trigger] grown.workers[i]
                    == monitor.workers[i]
            &&& grown.terminator == monitor.terminator
            &&& grown.shutdown == monitor.shutdown
            &&& grown.event_handler == monitor.event_handler
        }),
{
}

/// Tying a worker to a monitor gives it the monitor's token and event handler, whatever it had
/// before, and changes neither its name nor what it runs.
pub proof fn law_tying_gives_token_and_handler<F, H, S, E, B>(
    monitor: MonitorView<F, H, S, E>,
    worker: Worker<Ready<B, S, E>>,
)
    ensures
        monitor.tie(worker).id == worker.id,
        monitor.tie(worker).state.body == worker.state.body,
        monitor.tie(worker).state.shutdown == Some(monitor.shutdown),
        monitor.tie(worker).state.event_handler == monitor.event_handler,
{
}

/// Registering a number of copies runs that many, no more and no fewer. The copy in each place
/// runs a clone of what the worker runs, is tied to the monitor, is named after the worker, and
/// carries the number of its place; the handle and the future in that place are what running it
/// gave.
pub proof fn law_each_copy_is_numbered_by_its_place<
    F,
    H,
    S,
    E,
    B: Clone,
    R: Fn(Worker<Ready<B, S, E>>) -> (H, F),
>(
    monitor: MonitorView<F, H, S, E>,
    worker: Worker<Ready<B, S, E>>,
    run: R,
    count: nat,
    copies: Seq<Worker<Ready<B, S, E>>>,
    handles: Seq<H>,
    futures: Seq<F>,
    i: int,
)
    requires
        monitor.runs_copies(worker, run, count, copies, handles, futures),
        0 <= i < count,
    ensures
        copies.len() == count && handles.len() == count && futures.len() == count,
        call_ensures(run, (copies[i],), (handles[i], futures[i])),
        cloned(worker.state.body, copies[i].state.body),
        copies[i].state.shutdown == Some(monitor.shutdown),
        copies[i].state.event_handler == monitor.event_handler,
        ({
            let name = worker.id@;
            let full = copies[i].id@;
            let number = full.skip(name.len() as int + 1);
            &&& full.len() > name.len() + 1
            &&& full.take(name.len() as int) == name
            &&& full[name.len() as int] == '-'
            &&& forall|k: int| 0 <= k < number.len() ==> '0' <= #[trigger] number[k] <= '9'
            &&& number[0] == '0' ==> number.len() == 1
            &&& crate::decimal::base_ten_value(number) == i
        }),
{
    crate::worker::law_numbered_name_reads_back(worker.id@, i as nat);
}

/// As many copies are run, and as many handles and futures come of it, as were asked for; none
/// where none was.
pub proof fn law_as_many_copies_as_asked_for<
    F,
    H,
    S,
    E,
    B: Clone,
    R: Fn(Worker<Ready<B, S, E>>) -> (H, F),
>(
    monitor: MonitorView<F, H, S, E>,
    worker: Worker<Ready<B, S, E>>,
    run: R,
    count: nat,
    copies: Seq<Worker<Ready<B, S, E>>>,
    handles: Seq<H>,
    futures: Seq<F>,
)
    requires
        monitor.runs_copies(worker, run, count, copies, handles, futures),
    ensures
        copies.len() == count,
        handles.len() == count,
        futures.len() == count,
{
}

/// Anything that is a clone of what the worker runs, tied to the monitor and named as the copy
/// with that number, is accepted as that copy.
pub proof fn law_copy_needs_no_more<F, H, S, E, B: Clone>(
    monitor: MonitorView<F, H, S, E>,
    worker: Worker<Ready<B, S, E>>,
    index: nat,
    copy: Worker<Ready<B, S, E>>,
)
    requires
        copy.id@ == crate::worker::numbered_name(worker.id@, index),
        cloned(worker.state.body, copy.state.body),
        copy.state.shutdown == Some(monitor.shutdown),
        copy.state.event_handler == monitor.event_handler,
    ensures
        monitor.is_copy(worker, index as int, copy),
{
}

/// Futures and workers that are paired by a relation are as many as each other, and those in the
/// same place are in that relation.
pub proof fn law_paired_in_each_place<F, H, S, E>(
    monitor: MonitorView<F, H, S, E>,
    runs: spec_fn(H, F) -> bool,
    i: int,
)
    requires
        monitor.paired_by(runs),
        0 <= i < monitor.futures.len(),
    ensures
        monitor.workers.len() == monitor.futures.len(),
        runs(monitor.workers[i], monitor.futures[i]),
{
    let _ = monitor.workers[i];
}

} // verus!
