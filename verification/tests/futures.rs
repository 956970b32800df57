//! Monitors that run workers on real futures.

use std::cell::Cell;
use std::future::{poll_fn, Future};
use std::io;
use std::pin::Pin;
use std::rc::Rc;
use std::sync::{Arc, Mutex, Weak};
use std::task::{Poll, Waker};
use std::time::{Duration, Instant};

use apalis_monitor::monitor::{set_handler, Monitor, Running};
use apalis_monitor::run::{Event, Outstanding, RunState, Source};
use apalis_monitor::shutdown::{Poll as TokenPoll, Shutdown};
use apalis_monitor::wakes::{Listener, Slot, Wake};
use apalis_monitor::worker::{Ready, Worker, WorkerId};
use futures::stream::{FuturesUnordered, StreamExt};
use tokio::time::sleep;

type WakerSlot = Mutex<Option<Waker>>;
type Token = Mutex<Shutdown<Waker, Weak<WakerSlot>>>;
type Task = Pin<Box<dyn Future<Output = ()>>>;
type Events = Mutex<Option<&'static str>>;
type TestMonitor = Monitor<Task, Arc<WakerSlot>, Token, Events>;
type TestWorker = Worker<Ready<Work, Token, Events>>;

/// A queue of tasks: each takes `pause` and is then counted.
#[derive(Clone)]
struct Work {
    tasks: usize,
    pause: Duration,
    done: Rc<Cell<usize>>,
}

impl Work {
    fn new(tasks: usize, pause: Duration) -> Work {
        Work {
            tasks,
            pause,
            done: Rc::new(Cell::new(0)),
        }
    }

    fn idle() -> Work {
        Work::new(0, Duration::ZERO)
    }
}

fn worker(name: String, body: Work) -> TestWorker {
    Worker {
        id: WorkerId::new(name),
        state: Ready {
            body,
            shutdown: None,
            event_handler: Arc::default(),
        },
    }
}

/// Runs a worker: it works off its queue, then parks, and stops between tasks once it is told
/// to. `registered` says whether it hands over its waker slot to the token.
fn start_worker(worker: TestWorker, registered: bool) -> (Arc<WakerSlot>, Task) {
    let slot: Arc<WakerSlot> = Arc::default();
    let token = worker.state.shutdown.expect("the worker is tied");
    if registered {
        let slot = Arc::downgrade(&slot);
        let key = slot.as_ptr() as usize as u64;
        token.lock().unwrap().register_waker(Listener { key, slot });
    }
    let work = worker.state.body;
    let parked = slot.clone();
    let task = async move {
        for _ in 0..work.tasks {
            if token.lock().unwrap().is_shutting_down() {
                return;
            }
            sleep(work.pause).await;
            work.done.set(work.done.get() + 1);
        }
        poll_fn(|cx| {
            if token.lock().unwrap().is_shutting_down() {
                Poll::Ready(())
            } else {
                *parked.lock().unwrap() = Some(cx.waker().clone());
                Poll::Pending
            }
        })
        .await
    };
    (slot, Box::pin(task))
}

fn start(worker: TestWorker) -> (Arc<WakerSlot>, Task) {
    start_worker(worker, false)
}

fn start_registered(worker: TestWorker) -> (Arc<WakerSlot>, Task) {
    start_worker(worker, true)
}

fn look(listener: &Listener<Weak<WakerSlot>>) -> Slot<Waker> {
    match listener.slot.upgrade() {
        None => Slot::Gone,
        Some(slot) => match &*slot.lock().unwrap() {
            None => Slot::Empty,
            Some(waker) => Slot::Parked(waker.clone()),
        },
    }
}

fn step(
    token: &Token,
    run: &mut RunState<Arc<WakerSlot>>,
    event: impl FnOnce(Vec<Slot<Waker>>) -> Event<Waker, io::Error>,
) {
    let wakes = {
        let mut token = token.lock().unwrap();
        let seen = token.listeners().iter().map(look).collect();
        run.step(&mut token, event(seen))
    };
    for wake in wakes {
        match wake {
            Wake::Task(waker) | Wake::Listener(waker) => waker.wake(),
            Wake::Worker(index) => {
                if let Some(waker) = &*run.workers()[index].lock().unwrap() {
                    waker.wake_by_ref();
                }
            }
        }
    }
}

async fn drive(
    running: Running<Task, Arc<WakerSlot>, Token>,
    signal: impl Future<Output = io::Result<()>>,
) -> Result<(), Outstanding> {
    let token = running.shutdown;
    let mut workers: FuturesUnordered<Task> = running.futures.into_iter().collect();
    let mut terminator = running.terminator;
    let mut signal = Box::pin(signal);
    let mut run = running.state;
    let own: Arc<WakerSlot> = Arc::default();
    if run.is_watching() {
        let slot = Arc::downgrade(&own);
        let key = slot.as_ptr() as usize as u64;
        token.lock().unwrap().register_waker(Listener { key, slot });
    }
    poll_fn(move |cx| {
        let mut polled = None;
        while let Some(source) = run.next_poll(polled) {
            match source {
                Source::Workers => {
                    let mut finished = 0;
                    while let Poll::Ready(Some(())) = workers.poll_next_unpin(cx) {
                        finished += 1;
                    }
                    step(&token, &mut run, |seen| Event::Workers { finished, seen });
                }
                Source::Signal => {
                    if let Poll::Ready(result) = signal.as_mut().poll(cx) {
                        step(&token, &mut run, |seen| Event::Signal { result, seen });
                    }
                }
                Source::Terminator => {
                    if terminator.as_mut().unwrap().as_mut().poll(cx).is_ready() {
                        step(&token, &mut run, |_| Event::Terminator);
                    }
                }
                Source::Shutdown => {
                    let waker = cx.waker().clone();
                    *own.lock().unwrap() = Some(waker.clone());
                    step(&token, &mut run, |_| Event::Shutdown { waker });
                }
            }
            polled = Some(source);
        }
        match run.exit() {
            Some(exit) => Poll::Ready(exit),
            None => Poll::Pending,
        }
    })
    .await
}

fn block_on<F: Future>(future: F) -> F::Output {
    tokio::runtime::Builder::new_current_thread()
        .enable_time()
        .build()
        .unwrap()
        .block_on(future)
}

fn nap(duration: Duration) -> Task {
    Box::pin(async move { sleep(duration).await })
}

async fn signal_after(millis: u64) -> io::Result<()> {
    sleep(Duration::from_millis(millis)).await;
    Ok(())
}

#[test]
fn it_works_with_workers() {
    let work = Work::new(10, Duration::from_secs(1));
    let done = work.done.clone();
    let monitor = TestMonitor::new().register(worker("rango-tango".to_string(), work), start);
    block_on(drive(monitor.run_with_signal(), signal_after(1500))).unwrap();
    assert_eq!(done.get(), 2);
}

#[test]
fn shutdown_wakes_idle_workers() {
    const WORKERS: usize = 31;

    let mut monitor = TestMonitor::new();
    for index in 0..WORKERS {
        monitor = monitor.register(worker(format!("idle-{index}"), Work::idle()), start);
    }
    let result = block_on(async {
        tokio::time::timeout(
            Duration::from_secs(5),
            drive(monitor.run_with_signal(), signal_after(100)),
        )
        .await
    });
    let exit = match result {
        Ok(exit) => exit,
        Err(_) => panic!("monitor did not shut down {WORKERS} idle workers"),
    };
    exit.unwrap();
}

#[test]
fn signal_shutdown_drains_active_work_with_many_idle_workers() {
    const IDLE_WORKERS: usize = 40;

    let busy = Work::new(1, Duration::from_millis(300));
    let completed = busy.done.clone();
    let mut monitor = TestMonitor::new()
        .register(worker("busy".to_string(), busy), start)
        .shutdown_timeout(Duration::from_secs(5), nap);
    for index in 0..IDLE_WORKERS {
        monitor = monitor.register(worker(format!("idle-{index}"), Work::idle()), start);
    }
    let (exit, elapsed) = block_on(async {
        let begin = Instant::now();
        let exit = drive(monitor.run_with_signal(), signal_after(50)).await;
        (exit, begin.elapsed())
    });
    exit.unwrap();
    assert!(
        elapsed < Duration::from_secs(2),
        "monitor waited for the terminator instead of draining: {elapsed:?}"
    );
    assert!(
        completed.get() == 1,
        "shutdown cut short the in-flight task"
    );
}

#[test]
fn test_monitor_run() {
    let work = Work::new(10, Duration::from_secs(1));
    let monitor = TestMonitor::new();
    let events = monitor.event_handler().clone();
    let monitor = monitor.on_event("print", |place: Arc<Events>, handler| {
        set_handler(place.lock().as_deref_mut().ok(), handler)
    });
    let monitor = monitor.register(worker("rango-tango".to_string(), work), start);
    assert_eq!(monitor.worker_count(), 1);
    let result = block_on(async {
        let result = drive(monitor.run_with_signal(), signal_after(1000)).await;
        sleep(Duration::from_millis(1000)).await;
        result
    });
    assert!(result.is_ok());
    assert_eq!(*events.lock().unwrap(), Some("print"));
}

#[test]
fn the_terminator_ends_a_run_with_a_worker_that_does_not_stop() {
    let busy = Work::new(1, Duration::from_secs(600));
    let completed = busy.done.clone();
    let monitor = TestMonitor::new()
        .register(worker("busy".to_string(), busy), start)
        .with_terminator(nap(Duration::from_millis(50)));
    let exit = block_on(drive(monitor.run_with_signal(), signal_after(50)));
    assert_eq!(exit, Err(Outstanding { remaining: 1 }));
    assert_eq!(completed.get(), 0);
}

/// Starts the shutdown after 50 ms, as another holder of the token, and counts the wakes.
async fn start_from_outside(token: &Token) -> usize {
    sleep(Duration::from_millis(50)).await;
    let wakes = {
        let mut token = token.lock().unwrap();
        let seen = token.listeners().iter().map(look).collect();
        token.start_shutdown(seen)
    };
    let count = wakes.len();
    for wake in wakes {
        if let Wake::Task(waker) | Wake::Listener(waker) = wake {
            waker.wake();
        }
    }
    count
}

fn busy_for_ever() -> TestMonitor {
    let busy = Work::new(1, Duration::from_secs(600));
    TestMonitor::new()
        .register(worker("busy".to_string(), busy), start)
        .with_terminator(Box::pin(std::future::ready(())))
}

fn ends_forcefully(running: Running<Task, Arc<WakerSlot>, Token>) {
    let token = running.shutdown.clone();
    let ended = block_on(async {
        let drive = drive(running, futures::future::pending());
        let both = futures::future::join(drive, start_from_outside(&token));
        tokio::time::timeout(Duration::from_secs(5), both).await
    });
    let (exit, woken) = ended.expect("the terminator ended the run");
    assert_eq!(exit, Err(Outstanding { remaining: 1 }));
    assert_eq!(woken, 1);
}

#[test]
fn the_terminator_ends_a_run_whose_shutdown_was_started_from_outside() {
    ends_forcefully(busy_for_ever().run());
}

#[test]
fn the_terminator_ends_a_run_with_a_signal_whose_shutdown_was_started_from_outside() {
    ends_forcefully(busy_for_ever().run_with_signal());
}

#[test]
fn a_worker_that_awaits_the_token_stops_before_the_terminator() {
    let monitor = TestMonitor::new()
        .register(worker("waiting".to_string(), Work::idle()), |worker| {
            let token = worker.state.shutdown.expect("the worker is tied");
            let task = poll_fn(move |cx| match token.lock().unwrap().poll(cx.waker().clone()) {
                TokenPoll::Ready => Poll::Ready(()),
                TokenPoll::Pending => Poll::Pending,
            });
            (Arc::default(), Box::pin(task) as Task)
        })
        .with_terminator(nap(Duration::from_secs(10)));
    let exit = block_on(async {
        let drive = drive(monitor.run_with_signal(), signal_after(50));
        tokio::time::timeout(Duration::from_secs(5), drive).await
    });
    assert_eq!(exit.expect("the worker was woken"), Ok(()));
}

#[test]
fn a_run_whose_workers_completed_does_not_wait_for_the_signal() {
    let monitor = TestMonitor::new().register(worker("done".to_string(), Work::idle()), |_| {
        (Arc::default(), Box::pin(std::future::ready(())) as Task)
    });
    let ended = block_on(async {
        let drive = drive(monitor.run_with_signal(), futures::future::pending());
        tokio::time::timeout(Duration::from_secs(5), drive).await
    });
    assert_eq!(ended.expect("the run ended"), Ok(()));
}

#[test]
fn a_worker_that_is_gone_is_no_listener_any_more() {
    let monitor = TestMonitor::new()
        .register(worker("one".to_string(), Work::idle()), start_registered)
        .register(worker("two".to_string(), Work::idle()), start_registered);
    let token = monitor.shutdown().clone();
    assert_eq!(token.lock().unwrap().listeners().len(), 2);
    let ended = block_on(async {
        let drive = drive(monitor.run(), futures::future::pending());
        let both = futures::future::join(drive, start_from_outside(&token));
        tokio::time::timeout(Duration::from_secs(5), both).await
    });
    let (exit, woken) = ended.expect("the listeners were woken");
    exit.unwrap();
    assert_eq!(woken, 3);
    let mut token = token.lock().unwrap();
    let seen: Vec<Slot<Waker>> = token.listeners().iter().map(look).collect();
    assert!(seen.iter().all(|slot| matches!(slot, Slot::Gone)));
    assert!(token.start_shutdown(seen).is_empty());
    assert!(token.listeners().is_empty());
}
