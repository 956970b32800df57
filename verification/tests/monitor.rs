use std::sync::{Arc, Mutex};
use std::time::Duration;

use apalis_monitor::decimal::append_decimal;
use apalis_monitor::monitor::{set_handler, Monitor};
use apalis_monitor::run::Source;
use apalis_monitor::shutdown::Shutdown;
use apalis_monitor::worker::{Ready, Worker, WorkerId};

type Token = Shutdown<u8, u8>;
type Events = Option<&'static str>;
type Idle = Worker<Ready<u8, Token, Events>>;
/// The handle of a worker: its name, and what it shares with its monitor.
type Handle = (String, Arc<Token>, Arc<Events>);
type Plain = Monitor<String, Handle, Token, Events>;

fn worker(name: &str, body: u8) -> Idle {
    Worker {
        id: WorkerId::new(name.to_string()),
        state: Ready {
            body,
            shutdown: None,
            event_handler: Arc::new(None),
        },
    }
}

fn start(worker: Idle) -> (Handle, String) {
    let name = worker.id.name().to_string();
    let future = format!("{name}:{}", worker.state.body);
    let shutdown = worker.state.shutdown.expect("the worker is tied");
    ((name, shutdown, worker.state.event_handler), future)
}

#[test]
fn new_monitor_is_empty() {
    let monitor = Plain::new();
    assert_eq!(monitor.worker_count(), 0);
    assert!(!monitor.shutdown().is_shutting_down());
    assert_eq!(**monitor.event_handler(), None);
    let running = monitor.run_with_signal();
    assert!(running.futures.is_empty());
    assert!(running.terminator.is_none());
    assert_eq!(Plain::default().worker_count(), 0);
}

#[test]
fn registered_workers_share_the_token_and_the_handler() {
    let monitor = Plain::new()
        .register(worker("a", 1), start)
        .register(worker("b", 2), start);
    assert_eq!(monitor.worker_count(), 2);
    let shutdown = monitor.shutdown().clone();
    let events = monitor.event_handler().clone();
    let running = monitor.run();
    assert_eq!(running.futures, vec!["a:1", "b:2"]);
    assert!(Arc::ptr_eq(&running.shutdown, &shutdown));
    for (index, name) in ["a", "b"].iter().enumerate() {
        let handle = &running.state.workers()[index];
        assert_eq!(handle.0, *name);
        assert!(Arc::ptr_eq(&handle.1, &shutdown));
        assert!(Arc::ptr_eq(&handle.2, &events));
    }
    assert_eq!(running.state.remaining(), 2);
}

#[test]
fn copies_are_named_and_numbered() {
    let monitor = Plain::new()
        .register(worker("first", 0), start)
        .register_with_count(11, worker("tango", 9), start);
    assert_eq!(monitor.worker_count(), 12);
    let shutdown = monitor.shutdown().clone();
    let running = monitor.run_with_signal();
    assert_eq!(running.futures[0], "first:0");
    for index in 0..11 {
        let handle = &running.state.workers()[index + 1];
        assert_eq!(handle.0, format!("tango-{index}"));
        assert!(Arc::ptr_eq(&handle.1, &shutdown));
        assert_eq!(running.futures[index + 1], format!("tango-{index}:9"));
    }
}

#[test]
fn no_copies_leave_the_monitor_as_it_is() {
    let monitor = Plain::new().register_with_count(0, worker("tango", 9), start);
    assert_eq!(monitor.worker_count(), 0);
}

#[test]
fn the_last_terminator_counts() {
    let running = Plain::new()
        .with_terminator("one".to_string())
        .with_terminator("two".to_string())
        .register(worker("a", 1), start)
        .run_with_signal();
    assert_eq!(running.terminator.as_deref(), Some("two"));
    assert_eq!(running.state.next_poll(None), Some(Source::Workers));
}

#[test]
fn a_timeout_is_a_terminator() {
    let running = Plain::new()
        .shutdown_timeout(Duration::from_secs(5), |d| format!("sleep {}", d.as_secs()))
        .run_with_signal();
    assert_eq!(running.terminator.as_deref(), Some("sleep 5"));
}

#[test]
fn run_without_a_signal_keeps_the_terminator() {
    let running = Plain::new()
        .with_terminator("one".to_string())
        .register(worker("a", 1), start)
        .run();
    assert_eq!(running.terminator.as_deref(), Some("one"));
    assert!(!running.state.is_awaiting(Source::Signal));
    assert!(!running.state.is_awaiting(Source::Terminator));
    assert!(running.state.is_awaiting(Source::Shutdown));
}

#[test]
fn without_a_terminator_the_signal_is_polled_first() {
    let running = Plain::new().register(worker("a", 1), start).run_with_signal();
    assert_eq!(running.state.next_poll(None), Some(Source::Signal));
}

#[test]
fn the_last_event_handler_counts() {
    let mut place = None;
    set_handler(Some(&mut place), "one");
    assert_eq!(place, Some("one"));
    set_handler(None, "out of reach");
    assert_eq!(place, Some("one"));
    set_handler(Some(&mut place), "two");
    assert_eq!(place, Some("two"));
}

#[test]
fn the_event_handler_is_the_one_that_the_workers_share() {
    type Shared = Monitor<(), Arc<Mutex<Events>>, Token, Mutex<Events>>;
    type Tied = Worker<Ready<(), Token, Mutex<Events>>>;
    let fresh = || Worker {
        id: WorkerId::new("w".to_string()),
        state: Ready {
            body: (),
            shutdown: None,
            event_handler: Arc::default(),
        },
    };
    let run = |worker: Tied| (worker.state.event_handler, ());
    let install = |place: Arc<Mutex<Events>>, handler| {
        set_handler(place.lock().as_deref_mut().ok(), handler)
    };
    let monitor = Shared::new()
        .register(fresh(), run)
        .on_event("one", install)
        .on_event("two", install)
        .register(fresh(), run);
    let place = monitor.event_handler().clone();
    assert_eq!(*place.lock().unwrap(), Some("two"));
    let running = monitor.run();
    for handle in running.state.workers() {
        assert!(Arc::ptr_eq(handle, &place));
        assert_eq!(*handle.lock().unwrap(), Some("two"));
    }
}

#[test]
fn debug_text_counts_the_workers() {
    let monitor = Plain::new();
    assert_eq!(
        monitor.debug_text(),
        "Monitor { shutdown: \"[Graceful shutdown listener]\", workers: 0 }"
    );
    let monitor = monitor.register_with_count(12, worker("w", 0), start);
    assert_eq!(
        monitor.debug_text(),
        "Monitor { shutdown: \"[Graceful shutdown listener]\", workers: 12 }"
    );
}

#[test]
fn worker_ids() {
    let id = WorkerId::new("rango-tango".to_string());
    assert_eq!(id.name(), "rango-tango");
    assert_eq!(id.numbered(0).name(), "rango-tango-0");
    assert_eq!(id.numbered(10).name(), "rango-tango-10");
    assert_eq!(id.numbered(1).numbered(2).name(), "rango-tango-1-2");
}

#[test]
fn decimal_numerals() {
    for n in [0, 1, 9, 10, 11, 99, 100, 1234567890, usize::MAX] {
        let mut text = "n=".to_string();
        append_decimal(&mut text, n);
        assert_eq!(text, format!("n={n}"));
    }
}
