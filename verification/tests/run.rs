use apalis_monitor::run::{shutdown_workers, Event, Outstanding, Plan, RunState, Source};
use apalis_monitor::shutdown::Shutdown;
use apalis_monitor::wakes::{Listener, Slot, Wake};

type Token = Shutdown<&'static str, u32>;
type Run = RunState<&'static str>;

const PLAIN: Plan = Plan {
    signal: false,
    terminator: false,
};
const SIGNAL: Plan = Plan {
    signal: true,
    terminator: false,
};
const TERMINATOR: Plan = Plan {
    signal: false,
    terminator: true,
};
const BOTH: Plan = Plan {
    signal: true,
    terminator: true,
};

fn workers(run: &mut Run, token: &mut Token, finished: usize) -> Vec<Wake<&'static str>> {
    run.step(
        token,
        Event::<_, ()>::Workers {
            finished,
            seen: vec![],
        },
    )
}

fn signal(
    run: &mut Run,
    token: &mut Token,
    result: Result<(), &'static str>,
) -> Vec<Wake<&'static str>> {
    run.step(
        token,
        Event::Signal {
            result,
            seen: vec![],
        },
    )
}

fn terminator(run: &mut Run, token: &mut Token) -> Vec<Wake<&'static str>> {
    run.step(token, Event::<_, ()>::Terminator)
}

fn poll_shutdown(run: &mut Run, token: &mut Token) -> Vec<Wake<&'static str>> {
    run.step(token, Event::<_, ()>::Shutdown { waker: "monitor" })
}

/// The sources that a round polls in which nothing comes of any poll.
fn round(run: &Run) -> Vec<Source> {
    let mut polled = Vec::new();
    while let Some(source) = run.next_poll(polled.last().copied()) {
        polled.push(source);
    }
    polled
}

#[test]
fn run_exits_when_all_workers_completed() {
    let mut token = Token::new();
    let mut run = Run::begin(PLAIN, vec!["a", "b"], 2);
    assert_eq!(round(&run), vec![Source::Workers, Source::Shutdown]);
    assert_eq!(workers(&mut run, &mut token, 1), vec![]);
    assert_eq!(run.remaining(), 1);
    assert_eq!(poll_shutdown(&mut run, &mut token), vec![]);
    assert_eq!(run.exit(), None);
    assert!(!token.is_shutting_down());
    assert_eq!(workers(&mut run, &mut token, 1), vec![Wake::Task("monitor")]);
    assert!(token.is_shutting_down());
    assert!(!run.is_finished());
    assert_eq!(run.next_poll(Some(Source::Workers)), Some(Source::Shutdown));
    poll_shutdown(&mut run, &mut token);
    assert!(run.is_finished());
    assert_eq!(run.exit(), Some(Ok(())));
    assert!(round(&run).is_empty());
}

#[test]
fn run_without_workers_starts_the_shutdown_at_once() {
    let mut token = Token::new();
    let mut run = Run::begin(PLAIN, vec![], 0);
    assert_eq!(round(&run), vec![Source::Workers, Source::Shutdown]);
    workers(&mut run, &mut token, 0);
    assert!(token.is_shutting_down());
    poll_shutdown(&mut run, &mut token);
    assert!(run.is_finished());
}

#[test]
fn run_waits_for_workers_though_the_shutdown_has_started() {
    let mut token = Token::new();
    let mut run = Run::begin(PLAIN, vec!["a"], 1);
    token.start_shutdown(vec![]);
    poll_shutdown(&mut run, &mut token);
    assert!(!run.is_finished());
    assert_eq!(round(&run), vec![Source::Workers]);
    workers(&mut run, &mut token, 1);
    assert!(run.is_finished());
}

#[test]
fn a_signal_waits_for_the_workers() {
    let mut token = Token::new();
    let mut run = Run::begin(SIGNAL, vec!["a", "b"], 2);
    assert_eq!(
        round(&run),
        vec![Source::Signal, Source::Workers, Source::Shutdown]
    );
    assert_eq!(
        signal(&mut run, &mut token, Ok(())),
        vec![Wake::Worker(0), Wake::Worker(1)]
    );
    assert!(token.is_shutting_down());
    assert_eq!(run.remaining(), 2);
    assert!(run.is_awaiting(Source::Workers));
    poll_shutdown(&mut run, &mut token);
    assert!(!run.is_finished());
    workers(&mut run, &mut token, 2);
    assert_eq!(run.exit(), Some(Ok(())));
}

#[test]
fn a_drained_run_waits_for_no_signal() {
    let mut token = Token::new();
    let mut run = Run::begin(SIGNAL, vec!["a"], 1);
    workers(&mut run, &mut token, 1);
    assert!(token.is_shutting_down());
    assert_eq!(run.next_poll(Some(Source::Workers)), Some(Source::Shutdown));
    poll_shutdown(&mut run, &mut token);
    assert_eq!(run.exit(), Some(Ok(())));
    assert!(!run.is_awaiting(Source::Signal));
    assert!(round(&run).is_empty());
}

#[test]
fn race_ends_with_the_last_worker() {
    let mut token = Token::new();
    let mut run = Run::begin(BOTH, vec!["a"], 1);
    assert_eq!(
        round(&run),
        vec![Source::Workers, Source::Signal, Source::Shutdown]
    );
    assert!(!run.is_awaiting(Source::Terminator));
    workers(&mut run, &mut token, 1);
    assert_eq!(run.exit(), Some(Ok(())));
    assert!(token.is_shutting_down());
    assert_eq!(run.next_poll(Some(Source::Workers)), None);
}

#[test]
fn race_drains_between_the_signal_and_the_terminator() {
    let mut token = Token::new();
    let mut run = Run::begin(BOTH, vec!["a", "b"], 2);
    signal(&mut run, &mut token, Ok(()));
    workers(&mut run, &mut token, 1);
    assert_eq!(run.exit(), None);
    workers(&mut run, &mut token, 1);
    assert_eq!(run.exit(), Some(Ok(())));
    assert!(!run.is_awaiting(Source::Terminator));
}

#[test]
fn race_fails_when_the_terminator_ends_it() {
    let mut token = Token::new();
    let mut run = Run::begin(BOTH, vec!["a", "b", "c"], 3);
    workers(&mut run, &mut token, 1);
    signal(&mut run, &mut token, Ok(()));
    assert!(!run.is_finished());
    assert!(run.is_awaiting(Source::Terminator));
    assert_eq!(run.next_poll(Some(Source::Signal)), Some(Source::Shutdown));
    poll_shutdown(&mut run, &mut token);
    assert_eq!(run.next_poll(Some(Source::Shutdown)), Some(Source::Terminator));
    assert_eq!(round(&run), vec![Source::Workers, Source::Terminator]);
    assert_eq!(terminator(&mut run, &mut token), vec![]);
    assert_eq!(run.exit(), Some(Err(Outstanding { remaining: 2 })));
    assert!(round(&run).is_empty());
}

#[test]
fn a_terminator_runs_once_the_token_is_found_started() {
    let mut token = Token::new();
    let mut run = Run::begin(TERMINATOR, vec!["a"], 1);
    assert_eq!(round(&run), vec![Source::Workers, Source::Shutdown]);
    poll_shutdown(&mut run, &mut token);
    assert!(!run.is_awaiting(Source::Terminator));
    assert_eq!(token.start_shutdown(vec![]), vec![Wake::Task("monitor")]);
    poll_shutdown(&mut run, &mut token);
    assert_eq!(run.exit(), None);
    assert_eq!(run.next_poll(Some(Source::Shutdown)), Some(Source::Terminator));
    terminator(&mut run, &mut token);
    assert_eq!(run.exit(), Some(Err(Outstanding { remaining: 1 })));
}

#[test]
fn a_run_with_signal_and_terminator_forgets_no_waiting_task() {
    let mut token = Token::new();
    token.poll("waiting");
    let mut run = Run::begin(BOTH, vec!["a"], 1);
    assert!(run.is_watching());
    workers(&mut run, &mut token, 0);
    assert_eq!(poll_shutdown(&mut run, &mut token), vec![]);
    assert_eq!(
        signal(&mut run, &mut token, Ok(())),
        vec![Wake::Task("waiting"), Wake::Worker(0)]
    );
    for plan in [PLAIN, SIGNAL, TERMINATOR] {
        assert!(!Run::begin(plan, vec![], 0).is_watching());
    }
}

#[test]
fn a_watching_run_sees_a_shutdown_started_from_outside() {
    let mut token = Token::new();
    let mut run = Run::begin(BOTH, vec!["a"], 1);
    poll_shutdown(&mut run, &mut token);
    assert!(!run.is_awaiting(Source::Terminator));
    assert_eq!(token.start_shutdown(vec![]), vec![]);
    poll_shutdown(&mut run, &mut token);
    assert!(run.is_awaiting(Source::Terminator));
    assert!(!run.is_awaiting(Source::Shutdown));
    terminator(&mut run, &mut token);
    assert_eq!(run.exit(), Some(Err(Outstanding { remaining: 1 })));
}

#[test]
fn a_terminator_does_not_hold_up_a_drained_run() {
    let mut token = Token::new();
    let mut run = Run::begin(TERMINATOR, vec!["a"], 1);
    workers(&mut run, &mut token, 1);
    assert_eq!(run.exit(), Some(Ok(())));
    assert!(token.is_shutting_down());
}

#[test]
fn an_error_of_the_signal_makes_no_difference() {
    let mut token = Token::new();
    let mut run = Run::begin(SIGNAL, vec!["a"], 1);
    assert_eq!(
        signal(&mut run, &mut token, Err("no signal")),
        vec![Wake::Worker(0)]
    );
    assert!(token.is_shutting_down());
    workers(&mut run, &mut token, 1);
    poll_shutdown(&mut run, &mut token);
    assert_eq!(run.exit(), Some(Ok(())));
}

#[test]
fn the_signal_wakes_the_task_then_listeners_then_workers() {
    let mut token = Token::new();
    token.register_waker(Listener { key: 1, slot: 0 });
    token.register_waker(Listener { key: 2, slot: 0 });
    let mut run = Run::begin(SIGNAL, vec!["a", "b", "c"], 3);
    poll_shutdown(&mut run, &mut token);
    let wakes = run.step(
        &mut token,
        Event::Signal {
            result: Ok::<(), ()>(()),
            seen: vec![Slot::Gone, Slot::Parked("second")],
        },
    );
    assert_eq!(
        wakes,
        vec![
            Wake::Task("monitor"),
            Wake::Listener("second"),
            Wake::Worker(0),
            Wake::Worker(1),
            Wake::Worker(2),
        ]
    );
    assert_eq!(run.workers()[1], "b");
    assert_eq!(token.listeners().len(), 1);
}

#[test]
fn shutdown_workers_wakes_every_worker() {
    let mut token = Token::new();
    let wakes = shutdown_workers(&mut token, &vec!["a", "b"], vec![]);
    assert_eq!(wakes, vec![Wake::Worker(0), Wake::Worker(1)]);
    assert!(token.is_shutting_down());
    let none: Vec<&str> = vec![];
    assert_eq!(shutdown_workers(&mut token, &none, vec![]), vec![]);
}

#[test]
fn run_all_workers_counts_down() {
    let mut token = Token::new();
    let mut run = Run::begin(BOTH, vec![], 3);
    assert_eq!(run.run_all_workers(&mut token, 2, vec![]), vec![]);
    assert_eq!(run.remaining(), 1);
    assert!(!token.is_shutting_down());
    assert_eq!(run.run_all_workers(&mut token, 1, vec![]), vec![]);
    assert_eq!(run.remaining(), 0);
    assert!(token.is_shutting_down());
}
