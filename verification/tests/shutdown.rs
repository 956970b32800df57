use apalis_monitor::shutdown::{Poll, Shutdown, ShutdownCtx};
use apalis_monitor::wakes::{Listener, Slot, Wake};

type Token = Shutdown<&'static str, u32>;

fn listener(key: u64) -> Listener<u32> {
    Listener {
        key,
        slot: key as u32 * 10,
    }
}

fn keys(token: &Token) -> Vec<u64> {
    token.listeners().iter().map(|l| l.key).collect()
}

#[test]
fn new_token_is_not_shutting_down() {
    let token = Token::new();
    assert!(!token.is_shutting_down());
    assert!(token.listeners().is_empty());
    assert!(!token.is_listeners_poisoned());
    assert!(!token.is_waker_poisoned());
    assert!(!Token::default().is_shutting_down());
}

#[test]
fn start_raises_the_flag_for_good() {
    let mut token = Token::new();
    assert_eq!(token.start_shutdown(vec![]), vec![]);
    assert!(token.is_shutting_down());
    token.register_waker(listener(1));
    assert_eq!(token.poll("task"), Poll::Ready);
    assert_eq!(token.start_shutdown(vec![Slot::Empty]), vec![]);
    assert!(token.is_shutting_down());
}

#[test]
fn the_last_task_to_poll_is_woken_once() {
    let mut token = Token::new();
    assert_eq!(token.poll("earlier"), Poll::Pending);
    assert_eq!(token.poll("last"), Poll::Pending);
    assert_eq!(token.start_shutdown(vec![]), vec![Wake::Task("last")]);
    assert_eq!(token.poll("last"), Poll::Ready);
    assert_eq!(token.start_shutdown(vec![]), vec![]);
}

#[test]
fn registering_a_slot_twice_is_a_no_op() {
    let mut token = Token::new();
    token.register_waker(listener(7));
    token.register_waker(listener(8));
    token.register_waker(Listener { key: 7, slot: 99 });
    assert_eq!(keys(&token), vec![7, 8]);
    assert_eq!(token.listeners()[0].slot, 70);
}

#[test]
fn start_wakes_parked_listeners_and_removes_dropped_ones() {
    let mut token = Token::new();
    for key in 1..=5 {
        token.register_waker(listener(key));
    }
    token.poll("task");
    let seen = vec![
        Slot::Parked("one"),
        Slot::Gone,
        Slot::Empty,
        Slot::Unreadable,
        Slot::Parked("five"),
    ];
    assert_eq!(
        token.start_shutdown(seen),
        vec![
            Wake::Task("task"),
            Wake::Listener("one"),
            Wake::Listener("five"),
        ]
    );
    assert_eq!(keys(&token), vec![1, 3, 4, 5]);
}

#[test]
fn starting_again_wakes_the_parked_again() {
    let mut token = Token::new();
    token.register_waker(listener(1));
    token.register_waker(listener(2));
    token.start_shutdown(vec![Slot::Parked("one"), Slot::Gone]);
    assert_eq!(keys(&token), vec![1]);
    assert_eq!(
        token.start_shutdown(vec![Slot::Parked("one")]),
        vec![Wake::Listener("one")]
    );
    assert_eq!(keys(&token), vec![1]);
    assert_eq!(token.start_shutdown(vec![Slot::Gone]), vec![]);
    assert!(keys(&token).is_empty());
}

#[test]
fn a_dropped_slot_can_be_registered_anew() {
    let mut token = Token::new();
    token.register_waker(listener(3));
    token.start_shutdown(vec![Slot::Gone]);
    token.register_waker(listener(3));
    assert_eq!(keys(&token), vec![3]);
}

#[test]
fn poisoned_listeners_are_left_alone() {
    let mut token = Token::new();
    token.register_waker(listener(1));
    token.poll("task");
    token.poison_listeners();
    assert!(token.is_listeners_poisoned());
    token.register_waker(listener(2));
    assert_eq!(keys(&token), vec![1]);
    assert_eq!(token.start_shutdown(vec![]), vec![Wake::Task("task")]);
    assert!(token.is_shutting_down());
    assert_eq!(keys(&token), vec![1]);
}

#[test]
fn a_started_token_is_ready_though_its_waker_is_poisoned() {
    let mut token = Token::new();
    token.start_shutdown(vec![]);
    token.poison_waker();
    assert!(token.is_waker_poisoned());
    assert_eq!(token.poll("task"), Poll::Ready);
}

#[test]
fn the_flag_is_raised_though_the_waker_is_poisoned() {
    let mut token = Token::new();
    token.register_waker(listener(1));
    token.poison_waker();
    token.raise_flag();
    assert!(token.is_shutting_down());
    assert!(token.is_waker_poisoned());
    assert_eq!(keys(&token), vec![1]);
    assert_eq!(token.poll("task"), Poll::Ready);
}

#[test]
fn shutdown_after_hands_on_the_output() {
    let mut token = Token::new();
    token.poll("task");
    let (output, wakes) = token.shutdown_after("output", vec![]);
    assert_eq!(output, "output");
    assert_eq!(wakes, vec![Wake::Task("task")]);
    assert!(token.is_shutting_down());
}

#[test]
fn context_operations_one_by_one() {
    let mut ctx = ShutdownCtx::<&'static str, u32>::new();
    assert!(!ctx.is_shutting_down());
    assert_eq!(ctx.wake(), None);
    assert_eq!(ctx.wake_listeners(vec![]), vec![]);
    assert!(!ctx.is_shutting_down());
    assert_eq!(ctx.shutdown(vec![]), vec![]);
    assert!(ctx.is_shutting_down());
}
