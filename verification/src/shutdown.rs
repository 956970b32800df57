//! The shutdown token: a flag that is raised once, the task that awaits it, and the workers
//! that are woken when it is raised.
//!
//! The token does no waking of its own. An operation that wakes says which wakes are owed, in
//! order, and its caller carries them out once the operation has returned: by then the flag
//! is up, so whoever is woken observes it.
use vstd::prelude::*;

use crate::wakes::{Listener, Slot, Wake};

verus! {

/// What a poll of the token finds.
#[derive(Clone, Copy, Debug, PartialEq, Eq, Structural)]
pub enum Poll {
    /// The shutdown has started.
    Ready,
    /// It has not; the polling task will be woken when it does.
    Pending,
}

/// The state of a shutdown token, as the contracts speak of it.
#[verifier::ext_equal]
pub struct ShutdownView<W, L> {
    /// Whether the shutdown has started.
    pub started: bool,
    /// The waker of the task that awaits the token, where one is stored.
    pub waker: Option<W>,
    /// Whether a wake of that task panicked, after which its waker is out of reach.
    pub waker_poisoned: bool,
    /// The registered waker slots, oldest first.
    pub listeners: Seq<Listener<L>>,
    /// Whether a wake of a listener panicked, after which the listeners are out of reach.
    pub listeners_poisoned: bool,
}

impl<W, L> ShutdownView<W, L> {
    /// The state of a new token.
    pub open spec fn fresh() -> Self {
        ShutdownView {
            started: false,
            waker: None,
            waker_poisoned: false,
            listeners: Seq::empty(),
            listeners_poisoned: false,
        }
    }

    /// Whether a slot with this key is registered.
    pub open spec fn listens(self, key: u64) -> bool {
        exists|i: int| 0 <= i < self.listeners.len() && (#[trigger] self.listeners[i]).key == key
    }

    /// Whether no slot is registered twice.
    pub open spec fn listeners_distinct(self) -> bool {
        crate::wakes::distinct(self.listeners)
    }

    /// Whether `seen` holds what was found in each listener's slot, as far as the listeners
    /// can be reached.
    pub open spec fn surveyed_by(self, seen: Seq<Slot<W>>) -> bool {
        self.listeners_poisoned || seen.len() == self.listeners.len()
    }

    /// The state after `listener` has been registered.
    pub open spec fn register_waker(self, listener: Listener<L>) -> Self {
        if self.listeners_poisoned || self.listens(listener.key) {
            self
        } else {
            ShutdownView { listeners: self.listeners.push(listener), ..self }
        }
    }

    /// The state after the task with this waker has polled the token.
    pub open spec fn poll(self, waker: W) -> Self {
        if self.started {
            self
        } else {
            ShutdownView { waker: Some(waker), ..self }
        }
    }

    /// The state after the waiting task has been woken.
    pub open spec fn wake(self) -> Self {
        ShutdownView { waker: None, ..self }
    }

    /// The state after the listeners have been woken, their slots being found as `seen` says.
    pub open spec fn wake_listeners(self, seen: Seq<Slot<W>>) -> Self {
        if self.listeners_poisoned {
            self
        } else {
            ShutdownView { listeners: crate::wakes::kept(self.listeners, seen), ..self }
        }
    }

    /// The state after the shutdown has been started, the listeners' slots being found as
    /// `seen` says.
    pub open spec fn start(self, seen: Seq<Slot<W>>) -> Self {
        ShutdownView { started: true, ..self }.wake().wake_listeners(seen)
    }

    /// The wake that is owed to the waiting task.
    pub open spec fn task_wakes(self) -> Seq<Wake<W>> {
        match self.waker {
            Some(waker) => seq![Wake::Task(waker)],
            None => Seq::empty(),
        }
    }

    /// The wakes that are owed to the listeners, their slots being found as `seen` says.
    pub open spec fn listener_wakes(self, seen: Seq<Slot<W>>) -> Seq<Wake<W>> {
        if self.listeners_poisoned {
            Seq::empty()
        } else {
            crate::wakes::listener_wakes(seen)
        }
    }

    /// The wakes that are owed when the shutdown starts: first the waiting task, then the
    /// listeners.
    pub open spec fn start_wakes(self, seen: Seq<Slot<W>>) -> Seq<Wake<W>> {
        self.task_wakes() + self.listener_wakes(seen)
    }
}

/// The state behind a shutdown token.
///
/// `W` is a waker, and `L` the way to a worker's waker slot.
#[derive(Debug)]
pub struct ShutdownCtx<W, L> {
    state: bool,
    waker: Option<W>,
    waker_poisoned: bool,
    /// Waker slots of the workers registered with this token. See
    /// [`Shutdown::register_waker`].
    listeners: Vec<Listener<L>>,
    listeners_poisoned: bool,
}

impl<W, L> View for ShutdownCtx<W, L> {
    type V = ShutdownView<W, L>;

    closed spec fn view(&self) -> ShutdownView<W, L> {
        ShutdownView {
            started: self.state,
            waker: self.waker,
            waker_poisoned: self.waker_poisoned,
            listeners: self.listeners@,
            listeners_poisoned: self.listeners_poisoned,
        }
    }
}

impl<W, L> ShutdownCtx<W, L> {
    /// Creates the state of a new token.
    pub fn new() -> (ctx: Self)
        ensures
            ctx@ == ShutdownView::<W, L>::fresh(),
    {
        ShutdownCtx {
            state: false,
            waker: None,
            waker_poisoned: false,
            listeners: Vec::new(),
            listeners_poisoned: false,
        }
    }

    /// Starts the shutdown: raises the flag, then wakes the waiting task, then the listeners.
    ///
    /// `seen` holds what was found in each listener's slot.
    pub fn shutdown(&mut self, seen: Vec<Slot<W>>) -> (wakes: Vec<Wake<W>>)
        requires
            !old(self)@.waker_poisoned,
            old(self)@.surveyed_by(seen@),
        ensures
            final(self)@ == old(self)@.start(seen@),
            wakes@ == old(self)@.start_wakes(seen@),
    {
        self.state = true;
        let mut wakes: Vec<Wake<W>> = Vec::new();
        if let Some(waker) = self.wake() {
            wakes.push(Wake::Task(waker));
        }
        let mut listener_wakes = self.wake_listeners(seen);
        wakes.append(&mut listener_wakes);
        wakes
    }

    /// Wakes every registered worker that is parked so that it observes the flag, and drops
    /// the slots whose worker is gone.
    ///
    /// `seen` holds what was found in each listener's slot. Where an earlier wake of a
    /// listener panicked the listeners are out of reach, and nothing happens.
    pub fn wake_listeners(&mut self, seen: Vec<Slot<W>>) -> (wakes: Vec<Wake<W>>)
        requires
            old(self)@.surveyed_by(seen@),
        ensures
            final(self)@ == old(self)@.wake_listeners(seen@),
            wakes@ == old(self)@.listener_wakes(seen@),
    {
        let mut wakes: Vec<Wake<W>> = Vec::new();
        if self.listeners_poisoned {
            return wakes;
        }
        let ghost before = *self;
        let ghost listeners = self.listeners@;
        let ghost slots = seen@;
        let mut at: usize = 0;
        assert(listeners.take(0) =~= Seq::empty());
        assert(listeners.skip(0) =~= listeners);
        assert(slots.take(0) =~= Seq::empty());
        for slot in it: seen.into_iter()
            invariant
                it.seq() == slots,
                slots.len() == listeners.len(),
                self.state == before.state,
                self.waker == before.waker,
                self.waker_poisoned == before.waker_poisoned,
                self.listeners_poisoned == before.listeners_poisoned,
                at == crate::wakes::kept(listeners.take(it.index()), slots).len(),
                self.listeners@ == crate::wakes::kept(listeners.take(it.index()), slots)
                    + listeners.skip(it.index()),
                wakes@ == crate::wakes::listener_wakes(slots.take(it.index())),
        {
            let ghost i = it.index();
            let ghost done = crate::wakes::kept(listeners.take(i), slots);
            proof {
                assert(listeners.take(i + 1).drop_last() =~= listeners.take(i));
                assert(listeners.take(i + 1).last() == listeners[i]);
                assert(slots.take(i + 1).drop_last() =~= slots.take(i));
                assert(listeners.skip(i).drop_first() =~= listeners.skip(i + 1));
                assert(self.listeners@[at as int] == listeners[i]);
                assert(at < self.listeners.len());
            }
            match slot {
                Slot::Gone => {
                    self.listeners.remove(at);
                    assert(self.listeners@ =~= done + listeners.skip(i + 1));
                },
                Slot::Unreadable | Slot::Empty => {
                    at = at + 1;
                    assert(self.listeners@ =~= done.push(listeners[i]) + listeners.skip(i + 1));
                },
                Slot::Parked(waker) => {
                    wakes.push(Wake::Listener(waker));
                    at = at + 1;
                    assert(self.listeners@ =~= done.push(listeners[i]) + listeners.skip(i + 1));
                },
            }
        }
        proof {
            assert(listeners.take(listeners.len() as int) =~= listeners);
            assert(slots.take(slots.len() as int) =~= slots);
            assert(self.listeners@ =~= crate::wakes::kept(listeners, slots));
        }
        wakes
    }

    /// Whether the shutdown has started.
    pub fn is_shutting_down(&self) -> (started: bool)
        ensures
            started == self@.started,
    {
        self.state
    }

    /// Takes out the waker of the waiting task, which is to be woken.
    pub fn wake(&mut self) -> (waker: Option<W>)
        requires
            !old(self)@.waker_poisoned,
        ensures
            final(self)@ == old(self)@.wake(),
            waker == old(self)@.waker,
    {
        self.waker.take()
    }
}

/// A shutdown token that stops execution.
#[derive(Debug)]
pub struct Shutdown<W, L> {
    inner: ShutdownCtx<W, L>,
}

impl<W, L> View for Shutdown<W, L> {
    type V = ShutdownView<W, L>;

    closed spec fn view(&self) -> ShutdownView<W, L> {
        self.inner@
    }
}

impl<W, L> Shutdown<W, L> {
    /// Creates a new shutdown token.
    pub fn new() -> (shutdown: Shutdown<W, L>)
        ensures
            shutdown@ == ShutdownView::<W, L>::fresh(),
    {
        Shutdown { inner: ShutdownCtx::new() }
    }

    /// Starts the shutdown once a future has been awaited, and hands on what it resolved to.
    ///
    /// `output` is what the future resolved to, and `seen` holds what was found in each
    /// listener's slot.
    pub fn shutdown_after<T>(&mut self, output: T, seen: Vec<Slot<W>>) -> (res: (T, Vec<Wake<W>>))
        requires
            !old(self)@.waker_poisoned,
            old(self)@.surveyed_by(seen@),
        ensures
            res.0 == output,
            final(self)@ == old(self)@.start(seen@),
            res.1@ == old(self)@.start_wakes(seen@),
    {
        let wakes = self.start_shutdown(seen);
        (output, wakes)
    }

    /// Registers a worker's waker slot, to be woken the moment the shutdown starts.
    ///
    /// Awaiting the token is not enough for a worker: one that is parked on an idle backend
    /// is re-polled only when its own waker fires, and raising the flag does not touch that
    /// waker. Each worker therefore hands over its waker slot here, once.
    ///
    /// The slot is only pointed at, so a dropped worker does not stay alive for it; slots of
    /// dropped workers are removed when the shutdown starts. Registering a slot twice is a
    /// no-op, and so is registering one when the listeners are out of reach.
    pub fn register_waker(&mut self, listener: Listener<L>)
        ensures
            final(self)@ == old(self)@.register_waker(listener),
            old(self)@.listeners_distinct() ==> final(self)@.listeners_distinct(),
    {
        if self.inner.listeners_poisoned {
            return;
        }
        let mut i: usize = 0;
        while i < self.inner.listeners.len()
            invariant
                *self == *old(self),
                i <= self.inner.listeners.len(),
                forall|j: int| 0 <= j < i ==> (#[trigger] self.inner.listeners@[j]).key != listener.key,
            decreases self.inner.listeners.len() - i,
        {
            if self.inner.listeners[i].key == listener.key {
                assert(self@.listeners[i as int].key == listener.key);
                return;
            }
            i = i + 1;
        }
        self.inner.listeners.push(listener);
    }

    /// Whether the system is shutting down.
    pub fn is_shutting_down(&self) -> (started: bool)
        ensures
            started == self@.started,
    {
        self.inner.is_shutting_down()
    }

    /// Starts the shutdown.
    ///
    /// `seen` holds what was found in each listener's slot.
    pub fn start_shutdown(&mut self, seen: Vec<Slot<W>>) -> (wakes: Vec<Wake<W>>)
        requires
            !old(self)@.waker_poisoned,
            old(self)@.surveyed_by(seen@),
        ensures
            final(self)@ == old(self)@.start(seen@),
            wakes@ == old(self)@.start_wakes(seen@),
    {
        self.inner.shutdown(seen)
    }

    /// Raises the flag where the waiting task's waker is out of reach, so that neither that
    /// task nor the listeners can be woken.
    ///
    /// A caller that gives up on starting the shutdown for that reason raises the flag first.
    pub fn raise_flag(&mut self)
        requires
            old(self)@.waker_poisoned,
        ensures
            final(self)@ == (ShutdownView { started: true, ..old(self)@ }),
    {
        self.inner.state = true;
    }

    /// Polls the token on behalf of the task with this waker.
    ///
    /// The token remembers one waiting task: the last that polled it.
    pub fn poll(&mut self, waker: W) -> (poll: Poll)
        requires
            !old(self)@.started ==> !old(self)@.waker_poisoned,
        ensures
            final(self)@ == old(self)@.poll(waker),
            poll == (if old(self)@.started {
                Poll::Ready
            } else {
                Poll::Pending
            }),
    {
        if self.inner.state {
            Poll::Ready
        } else {
            self.inner.waker = Some(waker);
            Poll::Pending
        }
    }

    /// The registered waker slots, oldest first.
    pub fn listeners(&self) -> (listeners: &Vec<Listener<L>>)
        ensures
            listeners@ == self@.listeners,
    {
        &self.inner.listeners
    }

    /// Whether the listeners are out of reach.
    pub fn is_listeners_poisoned(&self) -> (poisoned: bool)
        ensures
            poisoned == self@.listeners_poisoned,
    {
        self.inner.listeners_poisoned
    }

    /// Whether the waiting task's waker is out of reach.
    pub fn is_waker_poisoned(&self) -> (poisoned: bool)
        ensures
            poisoned == self@.waker_poisoned,
    {
        self.inner.waker_poisoned
    }

    /// Records that a wake of a listener panicked: the listeners are out of reach from now on.
    pub fn poison_listeners(&mut self)
        ensures
            final(self)@ == (ShutdownView { listeners_poisoned: true, ..old(self)@ }),
    {
        self.inner.listeners_poisoned = true;
    }

    /// Records that a wake of the waiting task panicked: its waker is out of reach from now on.
    pub fn poison_waker(&mut self)
        ensures
            final(self)@ == (ShutdownView { waker_poisoned: true, ..old(self)@ }),
    {
        self.inner.waker_poisoned = true;
    }
}

impl<W, L> Default for Shutdown<W, L> {
    fn default() -> (shutdown: Self)
        ensures
            shutdown@ == ShutdownView::<W, L>::fresh(),
    {
        Self::new()
    }
}

/// Nothing takes a started shutdown back.
pub proof fn law_shutdown_is_permanent<W, L>(
    token: ShutdownView<W, L>,
    seen: Seq<Slot<W>>,
    listener: Listener<L>,
    waker: W,
)
    ensures
        token.start(seen).started,
        token.started ==> {
            &&& token.register_waker(listener).started
            &&& token.poll(waker).started
            &&& token.wake().started
            &&& token.wake_listeners(seen).started
        },
{
}

/// A task that awaits the token is woken first of all when the shutdown starts, and it is the
/// last that polled the token: `earlier` polled it before and is forgotten.
pub proof fn law_last_waiter_is_woken<W, L>(
    token: ShutdownView<W, L>,
    earlier: W,
    waker: W,
    seen: Seq<Slot<W>>,
)
    requires
        !token.started,
    ensures
        token.poll(earlier).poll(waker) == token.poll(waker),
        token.poll(waker).start_wakes(seen) == seq![Wake::Task(waker)] + token.listener_wakes(seen),
{
}

/// A task that awaits the token is woken once: when the shutdown is started again, no task is
/// waiting any more, since a poll of a started token stores nothing.
pub proof fn law_waiter_is_woken_once<W, L>(
    token: ShutdownView<W, L>,
    seen: Seq<Slot<W>>,
    waker: W,
    again: Seq<Slot<W>>,
)
    ensures
        token.start(seen).poll(waker) == token.start(seen),
        token.start(seen).poll(waker).start_wakes(again) == token.listener_wakes(again),
{
    assert(token.start(seen).start_wakes(again) =~= token.listener_wakes(again));
}

/// Registering a slot twice is a no-op.
pub proof fn law_registering_twice_is_a_no_op<W, L>(
    token: ShutdownView<W, L>,
    listener: Listener<L>,
    again: Listener<L>,
)
    requires
        listener.key == again.key,
    ensures
        token.register_waker(listener).register_waker(again) == token.register_waker(listener),
{
    let once = token.register_waker(listener);
    if !token.listeners_poisoned && !token.listens(listener.key) {
        assert(once.listeners[token.listeners.len() as int].key == again.key);
    }
}

/// A registered slot is woken when the shutdown starts: where it is found parked, its waker is
/// among those that are woken.
pub proof fn law_registered_slot_is_woken<W, L>(
    token: ShutdownView<W, L>,
    listener: Listener<L>,
    seen: Seq<Slot<W>>,
)
    requires
        !token.listeners_poisoned,
        token.register_waker(listener).surveyed_by(seen),
    ensures
        exists|i: int|
            0 <= i < seen.len() && (
            #[trigger] token.register_waker(listener).listeners[i]).key == listener.key,
        forall|i: int|
            0 <= i < seen.len() && (
            #[trigger] token.register_waker(listener).listeners[i]).key == listener.key
                && seen[i] is Parked ==> token.register_waker(listener).start_wakes(seen).contains(
                Wake::Listener(seen[i]->Parked_0),
            ),
{
    let registered = token.register_waker(listener);
    if !token.listens(listener.key) {
        assert(registered.listeners[token.listeners.len() as int].key == listener.key);
    }
    assert forall|i: int|
        0 <= i < seen.len() && (#[trigger] registered.listeners[i]).key == listener.key
            && seen[i] is Parked implies registered.start_wakes(seen).contains(
        Wake::Listener(seen[i]->Parked_0),
    ) by {
        law_every_parked_listener_is_woken(registered, seen, i);
    }
}

/// When the shutdown starts, every listener that is parked is woken.
pub proof fn law_every_parked_listener_is_woken<W, L>(
    token: ShutdownView<W, L>,
    seen: Seq<Slot<W>>,
    i: int,
)
    requires
        !token.listeners_poisoned,
        0 <= i < seen.len(),
        seen[i] is Parked,
    ensures
        token.start_wakes(seen).contains(Wake::Listener(seen[i]->Parked_0)),
{
    let wake = Wake::Listener(seen[i]->Parked_0);
    crate::wakes::law_wakes_exactly_the_parked(seen, wake);
    let wakes = crate::wakes::listener_wakes(seen);
    let k = choose|k: int| 0 <= k < wakes.len() && wakes[k] == wake;
    assert(token.start_wakes(seen)[token.task_wakes().len() + k] == wake);
}

/// When the shutdown starts, nobody is woken but the task that awaits the token and the
/// listeners that are parked.
pub proof fn law_nobody_else_is_woken<W, L>(
    token: ShutdownView<W, L>,
    seen: Seq<Slot<W>>,
    wake: Wake<W>,
)
    requires
        token.start_wakes(seen).contains(wake),
    ensures
        match wake {
            Wake::Task(waker) => token.waker == Some(waker),
            Wake::Listener(waker) => exists|i: int|
                0 <= i < seen.len() && #[trigger] seen[i] == Slot::Parked(waker),
            Wake::Worker(_) => false,
        },
{
    let all = token.start_wakes(seen);
    let k = choose|k: int| 0 <= k < all.len() && all[k] == wake;
    if k >= token.task_wakes().len() {
        let wakes = token.listener_wakes(seen);
        assert(wakes[k - token.task_wakes().len()] == wake);
        crate::wakes::law_wakes_exactly_the_parked(seen, wake);
        let i = choose|i: int|
            0 <= i < seen.len() && (#[trigger] seen[i]) is Parked && wake == Wake::Listener(
                seen[i]->Parked_0,
            );
        assert(seen[i] == Slot::Parked(seen[i]->Parked_0));
    }
}

/// When the shutdown starts, the slots whose worker was dropped are removed, and no others.
pub proof fn law_dropped_listeners_are_removed<W, L>(
    token: ShutdownView<W, L>,
    seen: Seq<Slot<W>>,
    listener: Listener<L>,
)
    requires
        !token.listeners_poisoned,
        token.surveyed_by(seen),
    ensures
        token.start(seen).listeners.contains(listener) <==> exists|i: int|
            0 <= i < seen.len() && #[trigger] token.listeners[i] == listener && !(seen[i] is Gone),
{
    crate::wakes::law_kept_exactly_the_living(token.listeners, seen, listener);
}

/// No slot is ever registered twice: a new token has no listener, and every operation keeps
/// the listeners distinct.
pub proof fn law_listeners_stay_distinct<W, L>(
    token: ShutdownView<W, L>,
    seen: Seq<Slot<W>>,
    listener: Listener<L>,
    waker: W,
)
    requires
        token.listeners_distinct(),
        token.surveyed_by(seen),
    ensures
        ShutdownView::<W, L>::fresh().listeners_distinct(),
        token.register_waker(listener).listeners_distinct(),
        token.poll(waker).listeners_distinct(),
        token.wake().listeners_distinct(),
        token.wake_listeners(seen).listeners_distinct(),
        token.start(seen).listeners_distinct(),
{
    if !token.listeners_poisoned {
        crate::wakes::law_kept_stay_distinct(token.listeners, seen);
    }
}

/// Starting the shutdown again changes nothing while every listener's worker is alive.
pub proof fn law_starting_again_changes_nothing<W, L>(
    token: ShutdownView<W, L>,
    seen: Seq<Slot<W>>,
    again: Seq<Slot<W>>,
)
    requires
        token.surveyed_by(seen),
        token.start(seen).surveyed_by(again),
        forall|i: int| 0 <= i < again.len() ==> !((#[trigger] again[i]) is Gone),
    ensures
        token.start(seen).start(again) == token.start(seen),
{
    let started = token.start(seen);
    if !token.listeners_poisoned {
        crate::wakes::law_kept_all_when_none_is_gone(started.listeners, again);
    }
}

/// Where an earlier wake of a listener panicked, the listeners are left alone: none is woken,
/// removed or added. The flag is raised and the waiting task woken all the same.
pub proof fn law_poisoned_listeners_are_left_alone<W, L>(
    token: ShutdownView<W, L>,
    seen: Seq<Slot<W>>,
    listener: Listener<L>,
)
    requires
        token.listeners_poisoned,
    ensures
        token.register_waker(listener) == token,
        token.start(seen).listeners == token.listeners,
        token.start(seen).started,
        token.start_wakes(seen) == token.task_wakes(),
{
    assert(token.start_wakes(seen) =~= token.task_wakes());
}

/// A new token is down, nobody awaits it, nobody listens, and everything is within reach.
pub proof fn law_new_token_is_blank<W, L>()
    ensures
        ({
            let token = ShutdownView::<W, L>::fresh();
            &&& !token.started
            &&& token.waker is None
            &&& token.listeners.len() == 0
            &&& !token.waker_poisoned
            &&& !token.listeners_poisoned
        }),
{
}

/// A look into the listeners' slots serves where it covers each listener, or where the listeners
/// are out of reach anyway.
pub proof fn law_survey_covers_every_listener<W, L>(
    token: ShutdownView<W, L>,
    seen: Seq<Slot<W>>,
)
    ensures
        token.surveyed_by(seen) <==> (token.listeners_poisoned || seen.len()
            == token.listeners.len()),
{
}

/// Registering a slot forgets no other: every listener stays in its place, and nothing else of
/// the token changes. A slot whose key is new among reachable listeners is added at the end;
/// any other adds nothing.
pub proof fn law_registering_forgets_nobody<W, L>(
    token: ShutdownView<W, L>,
    listener: Listener<L>,
)
    ensures
        ({
            let after = token.register_waker(listener);
            let known = exists|i: int|
                0 <= i < token.listeners.len() && (#[trigger] token.listeners[i]).key
                    == listener.key;
            &&& forall|i: int|
                0 <= i < token.listeners.len() ==> #[trigger] after.listeners[i]
                    == token.listeners[i]
            &&& token.listeners_poisoned || known ==> after.listeners.len()
                == token.listeners.len()
            &&& !token.listeners_poisoned && !known ==> {
                &&& after.listeners.len() == token.listeners.len() + 1
                &&& after.listeners[token.listeners.len() as int] == listener
            }
            &&& after.started == token.started
            &&& after.waker == token.waker
            &&& after.waker_poisoned == token.waker_poisoned
            &&& after.listeners_poisoned == token.listeners_poisoned
        }),
{
}

/// Slots with different keys that register one after the other, however many, all listen, in the
/// order of their registration, and stay within reach.
pub proof fn law_all_registered_slots_listen<W, L>(
    token: ShutdownView<W, L>,
    slots: Seq<Listener<L>>,
)
    requires
        token.listeners.len() == 0,
        !token.listeners_poisoned,
        forall|i: int, j: int|
            0 <= i < j < slots.len() ==> (#[trigger] slots[i]).key != (#[trigger] slots[j]).key,
    ensures
        slots.fold_left(
            token,
            |t: ShutdownView<W, L>, slot: Listener<L>| t.register_waker(slot),
        ).listeners == slots,
        slots.fold_left(
            token,
            |t: ShutdownView<W, L>, slot: Listener<L>| t.register_waker(slot),
        ).listeners_poisoned == token.listeners_poisoned,
    decreases slots.len(),
{
    let register = |t: ShutdownView<W, L>, slot: Listener<L>| t.register_waker(slot);
    if slots.len() > 0 {
        let init = slots.drop_last();
        assert forall|i: int, j: int| 0 <= i < j < init.len() implies (#[trigger] init[i]).key != (
        #[trigger] init[j]).key by {
            assert(init[i] == slots[i] && init[j] == slots[j]);
        }
        law_all_registered_slots_listen(token, init);
        let before = init.fold_left(token, register);
        assert(before.listeners == init);
        assert(slots.fold_left(token, register) == before.register_waker(slots.last()));
        assert forall|i: int| 0 <= i < before.listeners.len() implies (
        #[trigger] before.listeners[i]).key != slots.last().key by {
            assert(before.listeners[i] == slots[i]);
        }
        assert(before.register_waker(slots.last()).listeners =~= slots);
    } else {
        assert(slots =~= token.listeners);
    }
}

/// A poll of a token that is up changes nothing; one of a token that is down stores the polling
/// task's waker and changes nothing else.
pub proof fn law_poll_stores_the_waker_and_no_more<W, L>(token: ShutdownView<W, L>, waker: W)
    ensures
        ({
            let after = token.poll(waker);
            &&& token.started ==> after.waker == token.waker
            &&& !token.started ==> after.waker == Some(waker)
            &&& after.started == token.started
            &&& after.waker_poisoned == token.waker_poisoned
            &&& after.listeners == token.listeners
            &&& after.listeners_poisoned == token.listeners_poisoned
        }),
{
}

/// Waking the waiting task forgets its waker and changes nothing else; the one wake that is
/// owed for it is of that waker, and none where no task waits.
pub proof fn law_wake_takes_the_waker_and_no_more<W, L>(token: ShutdownView<W, L>)
    ensures
        ({
            let after = token.wake();
            &&& after.waker is None
            &&& after.started == token.started
            &&& after.waker_poisoned == token.waker_poisoned
            &&& after.listeners == token.listeners
            &&& after.listeners_poisoned == token.listeners_poisoned
        }),
        token.waker is None ==> token.task_wakes().len() == 0,
        token.waker matches Some(waker) ==> token.task_wakes().len() == 1
            && token.task_wakes()[0] == Wake::Task(waker),
{
}

/// Starting the shutdown raises the flag, lets go of the waiting task, and keeps, in their
/// order, the listeners at the rising places `picks`: those of all whose worker is alive, and of
/// no others, or, where the listeners are out of reach, of all. Waking the listeners alone keeps
/// the same ones and touches nothing else.
pub proof fn law_start_keeps_the_living_in_order<W, L>(
    token: ShutdownView<W, L>,
    seen: Seq<Slot<W>>,
) -> (picks: Seq<int>)
    requires
        token.listeners_poisoned || seen.len() == token.listeners.len(),
    ensures
        ({
            let after = token.start(seen);
            &&& after.started
            &&& after.waker is None
            &&& after.waker_poisoned == token.waker_poisoned
            &&& after.listeners_poisoned == token.listeners_poisoned
            &&& after.listeners.len() == picks.len()
            &&& forall|k: int|
                0 <= k < picks.len() ==> 0 <= #[trigger] picks[k] < token.listeners.len()
                    && after.listeners[k] == token.listeners[picks[k]]
        }),
        forall|k: int|
            0 <= k < picks.len() && !token.listeners_poisoned ==> !(
            seen[#[trigger] picks[k]] is Gone),
        forall|j: int, k: int|
            0 <= j < k < picks.len() ==> #[trigger] picks[j] < #[trigger] picks[k],
        forall|i: int|
            0 <= i < token.listeners.len() && (token.listeners_poisoned || !(seen[i] is Gone))
                ==> #[trigger] picks.contains(i),
        ({
            let woken = token.wake_listeners(seen);
            &&& woken.started == token.started
            &&& woken.waker == token.waker
            &&& woken.waker_poisoned == token.waker_poisoned
            &&& woken.listeners_poisoned == token.listeners_poisoned
            &&& woken.listeners == token.start(seen).listeners
        }),
{
    if token.listeners_poisoned {
        let picks = Seq::new(token.listeners.len(), |i: int| i);
        assert forall|i: int| 0 <= i < token.listeners.len() implies #[trigger] picks.contains(
            i,
        ) by {
            assert(picks[i] == i);
        }
        picks
    } else {
        crate::wakes::law_kept_picks_the_living_in_order(token.listeners, seen)
    }
}

/// When the shutdown starts, the task that awaits the token is woken first, if there is one, and
/// then, in their order and once each, the listeners at the rising places `picks`: those of all
/// that are parked, and of no others, or, where the listeners are out of reach, of none.
pub proof fn law_start_wakes_the_parked_in_order<W, L>(
    token: ShutdownView<W, L>,
    seen: Seq<Slot<W>>,
) -> (picks: Seq<int>)
    ensures
        ({
            let wakes = token.start_wakes(seen);
            let first: int = if token.waker is Some {
                1
            } else {
                0
            };
            &&& wakes.len() == first + picks.len()
            &&& token.waker matches Some(waker) ==> wakes[0] == Wake::Task(waker)
            &&& forall|k: int|
                0 <= k < picks.len() ==> 0 <= #[trigger] picks[k] < seen.len()
                    && seen[picks[k]] is Parked && wakes[first + k] == Wake::Listener(
                    seen[picks[k]]->Parked_0,
                )
            &&& token.listener_wakes(seen) == wakes.skip(first)
        }),
        forall|j: int, k: int|
            0 <= j < k < picks.len() ==> #[trigger] picks[j] < #[trigger] picks[k],
        token.listeners_poisoned ==> picks.len() == 0,
        !token.listeners_poisoned ==> forall|i: int|
            0 <= i < seen.len() && seen[i] is Parked ==> #[trigger] picks.contains(i),
{
    let first: int = if token.waker is Some {
        1
    } else {
        0
    };
    assert(token.listener_wakes(seen) =~= token.start_wakes(seen).skip(first));
    if token.listeners_poisoned {
        Seq::empty()
    } else {
        crate::wakes::law_wakes_pick_the_parked_in_order(seen)
    }
}

} // verus!
