//! Waker slots as they are found, and the wakes that are owed.
use vstd::prelude::*;

verus! {

/// What is found when a worker's waker slot is looked at.
///
/// `W` stands for a waker: whatever re-polls a parked task.
#[derive(Debug)]
pub enum Slot<W> {
    /// The worker that owned the slot has been dropped.
    Gone,
    /// The worker is alive, but its slot cannot be read: a panic poisoned it.
    Unreadable,
    /// The worker is alive and has not parked.
    Empty,
    /// The worker is alive and parked; this waker re-polls it.
    Parked(W),
}

/// A wake that is owed, in the order in which the wakes are listed.
#[derive(Debug, PartialEq, Eq)]
pub enum Wake<W> {
    /// Wake the task that awaits the shutdown token.
    Task(W),
    /// Wake a worker that registered its waker slot with the shutdown token.
    Listener(W),
    /// Wake the worker with this position among the workers of a monitor.
    Worker(usize),
}

/// A waker slot that is registered with a shutdown token.
///
/// Two registrations are of the same slot exactly when their keys are equal.
#[derive(Debug)]
pub struct Listener<L> {
    /// The identity of the slot.
    pub key: u64,
    /// The way to the slot.
    pub slot: L,
}

/// Whether no slot occurs twice among the listeners.
pub open spec fn distinct<L>(listeners: Seq<Listener<L>>) -> bool {
    forall|i: int, j: int|
        0 <= i < j < listeners.len() ==> (#[trigger] listeners[i]).key != (
        #[trigger] listeners[j]).key
}

/// The listeners that stay registered after each was found as `seen` says: all of them, in
/// their order, but for those whose worker is gone.
pub open spec fn kept<W, L>(listeners: Seq<Listener<L>>, seen: Seq<Slot<W>>) -> Seq<Listener<L>>
    decreases listeners.len(),
{
    if listeners.len() == 0 {
        Seq::empty()
    } else if seen[listeners.len() - 1] is Gone {
        kept(listeners.drop_last(), seen)
    } else {
        kept(listeners.drop_last(), seen).push(listeners.last())
    }
}

/// The wakes that are owed to listeners found as `seen` says: one for each parked worker, in
/// their order.
pub open spec fn listener_wakes<W>(seen: Seq<Slot<W>>) -> Seq<Wake<W>>
    decreases seen.len(),
{
    if seen.len() == 0 {
        Seq::empty()
    } else {
        match seen.last() {
            Slot::Parked(waker) => listener_wakes(seen.drop_last()).push(Wake::Listener(waker)),
            _ => listener_wakes(seen.drop_last()),
        }
    }
}

/// The wakes that are owed to the first `count` workers of a monitor: one each, in their
/// order.
pub open spec fn worker_wakes<W>(count: nat) -> Seq<Wake<W>> {
    Seq::new(count, |i: int| Wake::Worker(i as usize))
}

/// A listener stays registered exactly when it was found with a living worker.
pub proof fn law_kept_exactly_the_living<W, L>(
    listeners: Seq<Listener<L>>,
    seen: Seq<Slot<W>>,
    listener: Listener<L>,
)
    requires
        listeners.len() <= seen.len(),
    ensures
        kept(listeners, seen).contains(listener) <==> exists|i: int|
            0 <= i < listeners.len() && #[trigger] listeners[i] == listener && !(seen[i] is Gone),
    decreases listeners.len(),
{
    if listeners.len() > 0 {
        let n = listeners.len() - 1;
        let init = listeners.drop_last();
        let rest = kept(init, seen);
        law_kept_exactly_the_living(init, seen, listener);
        assert(forall|i: int| 0 <= i < n ==> init[i] == listeners[i]);
        if !(seen[n] is Gone) {
            let all = rest.push(listeners[n]);
            if rest.contains(listener) {
                let k = choose|k: int| 0 <= k < rest.len() && rest[k] == listener;
                assert(all[k] == listener);
            }
            if listeners[n] == listener {
                assert(all[rest.len() as int] == listener);
            }
            if all.contains(listener) && listeners[n] != listener {
                let k = choose|k: int| 0 <= k < all.len() && all[k] == listener;
                assert(rest[k] == listener);
            }
        }
        if exists|i: int| 0 <= i < n && #[trigger] init[i] == listener && !(seen[i] is Gone) {
            let i = choose|i: int|
                0 <= i < n && #[trigger] init[i] == listener && !(seen[i] is Gone);
            assert(listeners[i] == listener);
        }
        if exists|i: int|
            0 <= i < listeners.len() && #[trigger] listeners[i] == listener && !(seen[i] is Gone) {
            let i = choose|i: int|
                0 <= i < listeners.len() && #[trigger] listeners[i] == listener && !(
                seen[i] is Gone);
            if i < n {
                assert(init[i] == listener);
            }
        }
    }
}

/// The listeners that stay registered keep their order: those of a list are those of its
/// first part, then those of the rest.
pub proof fn law_kept_in_order<W, L>(
    listeners: Seq<Listener<L>>,
    seen: Seq<Slot<W>>,
    more_listeners: Seq<Listener<L>>,
    more_seen: Seq<Slot<W>>,
)
    requires
        listeners.len() == seen.len(),
        more_listeners.len() == more_seen.len(),
    ensures
        kept(listeners + more_listeners, seen + more_seen) == kept(listeners, seen) + kept(
            more_listeners,
            more_seen,
        ),
    decreases more_listeners.len(),
{
    let all = listeners + more_listeners;
    let all_seen = seen + more_seen;
    if more_listeners.len() == 0 {
        assert(all =~= listeners);
        assert(all_seen =~= seen);
        assert(kept(listeners, seen) + kept(more_listeners, more_seen) =~= kept(listeners, seen));
    } else {
        let n = more_listeners.len() - 1;
        let init = more_listeners.drop_last();
        law_kept_in_order(listeners, seen, init, more_seen.take(n));
        assert(all.drop_last() =~= listeners + init);
        lemma_kept_looks_no_further(init, more_seen, more_seen.take(n));
        lemma_kept_looks_no_further(listeners + init, all_seen, seen + more_seen.take(n));
        assert(all_seen[all.len() - 1] == more_seen[n]);
        assert(kept(all, all_seen) =~= kept(listeners, seen) + kept(more_listeners, more_seen));
    }
}

/// `kept` looks at no more slots than there are listeners.
proof fn lemma_kept_looks_no_further<W, L>(
    listeners: Seq<Listener<L>>,
    seen: Seq<Slot<W>>,
    other: Seq<Slot<W>>,
)
    requires
        listeners.len() <= seen.len(),
        listeners.len() <= other.len(),
        forall|i: int| 0 <= i < listeners.len() ==> seen[i] == other[i],
    ensures
        kept(listeners, seen) == kept(listeners, other),
    decreases listeners.len(),
{
    if listeners.len() > 0 {
        lemma_kept_looks_no_further(listeners.drop_last(), seen, other);
    }
}

/// A listener is woken exactly when it was found parked, and by the waker that it left.
pub proof fn law_wakes_exactly_the_parked<W>(seen: Seq<Slot<W>>, wake: Wake<W>)
    ensures
        listener_wakes(seen).contains(wake) <==> exists|i: int|
            0 <= i < seen.len() && (#[trigger] seen[i]) is Parked && wake == Wake::Listener(
                seen[i]->Parked_0,
            ),
    decreases seen.len(),
{
    if seen.len() > 0 {
        let n = seen.len() - 1;
        let init = seen.drop_last();
        let rest = listener_wakes(init);
        let all = listener_wakes(seen);
        law_wakes_exactly_the_parked(init, wake);
        assert(forall|i: int| 0 <= i < n ==> init[i] == seen[i]);
        if rest.contains(wake) {
            let k = choose|k: int| 0 <= k < rest.len() && rest[k] == wake;
            assert(all[k] == wake);
            let i = choose|i: int|
                0 <= i < n && (#[trigger] init[i]) is Parked && wake == Wake::Listener(
                    init[i]->Parked_0,
                );
            assert(seen[i] is Parked);
        }
        if seen[n] is Parked {
            assert(all[rest.len() as int] == Wake::Listener(seen[n]->Parked_0));
        }
        if all.contains(wake) && !rest.contains(wake) {
            let k = choose|k: int| 0 <= k < all.len() && all[k] == wake;
            if k < rest.len() {
                assert(rest[k] == wake);
            }
        }
    }
}

/// The listeners are woken in their order: the wakes of a list are those of its first part,
/// then those of the rest.
pub proof fn law_listeners_woken_in_order<W>(seen: Seq<Slot<W>>, more: Seq<Slot<W>>)
    ensures
        listener_wakes(seen + more) == listener_wakes(seen) + listener_wakes(more),
    decreases more.len(),
{
    if more.len() == 0 {
        assert(seen + more =~= seen);
        assert(listener_wakes(seen) + listener_wakes(more) =~= listener_wakes(seen));
    } else {
        law_listeners_woken_in_order(seen, more.drop_last());
        assert((seen + more).drop_last() =~= seen + more.drop_last());
        assert(listener_wakes(seen + more) =~= listener_wakes(seen) + listener_wakes(more));
    }
}

/// Where every listener's worker is alive, all of them stay registered.
pub proof fn law_kept_all_when_none_is_gone<W, L>(listeners: Seq<Listener<L>>, seen: Seq<Slot<W>>)
    requires
        listeners.len() <= seen.len(),
        forall|i: int| 0 <= i < listeners.len() ==> !(seen[i] is Gone),
    ensures
        kept(listeners, seen) == listeners,
    decreases listeners.len(),
{
    if listeners.len() > 0 {
        law_kept_all_when_none_is_gone(listeners.drop_last(), seen);
        assert(kept(listeners, seen) =~= listeners);
    } else {
        assert(kept(listeners, seen) =~= listeners);
    }
}

/// Where no slot is registered twice, none is among those that stay registered.
pub proof fn law_kept_stay_distinct<W, L>(listeners: Seq<Listener<L>>, seen: Seq<Slot<W>>)
    requires
        distinct(listeners),
        listeners.len() <= seen.len(),
    ensures
        distinct(kept(listeners, seen)),
    decreases listeners.len(),
{
    if listeners.len() > 0 {
        let n = listeners.len() - 1;
        let init = listeners.drop_last();
        law_kept_stay_distinct(init, seen);
        let rest = kept(init, seen);
        assert forall|k: int| 0 <= k < rest.len() implies (#[trigger] rest[k]).key
            != listeners[n].key by {
            law_kept_exactly_the_living(init, seen, rest[k]);
            assert(rest.contains(rest[k]));
            let i = choose|i: int|
                0 <= i < init.len() && #[trigger] init[i] == rest[k] && !(seen[i] is Gone);
            assert(listeners[i] == rest[k]);
        }
    }
}

/// Two places that hold the same slot are the same place, exactly where no slot occurs twice.
pub proof fn law_distinct_listeners_have_one_place_each<L>(listeners: Seq<Listener<L>>)
    ensures
        distinct(listeners) <==> forall|i: int, j: int|
            0 <= i < listeners.len() && 0 <= j < listeners.len() && (
            #[trigger] listeners[i]).key == (#[trigger] listeners[j]).key ==> i == j,
{
}

/// The listeners that stay registered are picked from the list in its order: at the rising
/// places `picks`, which are the places of all those whose worker is alive, and of no others.
pub proof fn law_kept_picks_the_living_in_order<W, L>(
    listeners: Seq<Listener<L>>,
    seen: Seq<Slot<W>>,
) -> (picks: Seq<int>)
    requires
        listeners.len() <= seen.len(),
    ensures
        kept(listeners, seen).len() == picks.len(),
        forall|k: int|
            0 <= k < picks.len() ==> 0 <= #[trigger] picks[k] < listeners.len() && !(
            seen[picks[k]] is Gone) && kept(listeners, seen)[k] == listeners[picks[k]],
        forall|j: int, k: int|
            0 <= j < k < picks.len() ==> #[trigger] picks[j] < #[trigger] picks[k],
        forall|i: int|
            0 <= i < listeners.len() && !(seen[i] is Gone) ==> #[trigger] picks.contains(i),
    decreases listeners.len(),
{
    if listeners.len() == 0 {
        Seq::empty()
    } else {
        let n = listeners.len() - 1;
        let rest = law_kept_picks_the_living_in_order(listeners.drop_last(), seen);
        if seen[n] is Gone {
            rest
        } else {
            let picks = rest.push(n);
            assert forall|i: int|
                0 <= i < listeners.len() && !(seen[i] is Gone) implies #[trigger] picks.contains(
                i,
            ) by {
                if i == n {
                    assert(picks[rest.len() as int] == n);
                } else {
                    assert(rest.contains(i));
                    let k = choose|k: int| 0 <= k < rest.len() && rest[k] == i;
                    assert(picks[k] == i);
                }
            }
            picks
        }
    }
}

/// The listeners are woken in their order, once each: for the rising places `picks`, which are
/// the places of all those found parked, and of no others, the waker left there is woken.
pub proof fn law_wakes_pick_the_parked_in_order<W>(seen: Seq<Slot<W>>) -> (picks: Seq<int>)
    ensures
        listener_wakes(seen).len() == picks.len(),
        forall|k: int|
            0 <= k < picks.len() ==> 0 <= #[trigger] picks[k] < seen.len()
                && seen[picks[k]] is Parked && listener_wakes(seen)[k] == Wake::Listener(
                seen[picks[k]]->Parked_0,
            ),
        forall|j: int, k: int|
            0 <= j < k < picks.len() ==> #[trigger] picks[j] < #[trigger] picks[k],
        forall|i: int|
            0 <= i < seen.len() && seen[i] is Parked ==> #[trigger] picks.contains(i),
    decreases seen.len(),
{
    if seen.len() == 0 {
        Seq::empty()
    } else {
        let n = seen.len() - 1;
        let rest = law_wakes_pick_the_parked_in_order(seen.drop_last());
        if seen[n] is Parked {
            let picks = rest.push(n);
            assert forall|i: int|
                0 <= i < seen.len() && seen[i] is Parked implies #[trigger] picks.contains(i) by {
                if i == n {
                    assert(picks[rest.len() as int] == n);
                } else {
                    assert(seen.drop_last()[i] == seen[i]);
                    assert(rest.contains(i));
                    let k = choose|k: int| 0 <= k < rest.len() && rest[k] == i;
                    assert(picks[k] == i);
                }
            }
            picks
        } else {
            assert forall|i: int|
                0 <= i < seen.len() && seen[i] is Parked implies #[trigger] rest.contains(i) by {
                assert(seen.drop_last()[i] == seen[i]);
            }
            rest
        }
    }
}

/// The workers of a monitor are woken once each, first to last.
pub proof fn law_workers_woken_once_each<W>(count: nat)
    requires
        count <= usize::MAX,
    ensures
        worker_wakes::<W>(count).len() == count,
        forall|i: int|
            0 <= i < count ==> (#[trigger] worker_wakes::<W>(count)[i]) is Worker
                && worker_wakes::<W>(count)[i]->Worker_0 == i,
{
}

} // verus!
