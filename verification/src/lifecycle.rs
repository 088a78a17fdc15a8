//! What a worker does over its whole life, whatever events reach it: a
//! worker that was started fresh only ever works through one fixed script,
//! front to back, and nothing moves it once it has stopped.

use crate::fanout::{child_names, fanout_of};
use crate::worker::{run, spawns, trace, ActionView, Event, Phase, WorkerView, LIFETIME_MS};
use vstd::prelude::*;

verus! {

/// The phase that a fresh worker called `name` is in after `events`.
pub open spec fn phase_after(name: Seq<char>, events: Seq<Event>) -> Phase {
    run(WorkerView::fresh(name), events).phase
}

/// All that a fresh worker called `name` asks for over `events`, in order.
pub open spec fn asked(name: Seq<char>, events: Seq<Event>) -> Seq<ActionView> {
    trace(WorkerView::fresh(name), events)
}

/// All that a worker called `name` has asked for by the time it is in
/// `phase`, when it was started fresh.
pub open spec fn script(name: Seq<char>, phase: Phase) -> Seq<ActionView> {
    match phase {
        Phase::Starting => Seq::empty(),
        Phase::Running => seq![
            ActionView::Register { name },
            ActionView::ArmTimer { millis: LIFETIME_MS },
        ],
        Phase::Terminating => seq![
            ActionView::Register { name },
            ActionView::ArmTimer { millis: LIFETIME_MS },
            ActionView::Halt,
        ],
        Phase::Stopped => seq![
            ActionView::Register { name },
            ActionView::ArmTimer { millis: LIFETIME_MS },
            ActionView::Halt,
            ActionView::Unregister { name },
        ] + spawns(name),
    }
}

/// How far along a phase is.
pub open spec fn rank(phase: Phase) -> nat {
    match phase {
        Phase::Starting => 0,
        Phase::Running => 1,
        Phase::Terminating => 2,
        Phase::Stopped => 3,
    }
}

/// The events of a whole life, in the order in which the runtime delivers
/// them.
pub open spec fn whole_life() -> Seq<Event> {
    seq![Event::Started, Event::Signal, Event::Halted]
}

/// Whether the event at `i` is the one on which the worker stops.
pub open spec fn stops_at(worker: WorkerView, events: Seq<Event>, i: int) -> bool {
    &&& 0 <= i < events.len()
    &&& run(worker, events.take(i)).phase != Phase::Stopped
    &&& run(worker, events.take(i + 1)).phase == Phase::Stopped
}

/// Whether the action at `i` asks the registry to register a name.
pub open spec fn registers_at(actions: Seq<ActionView>, i: int) -> bool {
    0 <= i < actions.len() && actions[i] is Register
}

/// Whether the action at `i` asks the registry to unregister a name.
pub open spec fn unregisters_at(actions: Seq<ActionView>, i: int) -> bool {
    0 <= i < actions.len() && actions[i] is Unregister
}

/// Whether the action at `i` asks for a worker to be started.
pub open spec fn spawns_at(actions: Seq<ActionView>, i: int) -> bool {
    0 <= i < actions.len() && actions[i] is Spawn
}

/// Running on is running the rest: the worker after the first `i` events,
/// run over the events from `i` on, is the worker after all of them, and the
/// trace of the whole is the trace so far followed by the trace of the rest.
pub proof fn lemma_run_splits(worker: WorkerView, events: Seq<Event>, i: int)
    requires
        0 <= i <= events.len(),
    ensures
        run(worker, events) == run(run(worker, events.take(i)), events.skip(i)),
        trace(worker, events) == trace(worker, events.take(i)) + trace(
            run(worker, events.take(i)),
            events.skip(i),
        ),
    decreases events.len(),
{
    if i == events.len() {
        assert(events.take(i) =~= events);
        assert(events.skip(i) =~= Seq::<Event>::empty());
        assert(trace(worker, events) =~= trace(worker, events) + Seq::<ActionView>::empty());
    } else {
        let shorter = events.drop_last();
        lemma_run_splits(worker, shorter, i);
        assert(shorter.take(i) =~= events.take(i));
        assert(shorter.skip(i) =~= events.skip(i).drop_last());
        assert(events.skip(i).last() == events.last());
        let mid = run(worker, events.take(i));
        assert(trace(worker, events) =~= trace(worker, events.take(i)) + trace(
            mid,
            events.skip(i),
        ));
    }
}

/// Whatever events reach a worker that was started fresh, and in whatever
/// order, it keeps its name and has asked for exactly the script of the
/// phase that it is in: nothing twice, nothing out of order.
pub proof fn lemma_trace_follows_the_script(name: Seq<char>, events: Seq<Event>)
    ensures
        run(WorkerView::fresh(name), events).name == name,
        asked(name, events) == script(name, phase_after(name, events)),
    decreases events.len(),
{
    let fresh = WorkerView::fresh(name);
    if events.len() > 0 {
        lemma_trace_follows_the_script(name, events.drop_last());
        let before = run(fresh, events.drop_last());
        assert(trace(fresh, events) =~= script(name, before.next(events.last()).phase));
    } else {
        assert(trace(fresh, events) =~= script(name, Phase::Starting));
    }
}

/// A fresh worker that is started, signalled and halted ends up stopped,
/// having asked for its whole script.
pub proof fn lemma_whole_life_ends_stopped(name: Seq<char>)
    ensures
        phase_after(name, whole_life()) == Phase::Stopped,
        asked(name, whole_life()) == script(name, Phase::Stopped),
{
    let fresh = WorkerView::fresh(name);
    let one = seq![Event::Started];
    let two = seq![Event::Started, Event::Signal];
    assert(one.drop_last() =~= Seq::<Event>::empty());
    assert(two.drop_last() =~= one);
    assert(whole_life().drop_last() =~= two);
    assert(run(fresh, Seq::<Event>::empty()) == fresh);
    assert(run(fresh, one).phase == Phase::Running);
    assert(run(fresh, two).phase == Phase::Terminating);
    lemma_trace_follows_the_script(name, whole_life());
}

/// A stopped worker stays as it is and asks for nothing, whatever reaches it.
pub proof fn lemma_stopped_is_final(worker: WorkerView, events: Seq<Event>)
    requires
        worker.phase == Phase::Stopped,
    ensures
        run(worker, events) == worker,
        trace(worker, events) == Seq::<ActionView>::empty(),
    decreases events.len(),
{
    if events.len() > 0 {
        lemma_stopped_is_final(worker, events.drop_last());
        assert(trace(worker, events) =~= Seq::<ActionView>::empty());
    }
}

/// From the moment at which a worker is stopped, no further event changes it
/// or makes it ask for anything.
pub proof fn lemma_nothing_happens_after_stopped(worker: WorkerView, events: Seq<Event>, i: int)
    requires
        0 <= i <= events.len(),
        run(worker, events.take(i)).phase == Phase::Stopped,
    ensures
        run(worker, events) == run(worker, events.take(i)),
        trace(worker, events) == trace(worker, events.take(i)),
{
    lemma_run_splits(worker, events, i);
    lemma_stopped_is_final(run(worker, events.take(i)), events.skip(i));
    assert(trace(worker, events) =~= trace(worker, events.take(i)));
}

/// A worker only moves forward: after more events it is in the same phase or
/// in a later one.
pub proof fn lemma_phases_only_advance(worker: WorkerView, events: Seq<Event>, i: int)
    requires
        0 <= i <= events.len(),
    ensures
        rank(run(worker, events.take(i)).phase) <= rank(run(worker, events).phase),
    decreases events.len(),
{
    if i == events.len() {
        assert(events.take(i) =~= events);
    } else {
        let shorter = events.drop_last();
        lemma_phases_only_advance(worker, shorter, i);
        assert(shorter.take(i) =~= events.take(i));
    }
}

/// A worker stops at most once: there are no two events on which it stops.
pub proof fn lemma_stops_at_most_once(worker: WorkerView, events: Seq<Event>, i: int, j: int)
    requires
        stops_at(worker, events, i),
        stops_at(worker, events, j),
    ensures
        i == j,
{
    if i < j {
        lemma_phases_only_advance(worker, events.take(j), i + 1);
        assert(events.take(j).take(i + 1) =~= events.take(i + 1));
    }
    if j < i {
        lemma_phases_only_advance(worker, events.take(i), j + 1);
        assert(events.take(i).take(j + 1) =~= events.take(j + 1));
    }
}

/// Over any events, a worker that was started fresh asks to be registered at
/// most once and to be unregistered at most once, each time under its own
/// name; where it asks for both, it asks to be registered first. Once it has
/// left its first phase it has asked to be registered, and once it has
/// stopped it has asked to be unregistered.
pub proof fn lemma_one_register_then_one_unregister(name: Seq<char>, events: Seq<Event>)
    ensures
        forall|i: int, j: int|
            registers_at(asked(name, events), i) && registers_at(asked(name, events), j)
                ==> i == j,
        forall|i: int, j: int|
            unregisters_at(asked(name, events), i) && unregisters_at(asked(name, events), j)
                ==> i == j,
        forall|i: int, j: int|
            registers_at(asked(name, events), i) && unregisters_at(asked(name, events), j)
                ==> i < j,
        forall|i: int| #[trigger]
            registers_at(asked(name, events), i)
                ==> asked(name, events)[i] == (ActionView::Register { name }),
        forall|i: int| #[trigger]
            unregisters_at(asked(name, events), i)
                ==> asked(name, events)[i] == (ActionView::Unregister { name }),
        phase_after(name, events) != Phase::Starting <==> registers_at(asked(name, events), 0),
        phase_after(name, events) == Phase::Stopped <==> unregisters_at(asked(name, events), 3),
{
    lemma_trace_follows_the_script(name, events);
}

/// Over any events, a worker that was started fresh names its children at
/// most once: it asks for no worker to be started until it has stopped, and
/// by then it has asked for each child once, in the order of the indices,
/// after it has asked to be unregistered.
pub proof fn lemma_children_are_spawned_once(name: Seq<char>, events: Seq<Event>)
    ensures
        phase_after(name, events) != Phase::Stopped
            ==> forall|i: int| !#[trigger] spawns_at(asked(name, events), i),
        phase_after(name, events) == Phase::Stopped
            ==> asked(name, events).len() == 4 + fanout_of(name),
        phase_after(name, events) == Phase::Stopped
            ==> forall|i: int| #[trigger]
                spawns_at(asked(name, events), i) <==> 4 <= i < 4 + fanout_of(name),
        phase_after(name, events) == Phase::Stopped
            ==> forall|i: int| #[trigger]
                spawns_at(asked(name, events), i)
                    ==> asked(name, events)[i]
                        == (ActionView::Spawn { name: child_names(name)[i - 4] }),
{
    lemma_trace_follows_the_script(name, events);
}

} // verus!
