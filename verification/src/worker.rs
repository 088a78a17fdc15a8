//! One worker's life, as a machine that is fed events and answers with the
//! actions to carry out.
//!
//! A worker registers when it is started, lives for [`LIFETIME_MS`], is told
//! to end by a signal to itself, and in its last step unregisters and names
//! its children. Whoever runs the worker hands it each [`Event`] through
//! [`Worker::handle`] and performs the [`Action`]s that come back, in their
//! order. An event that the worker's phase has no use for is dropped: nothing
//! changes and nothing is to be done. [`run`] and [`trace`] follow a worker
//! through a whole sequence of events.

use crate::fanout::{child_names, children, texts};
use crate::name::Name;
use vstd::prelude::*;

verus! {

/// How long a worker lives after it was started, in milliseconds.
pub const LIFETIME_MS: u64 = 100;

/// Where a worker is in its life.
#[derive(Clone, Copy, Debug, PartialEq, Eq, Structural)]
pub enum Phase {
    /// Made, not yet started.
    Starting,
    /// Registered; waiting for the signal to end.
    Running,
    /// Told to end; takes no more messages.
    Terminating,
    /// Unregistered, children named. Nothing follows.
    Stopped,
}

impl Phase {
    /// The one event that a worker in this phase has a use for, if there is
    /// one.
    pub open spec fn awaits(self) -> Option<Event> {
        match self {
            Phase::Starting => Some(Event::Started),
            Phase::Running => Some(Event::Signal),
            Phase::Terminating => Some(Event::Halted),
            Phase::Stopped => None,
        }
    }

    /// The phase that follows this one. Nothing follows the last.
    pub open spec fn successor(self) -> Phase {
        match self {
            Phase::Starting => Phase::Running,
            Phase::Running => Phase::Terminating,
            Phase::Terminating => Phase::Stopped,
            Phase::Stopped => Phase::Stopped,
        }
    }
}

/// What can happen to a worker.
#[derive(Clone, Copy, Debug, PartialEq, Eq, Structural)]
pub enum Event {
    /// The runtime has started the worker.
    Started,
    /// The signal to end has arrived in the worker's mailbox.
    Signal,
    /// The runtime has stopped the worker and runs its last step.
    Halted,
}

/// What a worker asks of the runtime.
#[derive(Debug)]
pub enum Action {
    /// Send the registry a request to store this worker's handle under `name`.
    Register { name: Name },
    /// Deliver [`Event::Signal`] to this worker once `millis` milliseconds
    /// have passed.
    ArmTimer { millis: u64 },
    /// Stop taking messages and stop this worker.
    Halt,
    /// Send the registry a request to take `name` out.
    Unregister { name: Name },
    /// Start a new worker called `name`, with the same registry.
    Spawn { name: Name },
}

/// An action as a mathematical value: names as their text.
pub enum ActionView {
    Register { name: Seq<char> },
    ArmTimer { millis: u64 },
    Halt,
    Unregister { name: Seq<char> },
    Spawn { name: Seq<char> },
}

impl View for Action {
    type V = ActionView;

    open spec fn view(&self) -> ActionView {
        match *self {
            Action::Register { name } => ActionView::Register { name: name@ },
            Action::ArmTimer { millis } => ActionView::ArmTimer { millis },
            Action::Halt => ActionView::Halt,
            Action::Unregister { name } => ActionView::Unregister { name: name@ },
            Action::Spawn { name } => ActionView::Spawn { name: name@ },
        }
    }
}

impl PartialEq for Action {
    fn eq(&self, other: &Self) -> (same: bool) {
        match (self, other) {
            (Action::Register { name: a }, Action::Register { name: b }) => *a == *b,
            (Action::ArmTimer { millis: a }, Action::ArmTimer { millis: b }) => *a == *b,
            (Action::Halt, Action::Halt) => true,
            (Action::Unregister { name: a }, Action::Unregister { name: b }) => *a == *b,
            (Action::Spawn { name: a }, Action::Spawn { name: b }) => *a == *b,
            _ => false,
        }
    }
}

impl Eq for Action {

}

impl vstd::std_specs::cmp::PartialEqSpecImpl for Action {
    open spec fn obeys_eq_spec() -> bool {
        true
    }

    open spec fn eq_spec(&self, other: &Self) -> bool {
        self@ == other@
    }
}

impl Action {
    /// Whether the worker cannot go on when the message of this action
    /// cannot be handed over. That is so of the two requests to the registry
    /// and of nothing else: a signal that finds its worker gone is dropped.
    pub fn must_arrive(&self) -> (fatal: bool)
        ensures
            fatal == (self@ is Register || self@ is Unregister),
    {
        match self {
            Action::Register { .. } => true,
            Action::Unregister { .. } => true,
            _ => false,
        }
    }
}

/// The views of a sequence of actions.
pub open spec fn action_views(actions: Seq<Action>) -> Seq<ActionView> {
    actions.map_values(|a: Action| a@)
}

/// The requests to start the children of the worker called `name`, by index.
pub open spec fn spawns(name: Seq<char>) -> Seq<ActionView> {
    child_names(name).map_values(|child: Seq<char>| ActionView::Spawn { name: child })
}

/// A worker as a mathematical value.
pub struct WorkerView {
    pub name: Seq<char>,
    pub phase: Phase,
}

impl WorkerView {
    /// The worker called `name` before anything has happened to it.
    pub open spec fn fresh(name: Seq<char>) -> WorkerView {
        WorkerView { name, phase: Phase::Starting }
    }

    /// Whether the worker, in its phase, has a use for `event`.
    pub open spec fn accepts(self, event: Event) -> bool {
        self.phase.awaits() == Some(event)
    }

    /// The worker after `event`: in the next phase where it has a use for
    /// the event, as it was where it has none.
    pub open spec fn next(self, event: Event) -> WorkerView {
        if self.accepts(event) {
            WorkerView { phase: self.phase.successor(), ..self }
        } else {
            self
        }
    }

    /// What the worker asks for on `event`, in order: nothing where it has
    /// no use for the event.
    pub open spec fn emits(self, event: Event) -> Seq<ActionView> {
        if !self.accepts(event) {
            Seq::empty()
        } else {
            match self.phase {
                Phase::Starting => seq![
                    ActionView::Register { name: self.name },
                    ActionView::ArmTimer { millis: LIFETIME_MS },
                ],
                Phase::Running => seq![ActionView::Halt],
                Phase::Terminating => seq![ActionView::Unregister { name: self.name }] + spawns(
                    self.name,
                ),
                Phase::Stopped => Seq::empty(),
            }
        }
    }
}

/// The worker after `events`, taken in order.
pub open spec fn run(worker: WorkerView, events: Seq<Event>) -> WorkerView
    decreases events.len(),
{
    if events.len() == 0 {
        worker
    } else {
        run(worker, events.drop_last()).next(events.last())
    }
}

/// All that the worker asks for over `events`, in order.
pub open spec fn trace(worker: WorkerView, events: Seq<Event>) -> Seq<ActionView>
    decreases events.len(),
{
    if events.len() == 0 {
        Seq::empty()
    } else {
        trace(worker, events.drop_last()) + run(worker, events.drop_last()).emits(events.last())
    }
}

/// One more event: the worker takes one more step and the trace grows by
/// what that step asks for.
pub proof fn lemma_run_one_more(worker: WorkerView, events: Seq<Event>, event: Event)
    ensures
        run(worker, events.push(event)) == run(worker, events).next(event),
        trace(worker, events.push(event)) == trace(worker, events) + run(worker, events).emits(
            event,
        ),
{
    assert(events.push(event).drop_last() =~= events);
}

/// A worker: its name and where it is in its life.
#[derive(Debug)]
pub struct Worker {
    name: Name,
    phase: Phase,
}

impl View for Worker {
    type V = WorkerView;

    closed spec fn view(&self) -> WorkerView {
        WorkerView { name: self.name@, phase: self.phase }
    }
}

impl Worker {
    /// A worker called `name` that has not been started.
    pub fn new(name: Name) -> (worker: Worker)
        ensures
            worker@ == WorkerView::fresh(name@),
    {
        Worker { name, phase: Phase::Starting }
    }

    /// The worker's name.
    pub fn name(&self) -> (name: &Name)
        ensures
            name@ == self@.name,
    {
        &self.name
    }

    /// Where the worker is in its life.
    pub fn phase(&self) -> (phase: Phase)
        ensures
            phase == self@.phase,
    {
        self.phase
    }

    /// Takes one event and returns what is to be done about it, in order.
    /// Where the worker has no use for the event, it stays as it is and
    /// nothing is returned.
    pub fn handle(&mut self, event: Event) -> (actions: Vec<Action>)
        ensures
            final(self)@ == old(self)@.next(event),
            action_views(actions@) == old(self)@.emits(event),
            actions@.len() == old(self)@.emits(event).len(),
    {
        let mut actions: Vec<Action> = Vec::new();
        match (self.phase, event) {
            (Phase::Starting, Event::Started) => {
                actions.push(Action::Register { name: self.name.clone() });
                actions.push(Action::ArmTimer { millis: LIFETIME_MS });
                self.phase = Phase::Running;
            },
            (Phase::Running, Event::Signal) => {
                actions.push(Action::Halt);
                self.phase = Phase::Terminating;
            },
            (Phase::Terminating, Event::Halted) => {
                actions.push(Action::Unregister { name: self.name.clone() });
                let kids = children(&self.name);
                let ghost wanted = spawns(self.name@);
                assert(texts(kids@).len() == kids@.len());
                for kid in it: kids
                    invariant
                        texts(it.seq()) == child_names(self.name@),
                        wanted == spawns(self.name@),
                        actions@.len() == it.index() + 1,
                        actions@[0]@ == (ActionView::Unregister { name: self.name@ }),
                        forall|j: int|
                            0 <= j < it.index() ==> (#[trigger] actions@[j + 1])@ == wanted[j],
                {
                    assert(texts(it.seq())[it.index() as int] == kid@);
                    actions.push(Action::Spawn { name: kid });
                }
                self.phase = Phase::Stopped;
                proof {
                    let emitted = old(self)@.emits(event);
                    assert(emitted.len() == actions@.len());
                    assert forall|j: int| 0 <= j < emitted.len() implies action_views(actions@)[j]
                        == emitted[j] by {
                        if j > 0 {
                            assert(actions@[(j - 1) + 1]@ == wanted[j - 1]);
                        }
                    }
                }
            },
            _ => {},
        }
        assert(action_views(actions@) =~= old(self)@.emits(event));
        actions
    }

    /// Takes `events` one after the other and returns all that is to be done
    /// about them, in order.
    pub fn handle_all(&mut self, events: &Vec<Event>) -> (actions: Vec<Action>)
        ensures
            final(self)@ == run(old(self)@, events@),
            action_views(actions@) == trace(old(self)@, events@),
    {
        let ghost start = self@;
        let mut actions: Vec<Action> = Vec::new();
        let mut i: usize = 0;
        assert(events@.take(0) =~= Seq::<Event>::empty());
        while i < events.len()
            invariant
                i <= events@.len(),
                self@ == run(start, events@.take(i as int)),
                action_views(actions@) =~= trace(start, events@.take(i as int)),
            decreases events@.len() - i,
        {
            proof {
                lemma_run_one_more(start, events@.take(i as int), events@[i as int]);
                assert(events@.take(i + 1) =~= events@.take(i as int).push(events@[i as int]));
            }
            let ghost so_far = actions@;
            let mut step = self.handle(events[i]);
            let ghost added = step@;
            actions.append(&mut step);
            assert(action_views(so_far + added) =~= action_views(so_far) + action_views(added));
            i = i + 1;
        }
        assert(events@.take(events@.len() as int) =~= events@);
        actions
    }
}

} // verus!
