//! The lifecycle supervisor: how and when a command ends.
//!
//! The supervisor waits for one of two things, whichever comes first: the
//! process exits on its own, or cancellation is requested. It answers the
//! first with the terminal update, and everything after it with nothing.
//! A wait can also end because the handle for cancelling went away without
//! being used. That is no event: the command runs on, and the supervisor
//! goes on waiting for its exit.

use crate::command::{CommandUpdate, UpdateView};
use vstd::prelude::*;

verus! {

/// Where the supervisor of one command stands.
#[derive(Clone, Copy, Debug, PartialEq, Eq, Structural)]
pub enum SupervisorState {
    /// Neither an exit nor a cancellation has been seen.
    Awaiting,
    /// The terminal update has been decided.
    Done,
}

/// What can reach the supervisor.
#[derive(Clone, Copy, Debug, PartialEq, Eq, Structural)]
pub enum SupervisorEvent {
    /// The process exited on its own, with its exit code if the system
    /// reported one.
    Exited(Option<i32>),
    /// The cancellation signal arrived.
    CancelRequested,
}

/// How a wait of the supervisor ended.
#[derive(Clone, Copy, Debug, PartialEq, Eq, Structural)]
pub enum Waited {
    /// The process exited on its own, with its exit code if the system
    /// reported one.
    Exited(Option<i32>),
    /// The cancellation signal arrived.
    Cancelled,
    /// The handle for cancelling was dropped and no signal was sent, as
    /// happens when a later command takes the place of this one.
    HandleDropped,
}

/// The event that a wait stands for. A dropped handle stands for none.
pub open spec fn awaited(waited: Waited) -> Option<SupervisorEvent> {
    match waited {
        Waited::Exited(code) => Some(SupervisorEvent::Exited(code)),
        Waited::Cancelled => Some(SupervisorEvent::CancelRequested),
        Waited::HandleDropped => None,
    }
}

/// The events that `waits` stand for, in order.
pub open spec fn events_of(waits: Seq<Waited>) -> Seq<SupervisorEvent>
    decreases waits.len(),
{
    if waits.len() == 0 {
        Seq::empty()
    } else {
        match awaited(waits[0]) {
            Some(event) => seq![event] + events_of(waits.drop_first()),
            None => events_of(waits.drop_first()),
        }
    }
}

/// What the supervisor asks for in answer to an event.
#[derive(Clone, Copy, Debug, PartialEq, Eq, Structural)]
pub enum SupervisorAction {
    /// Emit `Finished` with this exit code.
    Finish(Option<i32>),
    /// Ask the system to end the process by force, wait until it is gone,
    /// whatever the request returned, and then emit `Finished` without a code.
    KillThenFinish,
    /// Do nothing: the command has ended already.
    Ignore,
}

impl SupervisorAction {
    /// The terminal update that this action emits, if it emits one.
    pub open spec fn terminal(self) -> Option<UpdateView> {
        match self {
            SupervisorAction::Finish(code) => Some(UpdateView::Finished(code)),
            SupervisorAction::KillThenFinish => Some(UpdateView::Finished(None)),
            SupervisorAction::Ignore => None,
        }
    }

    /// The updates that this action emits.
    pub open spec fn updates(self) -> Seq<UpdateView> {
        match self.terminal() {
            Some(update) => seq![update],
            None => Seq::empty(),
        }
    }

    /// Whether this action ends the process by force.
    pub open spec fn kills(self) -> bool {
        self == SupervisorAction::KillThenFinish
    }

    /// The terminal update that this action emits, if it emits one.
    pub fn update(&self) -> (u: Option<CommandUpdate>)
        ensures
            match u {
                Some(update) => self.terminal() == Some(update@),
                None => self.terminal() is None,
            },
    {
        match self {
            SupervisorAction::Finish(code) => Some(CommandUpdate::Finished(*code)),
            SupervisorAction::KillThenFinish => Some(CommandUpdate::Finished(None)),
            SupervisorAction::Ignore => None,
        }
    }
}

/// The exit code that `Finished` carries when `event` comes first.
pub open spec fn outcome(event: SupervisorEvent) -> Option<i32> {
    match event {
        SupervisorEvent::Exited(code) => code,
        SupervisorEvent::CancelRequested => None,
    }
}

/// One step of the supervisor: the next state and the action for `event`.
pub open spec fn supervise(state: SupervisorState, event: SupervisorEvent) -> (
    SupervisorState,
    SupervisorAction,
) {
    match state {
        SupervisorState::Done => (SupervisorState::Done, SupervisorAction::Ignore),
        SupervisorState::Awaiting => match event {
            SupervisorEvent::Exited(code) => (SupervisorState::Done, SupervisorAction::Finish(code)),
            SupervisorEvent::CancelRequested => (
                SupervisorState::Done,
                SupervisorAction::KillThenFinish,
            ),
        },
    }
}

/// The actions for `events`, taken one after the other from `state`.
pub open spec fn supervise_all(state: SupervisorState, events: Seq<SupervisorEvent>) -> Seq<
    SupervisorAction,
>
    decreases events.len(),
{
    if events.len() == 0 {
        Seq::empty()
    } else {
        let (next, action) = supervise(state, events[0]);
        seq![action] + supervise_all(next, events.drop_first())
    }
}

/// All the updates that `actions` emit, in order.
pub open spec fn emitted(actions: Seq<SupervisorAction>) -> Seq<UpdateView>
    decreases actions.len(),
{
    if actions.len() == 0 {
        Seq::empty()
    } else {
        actions[0].updates() + emitted(actions.drop_first())
    }
}

/// How many of `actions` end the process by force.
pub open spec fn kill_count(actions: Seq<SupervisorAction>) -> nat
    decreases actions.len(),
{
    if actions.len() == 0 {
        0
    } else if actions[0].kills() {
        1 + kill_count(actions.drop_first())
    } else {
        kill_count(actions.drop_first())
    }
}

/// A supervisor that is done answers every event with `Ignore`: nothing is
/// emitted and nothing is killed.
pub proof fn lemma_done_is_final(events: Seq<SupervisorEvent>)
    ensures
        supervise_all(SupervisorState::Done, events).len() == events.len(),
        forall|i: int|
            0 <= i < events.len() ==> #[trigger] supervise_all(SupervisorState::Done, events)[i]
                == SupervisorAction::Ignore,
        emitted(supervise_all(SupervisorState::Done, events)) == Seq::<UpdateView>::empty(),
        kill_count(supervise_all(SupervisorState::Done, events)) == 0,
    decreases events.len(),
{
    if events.len() > 0 {
        let rest = events.drop_first();
        lemma_done_is_final(rest);
        let actions = supervise_all(SupervisorState::Done, events);
        assert(actions.drop_first() =~= supervise_all(SupervisorState::Done, rest));
    }
}

/// Whatever reaches the supervisor of a command, and in whatever order, as
/// soon as anything has reached it exactly one update has been emitted, and
/// that update is `Finished`. Its exit code is decided by what came first: the
/// code of the process if it exited before any cancellation, and none if
/// cancellation came before the exit. The process is ended by force at most
/// once, and only when cancellation came first.
pub proof fn lemma_exactly_one_finished(events: Seq<SupervisorEvent>)
    requires
        events.len() > 0,
    ensures
        emitted(supervise_all(SupervisorState::Awaiting, events)) == seq![
            UpdateView::Finished(outcome(events[0])),
        ],
        kill_count(supervise_all(SupervisorState::Awaiting, events)) == (if events[0]
            == SupervisorEvent::CancelRequested {
            1nat
        } else {
            0nat
        }),
{
    let rest = events.drop_first();
    let actions = supervise_all(SupervisorState::Awaiting, events);
    lemma_done_is_final(rest);
    assert(actions.drop_first() =~= supervise_all(SupervisorState::Done, rest));
}

/// Dropped handles do not end a command. However many waits end with a
/// dropped handle, the first wait that ends otherwise decides the one
/// `Finished` update: an exit gives its code, a cancellation gives none.
pub proof fn lemma_dropped_handles_decide_nothing(dropped: Seq<Waited>, first: Waited)
    requires
        forall|i: int| 0 <= i < dropped.len() ==> dropped[i] == Waited::HandleDropped,
        first != Waited::HandleDropped,
    ensures
        events_of(dropped) == Seq::<SupervisorEvent>::empty(),
        events_of(dropped.push(first)) == seq![awaited(first)->Some_0],
        emitted(supervise_all(SupervisorState::Awaiting, events_of(dropped.push(first)))) == seq![
            UpdateView::Finished(outcome(awaited(first)->Some_0)),
        ],
    decreases dropped.len(),
{
    let waits = dropped.push(first);
    if dropped.len() == 0 {
        assert(events_of(waits.drop_first()) =~= Seq::<SupervisorEvent>::empty());
    } else {
        let rest = dropped.drop_first();
        lemma_dropped_handles_decide_nothing(rest, first);
        assert(waits.drop_first() =~= rest.push(first));
    }
    lemma_exactly_one_finished(events_of(waits));
}

/// Before anything has reached the supervisor, nothing has been emitted.
pub proof fn lemma_nothing_before_the_first_event(state: SupervisorState)
    ensures
        emitted(supervise_all(state, Seq::<SupervisorEvent>::empty())) == Seq::<
            UpdateView,
        >::empty(),
{
}

/// The supervisor of one command.
#[derive(Debug)]
pub struct Supervisor {
    state: SupervisorState,
}

impl Supervisor {
    /// Where the supervisor stands.
    pub closed spec fn state(&self) -> SupervisorState {
        self.state
    }

    /// The supervisor of a command that was just launched.
    pub fn new() -> (s: Self)
        ensures
            s.state() == SupervisorState::Awaiting,
    {
        Supervisor { state: SupervisorState::Awaiting }
    }

    /// Whether the terminal update has been decided.
    pub fn is_done(&self) -> (done: bool)
        ensures
            done == (self.state() == SupervisorState::Done),
    {
        match self.state {
            SupervisorState::Done => true,
            SupervisorState::Awaiting => false,
        }
    }

    /// Takes the end of a wait and returns what to do about it. `None` says
    /// that the wait stood for no event: the supervisor stands where it
    /// stood, and the caller waits again, from now on for the exit alone.
    pub fn on_wait(&mut self, waited: Waited) -> (action: Option<SupervisorAction>)
        ensures
            match awaited(waited) {
                Some(event) => (final(self).state(), action) == (
                    supervise(old(self).state(), event).0,
                    Some(supervise(old(self).state(), event).1),
                ),
                None => action is None && final(self).state() == old(self).state(),
            },
    {
        match waited {
            Waited::Exited(code) => Some(self.step(SupervisorEvent::Exited(code))),
            Waited::Cancelled => Some(self.step(SupervisorEvent::CancelRequested)),
            Waited::HandleDropped => None,
        }
    }

    /// Takes the next event and returns what to do about it.
    pub fn step(&mut self, event: SupervisorEvent) -> (action: SupervisorAction)
        ensures
            (final(self).state(), action) == supervise(old(self).state(), event),
    {
        match self.state {
            SupervisorState::Done => SupervisorAction::Ignore,
            SupervisorState::Awaiting => {
                self.state = SupervisorState::Done;
                match event {
                    SupervisorEvent::Exited(code) => SupervisorAction::Finish(code),
                    SupervisorEvent::CancelRequested => SupervisorAction::KillThenFinish,
                }
            },
        }
    }
}

} // verus!
