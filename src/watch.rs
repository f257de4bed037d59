//! The decisions of the rebuild worker: when a change under the content root
//! starts a build, and how changes that arrive during a build are coalesced.
//!
//! A failed build stops the worker: it is not retried, and the tree of the
//! last build, whole or partial, stays as it is.
use vstd::prelude::*;

verus! {

/// The state of the rebuild worker.
#[derive(Clone, Copy, Debug, PartialEq, Eq, Structural)]
pub enum WorkerState {
    /// Watching; no build in flight.
    Idle,
    /// A build is in flight; `pending` records a change seen since it started.
    Building { pending: bool },
    /// A build failed; the worker does no more.
    Stopped,
}

/// What the worker learns.
#[derive(Clone, Copy, Debug, PartialEq, Eq, Structural)]
pub enum WorkerEvent {
    /// Something under the content root was created, changed, renamed or removed.
    Changed,
    /// The build in flight completed.
    BuildSucceeded,
    /// The build in flight failed.
    BuildFailed,
}

/// What the worker is to do next.
#[derive(Clone, Copy, Debug, PartialEq, Eq, Structural)]
pub enum WorkerAction {
    /// Run a full build.
    StartBuild,
    /// Nothing to do until the next event.
    Wait,
    /// Give up: the failure is fatal to the worker.
    Stop,
}

/// The next state and action of the worker in `state` on `event`.
pub open spec fn next(state: WorkerState, event: WorkerEvent) -> (WorkerState, WorkerAction) {
    match state {
        WorkerState::Idle => match event {
            WorkerEvent::Changed => (WorkerState::Building { pending: false }, WorkerAction::StartBuild),
            _ => (WorkerState::Idle, WorkerAction::Wait),
        },
        WorkerState::Building { pending } => match event {
            WorkerEvent::Changed => (WorkerState::Building { pending: true }, WorkerAction::Wait),
            WorkerEvent::BuildSucceeded => if pending {
                (WorkerState::Building { pending: false }, WorkerAction::StartBuild)
            } else {
                (WorkerState::Idle, WorkerAction::Wait)
            },
            WorkerEvent::BuildFailed => (WorkerState::Stopped, WorkerAction::Stop),
        },
        WorkerState::Stopped => (WorkerState::Stopped, WorkerAction::Stop),
    }
}

/// The state after the worker, starting in `state`, has taken `events` in order.
pub open spec fn state_after(state: WorkerState, events: Seq<WorkerEvent>) -> WorkerState
    decreases events.len(),
{
    if events.len() == 0 {
        state
    } else {
        next(state_after(state, events.drop_last()), events.last()).0
    }
}

/// The actions that the worker, starting in `state`, takes on `events`: one per event.
pub open spec fn actions_of(state: WorkerState, events: Seq<WorkerEvent>) -> Seq<WorkerAction>
    decreases events.len(),
{
    if events.len() == 0 {
        Seq::empty()
    } else {
        actions_of(state, events.drop_last()).push(
            next(state_after(state, events.drop_last()), events.last()).1,
        )
    }
}

/// Takes one event: returns the worker's next state and what it is to do.
pub fn step(state: WorkerState, event: WorkerEvent) -> (r: (WorkerState, WorkerAction))
    ensures
        r == next(state, event),
{
    match state {
        WorkerState::Idle => match event {
            WorkerEvent::Changed => (WorkerState::Building { pending: false }, WorkerAction::StartBuild),
            _ => (WorkerState::Idle, WorkerAction::Wait),
        },
        WorkerState::Building { pending } => match event {
            WorkerEvent::Changed => (WorkerState::Building { pending: true }, WorkerAction::Wait),
            WorkerEvent::BuildSucceeded => if pending {
                (WorkerState::Building { pending: false }, WorkerAction::StartBuild)
            } else {
                (WorkerState::Idle, WorkerAction::Wait)
            },
            WorkerEvent::BuildFailed => (WorkerState::Stopped, WorkerAction::Stop),
        },
        WorkerState::Stopped => (WorkerState::Stopped, WorkerAction::Stop),
    }
}

proof fn lemma_actions_len(state: WorkerState, events: Seq<WorkerEvent>)
    ensures
        actions_of(state, events).len() == events.len(),
    decreases events.len(),
{
    if events.len() > 0 {
        lemma_actions_len(state, events.drop_last());
    }
}

/// Every change is answered by a build that starts at or after it, unless a
/// build is still owed (a change came in while the build in flight ran) or the
/// worker has stopped. So when the worker is idle again, the last build
/// started after the last change.
pub proof fn lemma_every_change_is_followed_by_a_build(events: Seq<WorkerEvent>)
    ensures
        ({
            let last = state_after(WorkerState::Idle, events);
            let actions = actions_of(WorkerState::Idle, events);
            forall|j: int|
                0 <= j < events.len() && #[trigger] events[j] == WorkerEvent::Changed ==> (exists|k: int|
                    j <= k < events.len() && actions[k] == WorkerAction::StartBuild) || last
                    == WorkerState::Building { pending: true } || last == WorkerState::Stopped
        }),
    decreases events.len(),
{
    let s0 = WorkerState::Idle;
    lemma_actions_len(s0, events);
    if events.len() > 0 {
        let rest = events.drop_last();
        let n = events.len() - 1;
        lemma_every_change_is_followed_by_a_build(rest);
        lemma_actions_len(s0, rest);
        let mid = state_after(s0, rest);
        let actions = actions_of(s0, events);
        assert(actions =~= actions_of(s0, rest).push(next(mid, events.last()).1));
        let last = state_after(s0, events);
        assert forall|j: int|
            0 <= j < events.len() && #[trigger] events[j] == WorkerEvent::Changed implies (exists|k: int|
                j <= k < events.len() && actions[k] == WorkerAction::StartBuild) || last
                == WorkerState::Building { pending: true } || last == WorkerState::Stopped by {
            if j == n {
                if mid == WorkerState::Idle {
                    assert(actions[n] == WorkerAction::StartBuild);
                }
            } else {
                assert(rest[j] == WorkerEvent::Changed);
                if exists|k: int| j <= k < rest.len() && actions_of(s0, rest)[k] == WorkerAction::StartBuild {
                    let k = choose|k: int|
                        j <= k < rest.len() && actions_of(s0, rest)[k] == WorkerAction::StartBuild;
                    assert(actions[k] == WorkerAction::StartBuild);
                } else if mid == (WorkerState::Building { pending: true }) {
                    if events.last() == WorkerEvent::BuildSucceeded {
                        assert(actions[n] == WorkerAction::StartBuild);
                    }
                }
            }
        }
    }
}

/// Once changes stop, the worker settles: with no further change, at most two
/// completed builds bring a building worker back to idle.
pub proof fn lemma_quiet_period_settles(pending: bool)
    ensures
        state_after(
            WorkerState::Building { pending },
            seq![WorkerEvent::BuildSucceeded, WorkerEvent::BuildSucceeded],
        ) == WorkerState::Idle,
        pending ==> actions_of(
            WorkerState::Building { pending },
            seq![WorkerEvent::BuildSucceeded],
        ) == seq![WorkerAction::StartBuild],
{
    let s = WorkerState::Building { pending };
    let one = seq![WorkerEvent::BuildSucceeded];
    let two = seq![WorkerEvent::BuildSucceeded, WorkerEvent::BuildSucceeded];
    assert(two.drop_last() =~= one);
    assert(one.drop_last() =~= Seq::<WorkerEvent>::empty());
    let none = Seq::<WorkerEvent>::empty();
    assert(state_after(s, none) == s);
    assert(actions_of(s, none) == Seq::<WorkerAction>::empty());
    assert(state_after(s, one) == next(s, WorkerEvent::BuildSucceeded).0);
    assert(state_after(s, two) == next(state_after(s, one), WorkerEvent::BuildSucceeded).0);
    assert(actions_of(s, one) =~= seq![next(s, WorkerEvent::BuildSucceeded).1]);
}

} // verus!
