//! The course of a run: rounds one after the other, then a time of grace for late landings.

use vstd::prelude::*;

verus! {

/// Where a run stands.
#[derive(Debug, Clone, Copy, PartialEq, Eq, Structural)]
pub enum Stage {
    /// See whether the run is to be stopped. `left` rounds are still to come.
    Check { left: usize },
    /// Fetch a fresh nonce.
    Fetch { left: usize },
    /// Start a round and send through all endpoints.
    Send { left: usize },
    /// Pause between rounds.
    Pause { left: usize },
    /// Wait for late landings.
    Grace,
    /// Stop the listener and sum up.
    Stop,
    /// Give up.
    Abort,
}

/// What happened in a stage.
#[derive(Debug, Clone, Copy, PartialEq, Eq, Structural)]
pub enum Event {
    /// The stage was gone through.
    Done,
    /// The run is to be stopped.
    Shutdown,
    /// There is no fresh nonce.
    Failure,
}

/// Where a run stands after something happened. A shutdown is heeded before a round only, a failure
/// only while a nonce is fetched.
pub open spec fn stage_after(stage: Stage, event: Event) -> Stage {
    match stage {
        Stage::Check { left } => if event == Event::Shutdown {
            Stage::Stop
        } else if left == 0 {
            Stage::Grace
        } else {
            Stage::Fetch { left: (left - 1) as usize }
        },
        Stage::Fetch { left } => if event == Event::Failure {
            Stage::Abort
        } else {
            Stage::Send { left }
        },
        Stage::Send { left } => Stage::Pause { left },
        Stage::Pause { left } => Stage::Check { left },
        Stage::Grace => Stage::Stop,
        Stage::Stop => Stage::Stop,
        Stage::Abort => Stage::Abort,
    }
}

/// Where a run stands after something happened.
pub fn next_stage(stage: Stage, event: Event) -> (next: Stage)
    ensures
        next == stage_after(stage, event),
{
    match stage {
        Stage::Check { left } => if event == Event::Shutdown {
            Stage::Stop
        } else if left == 0 {
            Stage::Grace
        } else {
            Stage::Fetch { left: left - 1 }
        },
        Stage::Fetch { left } => if event == Event::Failure {
            Stage::Abort
        } else {
            Stage::Send { left }
        },
        Stage::Send { left } => Stage::Pause { left },
        Stage::Pause { left } => Stage::Check { left },
        Stage::Grace => Stage::Stop,
        Stage::Stop => Stage::Stop,
        Stage::Abort => Stage::Abort,
    }
}

/// Where a run of so many rounds starts.
pub fn first_stage(transactions: usize) -> (stage: Stage)
    ensures
        stage == (Stage::Check { left: transactions }),
{
    Stage::Check { left: transactions }
}

/// How many sends of a round may be under way at once: all of them.
pub fn max_in_flight(endpoints: usize) -> (limit: usize)
    ensures
        limit == if endpoints == 0 {
            1
        } else {
            endpoints
        },
{
    if endpoints == 0 {
        1
    } else {
        endpoints
    }
}

/// Where a run of `transactions` rounds stands after these events.
pub open spec fn course(transactions: usize, events: Seq<Event>) -> Stage
    decreases events.len(),
{
    if events.len() == 0 {
        Stage::Check { left: transactions }
    } else {
        stage_after(course(transactions, events.drop_last()), events.last())
    }
}

/// How many rounds a run has started after these events.
pub open spec fn rounds_started(transactions: usize, events: Seq<Event>) -> nat
    decreases events.len(),
{
    if events.len() == 0 {
        0
    } else {
        let before = events.drop_last();
        rounds_started(transactions, before) + if course(transactions, before) is Send {
            1nat
        } else {
            0
        }
    }
}

/// The rounds that are neither started nor given up at a stage.
spec fn rounds_left(stage: Stage) -> nat {
    match stage {
        Stage::Check { left } => left as nat,
        Stage::Fetch { left } => left as nat + 1,
        Stage::Send { left } => left as nat + 1,
        Stage::Pause { left } => left as nat,
        _ => 0,
    }
}

proof fn lemma_rounds(transactions: usize, events: Seq<Event>)
    ensures
        rounds_started(transactions, events) + rounds_left(course(transactions, events))
            <= transactions,
    decreases events.len(),
{
    if events.len() > 0 {
        lemma_rounds(transactions, events.drop_last());
    }
}

/// A run never starts more rounds than it was asked for.
pub proof fn rounds_are_bounded(transactions: usize, events: Seq<Event>)
    ensures
        rounds_started(transactions, events) <= transactions,
{
    lemma_rounds(transactions, events);
}

/// Whether a run went on undisturbed.
pub open spec fn undisturbed(events: Seq<Event>) -> bool {
    forall|i: int| 0 <= i < events.len() ==> #[trigger] events[i] == Event::Done
}

/// How many steps are left at a stage of a run that goes on undisturbed.
spec fn steps_left(stage: Stage) -> nat {
    match stage {
        Stage::Check { left } => 4 * left as nat + 2,
        Stage::Fetch { left } => 4 * left as nat + 5,
        Stage::Send { left } => 4 * left as nat + 4,
        Stage::Pause { left } => 4 * left as nat + 3,
        Stage::Grace => 1,
        Stage::Stop => 0,
        Stage::Abort => 0,
    }
}

proof fn lemma_undisturbed(transactions: usize, events: Seq<Event>)
    requires
        undisturbed(events),
    ensures
        !(course(transactions, events) is Abort),
        rounds_started(transactions, events) + rounds_left(course(transactions, events))
            == transactions,
        steps_left(course(transactions, events)) == if events.len() <= 4 * transactions + 2 {
            4 * transactions + 2 - events.len()
        } else {
            0
        },
    decreases events.len(),
{
    if events.len() > 0 {
        let before = events.drop_last();
        assert forall|i: int| 0 <= i < before.len() implies #[trigger] before[i]
            == Event::Done by {
            assert(events[i] == Event::Done);
        }
        assert(events[events.len() - 1] == Event::Done);
        lemma_undisturbed(transactions, before);
    }
}

/// A run that goes on undisturbed starts exactly the rounds it was asked for, waits for late
/// landings, and stops.
pub proof fn undisturbed_run_is_complete(transactions: usize, events: Seq<Event>)
    requires
        undisturbed(events),
        events.len() > 4 * transactions,
    ensures
        rounds_started(transactions, events) == transactions,
        course(transactions, events) == if events.len() == 4 * transactions + 1 {
            Stage::Grace
        } else {
            Stage::Stop
        },
{
    lemma_undisturbed(transactions, events);
}

/// A run that is told to stop before a round stops at once: it starts no more rounds and does not
/// wait for late landings.
pub proof fn shutdown_is_heeded(transactions: usize, events: Seq<Event>)
    requires
        course(transactions, events) is Check,
    ensures
        course(transactions, events.push(Event::Shutdown)) == Stage::Stop,
        rounds_started(transactions, events.push(Event::Shutdown)) == rounds_started(
            transactions,
            events,
        ),
{
    assert(events.push(Event::Shutdown).drop_last() =~= events);
}

/// What follows each stage: before a round a shutdown leads to the end, no rounds left to the time of
/// grace, and anything else to the next round, of which there is then one less; a failed fetch leads
/// to giving up; all else goes on as it stands, whatever happens.
pub proof fn stages_follow_each_other(left: usize, event: Event)
    ensures
        stage_after(Stage::Check { left }, Event::Shutdown) == Stage::Stop,
        event != Event::Shutdown && left == 0 ==> stage_after(Stage::Check { left }, event)
            == Stage::Grace,
        event != Event::Shutdown && left > 0 ==> {
            let next = stage_after(Stage::Check { left }, event);
            next matches Stage::Fetch { left: after } && after + 1 == left
        },
        stage_after(Stage::Fetch { left }, Event::Failure) == Stage::Abort,
        event != Event::Failure ==> stage_after(Stage::Fetch { left }, event) == (Stage::Send {
            left,
        }),
        stage_after(Stage::Send { left }, event) == (Stage::Pause { left }),
        stage_after(Stage::Pause { left }, event) == (Stage::Check { left }),
        stage_after(Stage::Grace, event) == Stage::Stop,
        stage_after(Stage::Stop, event) == Stage::Stop,
        stage_after(Stage::Abort, event) == Stage::Abort,
{
}

} // verus!
