//! The order of a run, as a state machine: every unit is collected, then
//! the boundary is synthesized, then every unit is emitted.
//!
//! The caller does what an action says and reports what came of it as the
//! next event. A failure, or an event that the phase does not expect, ends
//! the run.

use vstd::prelude::*;

verus! {

/// Where a run stands.
#[derive(Clone, Copy, Debug, PartialEq, Eq)]
pub enum Phase {
    Idle,
    /// The first pass.
    Collecting,
    /// The second pass.
    Synthesizing,
    Done,
}

/// The state of a run.
#[derive(Clone, Copy, Debug, PartialEq, Eq)]
pub struct Run {
    pub phase: Phase,
    /// How many units the run takes.
    pub total: usize,
    /// The unit that the current pass is at.
    pub next: usize,
    /// Whether the boundary has been synthesized.
    pub sealed: bool,
    /// Whether units are reported and not written.
    pub preview: bool,
}

/// What the caller reports.
#[derive(Clone, Copy, Debug, PartialEq, Eq)]
pub enum Event {
    /// A run over this many units is asked for.
    Start { units: usize, preview: bool },
    /// The unit asked for was read, parsed and collected.
    Collected,
    /// The boundary was synthesized.
    Sealed,
    /// The unit asked for was rendered and written or reported.
    Emitted,
    /// What was asked for could not be done.
    Failed,
}

/// What the caller is to do next.
#[derive(Clone, Copy, Debug, PartialEq, Eq)]
pub enum Action {
    /// Read, parse and collect this unit.
    Collect { unit: usize },
    /// Synthesize the boundary from what was collected.
    Seal,
    /// Render this unit and write it back.
    Write { unit: usize },
    /// Render this unit and report it.
    Print { unit: usize },
    /// The run is complete.
    Finish,
    /// The run has ended without completing.
    Abort,
}

/// The run ended, without completing.
pub open spec fn aborted(run: Run) -> (Run, Action) {
    (Run { phase: Phase::Done, ..run }, Action::Abort)
}

/// The action that emits a unit: written, or reported in a preview.
pub open spec fn emission(preview: bool, unit: usize) -> Action {
    if preview {
        Action::Print { unit }
    } else {
        Action::Write { unit }
    }
}

/// The state after an event, and the action that it calls for.
pub open spec fn transition(run: Run, event: Event) -> (Run, Action) {
    match (run.phase, event) {
        (Phase::Idle, Event::Start { units, preview }) => if units == 0 {
            (
                Run { phase: Phase::Synthesizing, total: 0, next: 0, sealed: false, preview },
                Action::Seal,
            )
        } else {
            (
                Run { phase: Phase::Collecting, total: units, next: 0, sealed: false, preview },
                Action::Collect { unit: 0 },
            )
        },
        (Phase::Collecting, Event::Collected) => if run.next + 1 < run.total {
            (
                Run { next: (run.next + 1) as usize, ..run },
                Action::Collect { unit: (run.next + 1) as usize },
            )
        } else {
            (Run { phase: Phase::Synthesizing, next: 0, sealed: false, ..run }, Action::Seal)
        },
        (Phase::Synthesizing, Event::Sealed) => if run.sealed {
            aborted(run)
        } else if run.total == 0 {
            (Run { phase: Phase::Done, sealed: true, ..run }, Action::Finish)
        } else {
            (Run { next: 0, sealed: true, ..run }, emission(run.preview, 0))
        },
        (Phase::Synthesizing, Event::Emitted) => if !run.sealed {
            aborted(run)
        } else if run.next + 1 < run.total {
            (
                Run { next: (run.next + 1) as usize, ..run },
                emission(run.preview, (run.next + 1) as usize),
            )
        } else {
            (Run { phase: Phase::Done, ..run }, Action::Finish)
        },
        _ => aborted(run),
    }
}

/// What holds of every state that a run reaches: the pass is at one of the
/// units, and the second pass starts at the first.
pub open spec fn ordered(run: Run) -> bool {
    match run.phase {
        Phase::Idle => true,
        Phase::Collecting => run.next < run.total && !run.sealed,
        Phase::Synthesizing => if run.sealed {
            run.next < run.total
        } else {
            run.next == 0
        },
        Phase::Done => true,
    }
}

/// How far a phase is into the run.
pub open spec fn rank(phase: Phase) -> int {
    match phase {
        Phase::Idle => 0,
        Phase::Collecting => 1,
        Phase::Synthesizing => 2,
        Phase::Done => 3,
    }
}

/// A run that has not started.
pub open spec fn fresh() -> Run {
    Run { phase: Phase::Idle, total: 0, next: 0, sealed: false, preview: false }
}

impl Run {
    /// A run that has not started.
    pub fn new() -> (run: Run)
        ensures
            run == fresh(),
    {
        Run { phase: Phase::Idle, total: 0, next: 0, sealed: false, preview: false }
    }

    /// Takes an event: the state after it, and the action it calls for.
    pub fn step(self, event: Event) -> (out: (Run, Action))
        ensures
            out == transition(self, event),
    {
        let stop = (
            Run {
                phase: Phase::Done,
                total: self.total,
                next: self.next,
                sealed: self.sealed,
                preview: self.preview,
            },
            Action::Abort,
        );
        match self.phase {
            Phase::Idle => match event {
                Event::Start { units, preview } => {
                    if units == 0 {
                        (
                            Run {
                                phase: Phase::Synthesizing,
                                total: 0,
                                next: 0,
                                sealed: false,
                                preview,
                            },
                            Action::Seal,
                        )
                    } else {
                        (
                            Run {
                                phase: Phase::Collecting,
                                total: units,
                                next: 0,
                                sealed: false,
                                preview,
                            },
                            Action::Collect { unit: 0 },
                        )
                    }
                },
                _ => stop,
            },
            Phase::Collecting => match event {
                Event::Collected => {
                    if self.next < self.total && self.total - self.next > 1 {
                        let unit: usize = self.next + 1;
                        (
                            Run {
                                phase: Phase::Collecting,
                                total: self.total,
                                next: unit,
                                sealed: self.sealed,
                                preview: self.preview,
                            },
                            Action::Collect { unit },
                        )
                    } else {
                        (
                            Run {
                                phase: Phase::Synthesizing,
                                total: self.total,
                                next: 0,
                                sealed: false,
                                preview: self.preview,
                            },
                            Action::Seal,
                        )
                    }
                },
                _ => stop,
            },
            Phase::Synthesizing => match event {
                Event::Sealed => {
                    if self.sealed {
                        stop
                    } else if self.total == 0 {
                        (
                            Run {
                                phase: Phase::Done,
                                total: self.total,
                                next: self.next,
                                sealed: true,
                                preview: self.preview,
                            },
                            Action::Finish,
                        )
                    } else {
                        (
                            Run {
                                phase: Phase::Synthesizing,
                                total: self.total,
                                next: 0,
                                sealed: true,
                                preview: self.preview,
                            },
                            emit(self.preview, 0),
                        )
                    }
                },
                Event::Emitted => {
                    if !self.sealed {
                        stop
                    } else if self.next < self.total && self.total - self.next > 1 {
                        let unit: usize = self.next + 1;
                        (
                            Run {
                                phase: Phase::Synthesizing,
                                total: self.total,
                                next: unit,
                                sealed: self.sealed,
                                preview: self.preview,
                            },
                            emit(self.preview, unit),
                        )
                    } else {
                        (
                            Run {
                                phase: Phase::Done,
                                total: self.total,
                                next: self.next,
                                sealed: self.sealed,
                                preview: self.preview,
                            },
                            Action::Finish,
                        )
                    }
                },
                _ => stop,
            },
            Phase::Done => stop,
        }
    }
}

/// The action that emits a unit.
fn emit(preview: bool, unit: usize) -> (action: Action)
    ensures
        action == emission(preview, unit),
{
    if preview {
        Action::Print { unit }
    } else {
        Action::Write { unit }
    }
}

/// The states and actions of a run over a list of events: the state after
/// the last event.
pub open spec fn state_after(run: Run, events: Seq<Event>) -> Run
    decreases events.len(),
{
    if events.len() == 0 {
        run
    } else {
        transition(state_after(run, events.drop_last()), events.last()).0
    }
}

/// The action that the last of the events calls for.
pub open spec fn last_action(run: Run, events: Seq<Event>) -> Action
    recommends
        events.len() > 0,
{
    transition(state_after(run, events.drop_last()), events.last()).1
}

/// A step keeps the order, and never goes back to an earlier phase.
pub proof fn lemma_step_ordered(run: Run, event: Event)
    requires
        ordered(run),
    ensures
        ordered(transition(run, event).0),
        rank(transition(run, event).0.phase) >= rank(run.phase),
{
}

/// The barrier between the passes. A unit is collected only in the first
/// pass, before the boundary is synthesized. A unit is emitted only in the
/// second pass, after the boundary is synthesized, and the second pass is
/// entered only when the first has collected its last unit.
pub proof fn lemma_step_barrier(run: Run, event: Event)
    requires
        ordered(run),
    ensures
        transition(run, event).1 is Collect ==> (run.phase is Idle || run.phase is Collecting)
            && transition(run, event).0.phase is Collecting && !transition(run, event).0.sealed
            && transition(run, event).1->Collect_unit == transition(run, event).0.next,
        (transition(run, event).1 is Write || transition(run, event).1 is Print)
            ==> run.phase is Synthesizing && transition(run, event).0.phase is Synthesizing
            && transition(run, event).0.sealed,
        transition(run, event).1 is Write ==> !run.preview && transition(run, event).1->Write_unit
            == transition(run, event).0.next,
        transition(run, event).1 is Print ==> run.preview && transition(run, event).1->Print_unit
            == transition(run, event).0.next,
        transition(run, event).0.phase is Synthesizing && !(run.phase is Synthesizing) ==> (
        run.phase is Collecting && run.next + 1 == run.total && event is Collected) || (
        run.phase is Idle && event is Start && event->units == 0),
        transition(run, event).1 is Finish ==> transition(run, event).0.phase is Done
            && run.phase is Synthesizing && (run.total == 0 || run.next + 1 == run.total),
{
}

/// A failure ends the run at once, whatever the phase; so does any event
/// after the end.
pub proof fn lemma_failure_ends(run: Run, event: Event)
    ensures
        transition(run, Event::Failed) == aborted(run),
        run.phase is Done ==> transition(run, event) == aborted(run),
        transition(run, event).1 is Abort ==> transition(run, event).0.phase is Done,
{
}

/// Every state that a run reaches from its start is ordered.
pub proof fn lemma_reached_ordered(run: Run, events: Seq<Event>)
    requires
        ordered(run),
    ensures
        ordered(state_after(run, events)),
        rank(state_after(run, events).phase) >= rank(run.phase),
    decreases events.len(),
{
    if events.len() > 0 {
        lemma_reached_ordered(run, events.drop_last());
        lemma_step_ordered(state_after(run, events.drop_last()), events.last());
    }
}

/// Once the second pass has begun, no unit is collected any more.
pub proof fn lemma_no_collecting_after_barrier(run: Run, events: Seq<Event>)
    requires
        ordered(run),
        run.phase is Synthesizing || run.phase is Done,
        events.len() > 0,
    ensures
        !(last_action(run, events) is Collect),
{
    lemma_reached_ordered(run, events.drop_last());
    lemma_step_barrier(state_after(run, events.drop_last()), events.last());
}


/// The same event, `count` times.
pub open spec fn repeated(event: Event, count: nat) -> Seq<Event> {
    Seq::new(count, |i: int| event)
}

/// The events of a run in which nothing fails: the start, each unit
/// collected, the boundary sealed, each unit emitted.
pub open spec fn script(units: usize, preview: bool) -> Seq<Event> {
    seq![Event::Start { units, preview }] + repeated(Event::Collected, units as nat) + seq![
        Event::Sealed,
    ] + repeated(Event::Emitted, units as nat)
}

/// The state after one event.
proof fn lemma_state_after_one(run: Run, event: Event)
    ensures
        state_after(run, seq![event]) == transition(run, event).0,
{
    reveal_with_fuel(state_after, 2);
    assert(seq![event].drop_last() =~= Seq::<Event>::empty());
}

/// The state after two lists of events in a row.
proof fn lemma_state_after_concat(run: Run, first: Seq<Event>, rest: Seq<Event>)
    ensures
        state_after(run, first + rest) == state_after(state_after(run, first), rest),
    decreases rest.len(),
{
    if rest.len() == 0 {
        assert(first + rest =~= first);
    } else {
        assert((first + rest).drop_last() =~= first + rest.drop_last());
        assert((first + rest).last() == rest.last());
        lemma_state_after_concat(run, first, rest.drop_last());
    }
}

/// While units are left, each report of a collected unit moves the first
/// pass on by one.
proof fn lemma_collecting(run: Run, count: nat)
    requires
        run.phase is Collecting,
        run.next + count < run.total,
    ensures
        state_after(run, repeated(Event::Collected, count)) == (Run {
            next: (run.next + count) as usize,
            ..run
        }),
    decreases count,
{
    if count > 0 {
        let events = repeated(Event::Collected, count);
        assert(events.drop_last() =~= repeated(Event::Collected, (count - 1) as nat));
        lemma_collecting(run, (count - 1) as nat);
    }
}

/// While units are left, each report of an emitted unit moves the second
/// pass on by one.
proof fn lemma_emitting(run: Run, count: nat)
    requires
        run.phase is Synthesizing,
        run.sealed,
        run.next + count < run.total,
    ensures
        state_after(run, repeated(Event::Emitted, count)) == (Run {
            next: (run.next + count) as usize,
            ..run
        }),
    decreases count,
{
    if count > 0 {
        let events = repeated(Event::Emitted, count);
        assert(events.drop_last() =~= repeated(Event::Emitted, (count - 1) as nat));
        lemma_emitting(run, (count - 1) as nat);
    }
}

/// A run in which nothing fails completes: after the start, one report for
/// each unit collected, one for the boundary and one for each unit emitted,
/// the run is done, and the last action is to finish.
pub proof fn lemma_run_completes(units: usize, preview: bool)
    ensures
        state_after(fresh(), script(units, preview)).phase is Done,
        last_action(fresh(), script(units, preview)) is Finish,
{
    let fresh = fresh();
    let start = seq![Event::Start { units, preview }];
    let seal = seq![Event::Sealed];
    let n = units as nat;
    let started = state_after(fresh, start);
    lemma_state_after_one(fresh, Event::Start { units, preview });
    if units == 0 {
        assert(repeated(Event::Collected, n) =~= Seq::<Event>::empty());
        assert(repeated(Event::Emitted, n) =~= Seq::<Event>::empty());
        assert(script(units, preview) =~= start + seal);
        lemma_state_after_concat(fresh, start, seal);
        assert((start + seal).drop_last() =~= start);
    } else {
        let collected = repeated(Event::Collected, n);
        let emitted = repeated(Event::Emitted, n);
        // all but the last unit are collected, then the last one
        let most = repeated(Event::Collected, (n - 1) as nat);
        assert(collected.drop_last() =~= most);
        lemma_collecting(started, (n - 1) as nat);
        let at_seal = state_after(started, collected);
        assert(at_seal == (Run { phase: Phase::Synthesizing, next: 0, sealed: false, ..started }));
        let sealed = state_after(at_seal, seal);
        lemma_state_after_one(at_seal, Event::Sealed);
        let some = repeated(Event::Emitted, (n - 1) as nat);
        assert(emitted.drop_last() =~= some);
        lemma_emitting(sealed, (n - 1) as nat);
        lemma_state_after_concat(fresh, start, collected);
        lemma_state_after_concat(fresh, start + collected, seal);
        lemma_state_after_concat(fresh, start + collected + seal, emitted);
        lemma_state_after_concat(fresh, start + collected + seal, some);
        assert(script(units, preview).drop_last() =~= start + collected + seal + some);
        assert(script(units, preview).last() == Event::Emitted);
    }
}


/// The action with a unit emitted in the other way.
pub open spec fn other_way(action: Action) -> Action {
    match action {
        Action::Write { unit } => Action::Print { unit },
        Action::Print { unit } => Action::Write { unit },
        other => other,
    }
}

/// A preview differs from a run that writes in nothing but the way a unit
/// is emitted: the same events lead through the same states and call for
/// the same actions.
pub proof fn lemma_preview_differs_in_emission_only(run: Run, event: Event)
    requires
        !(event is Start),
    ensures
        transition(Run { preview: !run.preview, ..run }, event).0 == (Run {
            preview: !run.preview,
            ..transition(run, event).0
        }),
        transition(Run { preview: !run.preview, ..run }, event).1 == other_way(
            transition(run, event).1,
        ),
{
}

} // verus!
