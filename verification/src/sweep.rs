//! The decisions of a parameter sweep: which iteration runs next, and when
//! the sweep ends. The iterations run strictly one after the other; whoever
//! runs the sweep performs each and reports how it ended.

use vstd::prelude::*;
use crate::coordinator::JobError;

verus! {

/// Where a sweep stands between two iterations.
#[derive(Debug, Clone, Copy, PartialEq, Eq, Structural)]
pub enum SweepState {
    /// Nothing has run yet.
    Ready,
    /// The iteration of this index is running.
    Running(usize),
    /// Every iteration has run and completed.
    Succeeded,
    /// An iteration failed; none ran after it.
    Aborted,
}

/// A sweep of a fixed number of iterations.
#[derive(Debug, Clone, Copy, PartialEq, Eq, Structural)]
pub struct Sweep {
    pub state: SweepState,
    pub iterations: usize,
}

/// How one iteration ended.
#[derive(Debug, Clone)]
pub enum SweepEvent {
    /// The compute stage ran the program.
    Completed,
    /// The simulator refused or failed the program, in these words.
    SimulationError(String),
    /// The compute stage went away without a reply.
    HandoffLost,
}

/// What is to be done next.
#[derive(Debug, Clone)]
pub enum SweepAction {
    /// Run the iteration of this index.
    Run(usize),
    /// Answer that the sweep succeeded.
    Succeed,
    /// Answer with the error of the iteration that failed.
    Abort(JobError),
}

impl Sweep {
    /// A running sweep runs one of its iterations.
    pub open spec fn wf(self) -> bool {
        self.state matches SweepState::Running(iteration) ==> iteration < self.iterations
    }

    /// The state in which iteration `next` is due: running it, or succeeded
    /// where the sweep has no such iteration.
    pub open spec fn due(self, next: int) -> SweepState {
        if next < self.iterations {
            SweepState::Running(next as usize)
        } else {
            SweepState::Succeeded
        }
    }

    /// The state after `event` ends the iteration that is running. In any
    /// other state nothing is running, and the state stays.
    pub open spec fn after(self, event: SweepEvent) -> SweepState {
        match self.state {
            SweepState::Running(iteration) => match event {
                SweepEvent::Completed => self.due(iteration + 1),
                _ => SweepState::Aborted,
            },
            state => state,
        }
    }

    /// The state after the events, first to last, of a sweep that has been
    /// started.
    pub open spec fn after_all(self, events: Seq<SweepEvent>) -> SweepState
        decreases events.len(),
    {
        if events.len() == 0 {
            self.due(0)
        } else {
            (Sweep { state: self.after_all(events.drop_last()), iterations: self.iterations }).after(
                events.last(),
            )
        }
    }

    /// The action that a state asks for.
    pub open spec fn action_of(state: SweepState, event: SweepEvent) -> SweepAction {
        match state {
            SweepState::Running(iteration) => SweepAction::Run(iteration),
            SweepState::Aborted => match event {
                SweepEvent::SimulationError(words) => SweepAction::Abort(
                    JobError::SimulationFailure(words),
                ),
                _ => SweepAction::Abort(JobError::InternalHandoffFailure),
            },
            _ => SweepAction::Succeed,
        }
    }

    /// A sweep of the iterations that the request asks for, two where it
    /// names no number.
    pub fn new(iterations: Option<usize>) -> (sweep: Sweep)
        ensures
            sweep.state == SweepState::Ready,
            sweep.iterations == match iterations {
                Some(iterations) => iterations,
                None => 2,
            },
            sweep.wf(),
    {
        let iterations = match iterations {
            Some(iterations) => iterations,
            None => 2,
        };
        Sweep { state: SweepState::Ready, iterations }
    }

    /// Starts the sweep: the first iteration is to run, or the sweep has
    /// succeeded at once where it has none.
    pub fn start(&mut self) -> (action: SweepAction)
        requires
            old(self).state == SweepState::Ready,
        ensures
            final(self).iterations == old(self).iterations,
            final(self).state == old(self).due(0),
            final(self).wf(),
            action == if old(self).iterations > 0 {
                SweepAction::Run(0)
            } else {
                SweepAction::Succeed
            },
    {
        if self.iterations > 0 {
            self.state = SweepState::Running(0);
            SweepAction::Run(0)
        } else {
            self.state = SweepState::Succeeded;
            SweepAction::Succeed
        }
    }

    /// Takes note of how the running iteration ended. After a completed
    /// iteration the next one is to run, or the sweep has succeeded where it
    /// was the last. A failed iteration aborts the sweep with its error.
    pub fn advance(&mut self, event: SweepEvent) -> (action: SweepAction)
        requires
            old(self).wf(),
            old(self).state is Running,
        ensures
            final(self).iterations == old(self).iterations,
            final(self).state == old(self).after(event),
            final(self).wf(),
            action == Sweep::action_of(final(self).state, event),
    {
        let iteration = match self.state {
            SweepState::Running(iteration) => iteration,
            _ => 0,
        };
        match event {
            SweepEvent::Completed => {
                if iteration + 1 < self.iterations {
                    self.state = SweepState::Running(iteration + 1);
                    SweepAction::Run(iteration + 1)
                } else {
                    self.state = SweepState::Succeeded;
                    SweepAction::Succeed
                }
            },
            SweepEvent::SimulationError(words) => {
                self.state = SweepState::Aborted;
                SweepAction::Abort(JobError::SimulationFailure(words))
            },
            SweepEvent::HandoffLost => {
                self.state = SweepState::Aborted;
                SweepAction::Abort(JobError::InternalHandoffFailure)
            },
        }
    }
}

/// While every iteration completes, a sweep runs its iterations in order:
/// after `events.len()` completed iterations the next one is running, and
/// after the last the sweep has succeeded.
pub proof fn lemma_sweep_runs_in_order(sweep: Sweep, events: Seq<SweepEvent>)
    requires
        events.len() <= sweep.iterations,
        forall|i: int| 0 <= i < events.len() ==> #[trigger] events[i] is Completed,
    ensures
        sweep.after_all(events) == sweep.due(events.len() as int),
    decreases events.len(),
{
    if events.len() > 0 {
        lemma_sweep_runs_in_order(sweep, events.drop_last());
    }
}

/// The first iteration that fails aborts the sweep, and nothing that is
/// reported afterwards changes that.
pub proof fn lemma_sweep_stops_at_failure(sweep: Sweep, events: Seq<SweepEvent>, failed: int)
    requires
        0 <= failed < events.len(),
        failed < sweep.iterations,
        forall|i: int| 0 <= i < failed ==> #[trigger] events[i] is Completed,
        !(events[failed] is Completed),
    ensures
        sweep.after_all(events) == SweepState::Aborted,
    decreases events.len(),
{
    let earlier = events.drop_last();
    if failed == events.len() - 1 {
        lemma_sweep_runs_in_order(sweep, earlier);
    } else {
        lemma_sweep_stops_at_failure(sweep, earlier, failed);
    }
}

} // verus!
