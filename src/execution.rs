use vstd::prelude::*;

use crate::model::{Finding, FindingView};
use crate::probe::{
    outcome_views, probe_outcomes, probe_spec, ProbeOutcome, ProbeOutcomeView, PROBE_COUNT,
};
use crate::status::JobStatus;

verus! {

/// How a background execution ended.
#[derive(Clone, Copy, Debug, PartialEq, Eq, Structural)]
pub enum ExecOutcome {
    /// Every probe ran and the job was marked completed.
    Completed,
    /// The job could not be marked in progress; nothing else was done.
    Aborted,
    /// Every probe ran, but the job could not be marked completed.
    Stalled,
}

/// Where an execution stands.
#[derive(Clone, Copy, Debug, PartialEq, Eq, Structural)]
pub enum Step {
    /// The job is to be marked in progress.
    MarkInProgress,
    /// Probe `i`'s latency is to be waited out.
    Wait(usize),
    /// Probe `i`'s finding is to be stored.
    Record(usize),
    /// The job is to be marked completed.
    MarkCompleted,
    Finished(ExecOutcome),
}

/// What the execution asks its runner to do next. After doing it the runner
/// reports whether it went through.
#[derive(Debug)]
pub enum Action {
    SetStatus(JobStatus),
    Sleep(u64),
    Insert(Finding),
    Stop,
}

pub enum ActionView {
    SetStatus(JobStatus),
    Sleep(u64),
    Insert(FindingView),
    Stop,
}

impl View for Action {
    type V = ActionView;

    open spec fn view(&self) -> ActionView {
        match self {
            Action::SetStatus(s) => ActionView::SetStatus(*s),
            Action::Sleep(d) => ActionView::Sleep(*d),
            Action::Insert(f) => ActionView::Insert(f@),
            Action::Stop => ActionView::Stop,
        }
    }
}

/// The decisions of one background execution of a scan job: mark it in
/// progress, wait out and record each probe in turn, mark it completed.
/// A failed status write ends the execution; a failed finding write is
/// counted and the next probe goes on. Nothing is retried.
#[derive(Debug)]
pub struct Execution {
    scan_id: u128,
    outcomes: Vec<ProbeOutcome>,
    step: Step,
    dropped: usize,
}

pub struct ExecutionView {
    pub scan_id: u128,
    pub outcomes: Seq<ProbeOutcomeView>,
    pub step: Step,
    pub dropped: nat,
}

impl ExecutionView {
    pub open spec fn first_from(self, k: int) -> Step {
        if k < self.outcomes.len() {
            Step::Wait(k as usize)
        } else {
            Step::MarkCompleted
        }
    }

    /// How many probes are behind the execution.
    pub open spec fn progress(self) -> nat {
        match self.step {
            Step::MarkInProgress => 0,
            Step::Wait(i) => i as nat,
            Step::Record(i) => i as nat,
            _ => self.outcomes.len(),
        }
    }

    pub open spec fn wf(self) -> bool {
        &&& self.outcomes.len() < usize::MAX
        &&& self.dropped <= self.progress()
        &&& match self.step {
            Step::Wait(i) => i < self.outcomes.len(),
            Step::Record(i) => i < self.outcomes.len() && self.outcomes[i as int].finding is Some,
            Step::Finished(ExecOutcome::Aborted) => self.dropped == 0,
            _ => true,
        }
    }

    pub open spec fn action(self) -> ActionView {
        match self.step {
            Step::MarkInProgress => ActionView::SetStatus(JobStatus::InProgress),
            Step::Wait(i) => ActionView::Sleep(self.outcomes[i as int].delay_secs),
            Step::Record(i) => ActionView::Insert(self.outcomes[i as int].finding.unwrap()),
            Step::MarkCompleted => ActionView::SetStatus(JobStatus::Completed),
            Step::Finished(_) => ActionView::Stop,
        }
    }

    /// The execution after its current action went through (`ok`) or not.
    pub open spec fn next(self, ok: bool) -> ExecutionView {
        match self.step {
            Step::MarkInProgress => if ok {
                ExecutionView { step: self.first_from(0), ..self }
            } else {
                ExecutionView { step: Step::Finished(ExecOutcome::Aborted), ..self }
            },
            Step::Wait(i) => if self.outcomes[i as int].finding is Some {
                ExecutionView { step: Step::Record(i), ..self }
            } else {
                ExecutionView { step: self.first_from(i + 1), ..self }
            },
            Step::Record(i) => ExecutionView {
                step: self.first_from(i + 1),
                dropped: if ok {
                    self.dropped
                } else {
                    self.dropped + 1
                },
                ..self
            },
            Step::MarkCompleted => ExecutionView {
                step: Step::Finished(
                    if ok {
                        ExecOutcome::Completed
                    } else {
                        ExecOutcome::Stalled
                    },
                ),
                ..self
            },
            Step::Finished(_) => self,
        }
    }

    /// At most how many writes are still to be attempted.
    pub open spec fn writes_left(self) -> int {
        match self.step {
            Step::MarkInProgress => self.outcomes.len() + 2int,
            Step::Wait(i) => self.outcomes.len() - i + 1,
            Step::Record(i) => self.outcomes.len() - i + 1,
            Step::MarkCompleted => 1,
            Step::Finished(_) => 0,
        }
    }

    /// At most how many findings are still to be stored.
    pub open spec fn inserts_left(self) -> int {
        match self.step {
            Step::MarkInProgress => self.outcomes.len() as int,
            Step::Wait(i) => self.outcomes.len() - i,
            Step::Record(i) => self.outcomes.len() - i,
            _ => 0,
        }
    }

    /// Decreases with every step until the execution is finished.
    pub open spec fn measure(self) -> nat {
        match self.step {
            Step::MarkInProgress => 2 * self.outcomes.len() + 2,
            Step::Wait(i) => (2 * (self.outcomes.len() - i) + 1) as nat,
            Step::Record(i) => (2 * (self.outcomes.len() - i)) as nat,
            Step::MarkCompleted => 1,
            Step::Finished(_) => 0,
        }
    }
}

impl View for Execution {
    type V = ExecutionView;

    closed spec fn view(&self) -> ExecutionView {
        ExecutionView {
            scan_id: self.scan_id,
            outcomes: outcome_views(self.outcomes@),
            step: self.step,
            dropped: self.dropped as nat,
        }
    }
}

impl Execution {
    /// An execution of the job `scan_id` over the given probe outcomes.
    pub fn new(scan_id: u128, outcomes: Vec<ProbeOutcome>) -> (r: Execution)
        requires
            outcomes@.len() < usize::MAX,
        ensures
            r@.wf(),
            r@ == (ExecutionView {
                scan_id,
                outcomes: outcome_views(outcomes@),
                step: Step::MarkInProgress,
                dropped: 0,
            }),
    {
        Execution { scan_id, outcomes, step: Step::MarkInProgress, dropped: 0 }
    }

    /// An execution of the job `scan_id` that runs every probe against `target`.
    pub fn for_target(scan_id: u128, target: &str) -> (r: Execution)
        ensures
            r@.wf(),
            r@.scan_id == scan_id,
            r@.step == Step::MarkInProgress,
            r@.dropped == 0,
            r@.outcomes.len() == PROBE_COUNT,
            forall|i: int| 0 <= i < PROBE_COUNT ==> #[trigger] r@.outcomes[i] == probe_spec(i, target@),
    {
        let outcomes = probe_outcomes(target);
        let r = Execution::new(scan_id, outcomes);
        assert forall|i: int| 0 <= i < PROBE_COUNT implies #[trigger] r@.outcomes[i] == probe_spec(i, target@) by {
            assert(outcomes@[i]@ == probe_spec(i, target@));
        }
        r
    }

    pub fn scan_id(&self) -> (r: u128)
        ensures
            r == self@.scan_id,
    {
        self.scan_id
    }

    pub fn step(&self) -> (r: Step)
        ensures
            r == self@.step,
    {
        self.step
    }

    /// How many findings could not be stored so far.
    pub fn dropped(&self) -> (r: usize)
        ensures
            r == self@.dropped,
    {
        self.dropped
    }

    pub fn is_finished(&self) -> (r: bool)
        ensures
            r == (self@.step is Finished),
    {
        matches!(self.step, Step::Finished(_))
    }

    /// How the execution ended, once it has.
    pub fn outcome(&self) -> (r: Option<ExecOutcome>)
        ensures
            self@.step matches Step::Finished(o) ==> r == Some(o),
            !(self@.step is Finished) ==> r is None,
    {
        match self.step {
            Step::Finished(o) => Some(o),
            _ => None,
        }
    }

    fn first_from(&self, k: usize) -> (r: Step)
        requires
            k <= self@.outcomes.len(),
        ensures
            r == self@.first_from(k as int),
    {
        if k < self.outcomes.len() {
            Step::Wait(k)
        } else {
            Step::MarkCompleted
        }
    }

    /// What the runner is to do now.
    pub fn next_action(&self) -> (a: Action)
        requires
            self@.wf(),
        ensures
            a@ == self@.action(),
    {
        match self.step {
            Step::MarkInProgress => Action::SetStatus(JobStatus::InProgress),
            Step::Wait(i) => Action::Sleep(self.outcomes[i].delay_secs),
            Step::Record(i) => match &self.outcomes[i].finding {
                Some(f) => Action::Insert(f.copy()),
                None => Action::Stop,
            },
            Step::MarkCompleted => Action::SetStatus(JobStatus::Completed),
            Step::Finished(_) => Action::Stop,
        }
    }

    /// Moves on, given whether the current action went through.
    pub fn advance(&mut self, ok: bool)
        requires
            old(self)@.wf(),
        ensures
            final(self)@ == old(self)@.next(ok),
            final(self)@.wf(),
    {
        match self.step {
            Step::MarkInProgress => {
                if ok {
                    self.step = self.first_from(0);
                } else {
                    self.step = Step::Finished(ExecOutcome::Aborted);
                }
            },
            Step::Wait(i) => {
                if self.outcomes[i].finding.is_some() {
                    self.step = Step::Record(i);
                } else {
                    self.step = self.first_from(i + 1);
                }
            },
            Step::Record(i) => {
                if !ok {
                    self.dropped = self.dropped + 1;
                }
                self.step = self.first_from(i + 1);
            },
            Step::MarkCompleted => {
                if ok {
                    self.step = Step::Finished(ExecOutcome::Completed);
                } else {
                    self.step = Step::Finished(ExecOutcome::Stalled);
                }
            },
            Step::Finished(_) => {},
        }
    }
}

} // verus!
