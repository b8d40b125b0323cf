use vstd::prelude::*;

use crate::text::same_text;

verus! {

/// Where a scan job stands in its life. The order is fixed:
/// `Pending` -> `InProgress` -> `Completed`, with `Failed` as the other
/// terminal state.
#[derive(Clone, Copy, Debug, PartialEq, Eq, Structural)]
pub enum JobStatus {
    Pending,
    InProgress,
    Completed,
    Failed,
}

impl JobStatus {
    /// Position of the status along the life of a job.
    pub open spec fn rank(self) -> nat {
        match self {
            JobStatus::Pending => 0,
            JobStatus::InProgress => 1,
            JobStatus::Completed => 2,
            JobStatus::Failed => 2,
        }
    }

    pub open spec fn is_terminal_spec(self) -> bool {
        self == JobStatus::Completed || self == JobStatus::Failed
    }

    /// A single legal step: one rank forward, never out of a terminal state.
    pub open spec fn can_step_to(self, next: JobStatus) -> bool {
        !self.is_terminal_spec() && next.rank() == self.rank() + 1
    }

    /// The name under which the status is stored.
    pub open spec fn name(self) -> Seq<char> {
        match self {
            JobStatus::Pending => "pending"@,
            JobStatus::InProgress => "in_progress"@,
            JobStatus::Completed => "completed"@,
            JobStatus::Failed => "failed"@,
        }
    }

    pub fn as_str(&self) -> (r: &'static str)
        ensures
            r@ == self.name(),
    {
        match self {
            JobStatus::Pending => "pending",
            JobStatus::InProgress => "in_progress",
            JobStatus::Completed => "completed",
            JobStatus::Failed => "failed",
        }
    }

    /// The status stored under `s`, if any.
    pub fn parse(s: &str) -> (r: Option<JobStatus>)
        ensures
            r matches Some(st) ==> st.name() == s@,
            r is None ==> forall|st: JobStatus| st.name() != s@,
    {
        if same_text(s, "pending") {
            Some(JobStatus::Pending)
        } else if same_text(s, "in_progress") {
            Some(JobStatus::InProgress)
        } else if same_text(s, "completed") {
            Some(JobStatus::Completed)
        } else if same_text(s, "failed") {
            Some(JobStatus::Failed)
        } else {
            None
        }
    }

    pub fn is_terminal(&self) -> (r: bool)
        ensures
            r == self.is_terminal_spec(),
    {
        matches!(self, JobStatus::Completed | JobStatus::Failed)
    }

    pub fn can_transition_to(&self, next: &JobStatus) -> (r: bool)
        ensures
            r == self.can_step_to(*next),
    {
        match (self, next) {
            (JobStatus::Pending, JobStatus::InProgress) => true,
            (JobStatus::InProgress, JobStatus::Completed) => true,
            (JobStatus::InProgress, JobStatus::Failed) => true,
            _ => false,
        }
    }
}

} // verus!
