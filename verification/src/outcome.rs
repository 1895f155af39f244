use vstd::prelude::*;

verus! {

/// The cleanup operations that may fail without failing the run.
#[derive(Clone, Copy, Debug, PartialEq, Eq, Structural)]
pub enum CleanupOp {
    /// Listing the volumes attached to an instance.
    ListVolumes,
    /// Deleting a volume.
    DeleteVolume,
    /// Deleting a security group.
    DeleteSecurityGroup,
}

/// Note of one cleanup operation that the provider rejected: the operation,
/// the resource it was aimed at (for `ListVolumes`, the instance), and the
/// provider's reason.
#[derive(Clone, Debug, PartialEq, Eq)]
pub struct CleanupFailure {
    pub op: CleanupOp,
    pub target: String,
    pub reason: String,
}

pub struct CleanupFailureView {
    pub op: CleanupOp,
    pub target: Seq<char>,
    pub reason: Seq<char>,
}

impl DeepView for CleanupFailure {
    type V = CleanupFailureView;

    open spec fn deep_view(&self) -> CleanupFailureView {
        CleanupFailureView { op: self.op, target: self.target@, reason: self.reason@ }
    }
}

/// Result of a run that was not aborted: the instances confirmed in their
/// terminal state (and cleaned up after), those still outstanding when the
/// wait ended, and the cleanup operations that failed.
#[derive(Clone, Debug, PartialEq, Eq)]
pub struct RunOutcome {
    pub processed: Vec<String>,
    pub outstanding: Vec<String>,
    pub failures: Vec<CleanupFailure>,
}

pub struct RunOutcomeView {
    pub processed: Seq<Seq<char>>,
    pub outstanding: Seq<Seq<char>>,
    pub failures: Seq<CleanupFailureView>,
}

impl DeepView for RunOutcome {
    type V = RunOutcomeView;

    open spec fn deep_view(&self) -> RunOutcomeView {
        RunOutcomeView {
            processed: self.processed.deep_view(),
            outstanding: self.outstanding.deep_view(),
            failures: self.failures.deep_view(),
        }
    }
}

/// Why a run was aborted. Each variant but the last carries the provider's
/// message.
#[derive(Clone, Debug, PartialEq, Eq)]
pub enum RunError {
    /// The first inventory query of the run failed; nothing was changed.
    Discovery(String),
    /// The provider rejected the batched transition request.
    Transition(String),
    /// An inventory query failed while waiting for the transition.
    Polling(String),
    /// An event arrived that does not answer the action that was asked for.
    Protocol,
}

pub enum RunErrorView {
    Discovery(Seq<char>),
    Transition(Seq<char>),
    Polling(Seq<char>),
    Protocol,
}

impl DeepView for RunError {
    type V = RunErrorView;

    open spec fn deep_view(&self) -> RunErrorView {
        match self {
            RunError::Discovery(reason) => RunErrorView::Discovery(reason@),
            RunError::Transition(reason) => RunErrorView::Transition(reason@),
            RunError::Polling(reason) => RunErrorView::Polling(reason@),
            RunError::Protocol => RunErrorView::Protocol,
        }
    }
}

} // verus!
