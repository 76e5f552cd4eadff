//! Task records' enumerations: priority and request state.

use vstd::prelude::*;

verus! {

/// Priority of a task.
#[derive(Clone, Copy, Debug, PartialEq, Eq, Structural)]
pub enum TaskPriority {
    Low,
    Medium,
    High,
}

/// Review state of a task request.
#[derive(Clone, Copy, Debug, PartialEq, Eq, Structural)]
pub enum TaskRequestState {
    Received,
    Evaluation,
    Accepted,
    Rejected,
}

} // verus!
