//! The run/shutdown lifecycle shared by the long-lived managers.
use vstd::prelude::*;

verus! {

/// Where a manager stands in its lifecycle.
#[derive(Clone, Copy, Debug, PartialEq, Eq, Structural)]
pub enum LifecycleState {
    Initialized,
    Running,
    ShuttingDown,
    Shutdown,
}

/// The state after a request to run: only a freshly initialized manager
/// starts running; every other state ignores the request.
pub open spec fn after_run(s: LifecycleState) -> LifecycleState {
    if s == LifecycleState::Initialized {
        LifecycleState::Running
    } else {
        s
    }
}

/// The state after a request to shut down: a manager that is already shut
/// down stays so, and any other manager passes through `ShuttingDown` and
/// ends shut down.
pub open spec fn after_shutdown(s: LifecycleState) -> LifecycleState {
    LifecycleState::Shutdown
}

/// Shutting down twice is the same as shutting down once.
pub proof fn lemma_shutdown_idempotent(s: LifecycleState)
    ensures
        after_shutdown(after_shutdown(s)) == after_shutdown(s),
{
}

/// Running twice is the same as running once.
pub proof fn lemma_run_idempotent(s: LifecycleState)
    ensures
        after_run(after_run(s)) == after_run(s),
{
}

/// A manager that has been shut down never runs again.
pub proof fn lemma_no_run_after_shutdown(s: LifecycleState)
    ensures
        after_run(after_shutdown(s)) == LifecycleState::Shutdown,
{
}

} // verus!
