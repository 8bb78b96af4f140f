//! The life cycle of a service node.

use vstd::prelude::*;

verus! {

/// State of a service node, in the order in which it goes through them.
#[derive(Debug, PartialEq, Eq, Structural, PartialOrd, Copy, Clone)]
pub enum NodeState {
    /// Idle.
    Idle,
    /// Initializing.
    Init,
    /// Starting.
    Start,
    /// Running.
    Run,
    /// Waiting for work to finish.
    Finishing,
    /// Finished, waiting to close.
    Finish,
    /// Closing.
    Closing,
    /// Closed.
    Closed,
    /// Lost (for the nodes a manager watches).
    NodeLost,
}

/// The position of a state in the life cycle.
pub open spec fn state_rank(s: NodeState) -> nat {
    match s {
        NodeState::Idle => 0,
        NodeState::Init => 1,
        NodeState::Start => 2,
        NodeState::Run => 3,
        NodeState::Finishing => 4,
        NodeState::Finish => 5,
        NodeState::Closing => 6,
        NodeState::Closed => 7,
        NodeState::NodeLost => 8,
    }
}

/// Whether a service loop runs another round: not once closed, and while
/// closing only as long as tasks are queued.
pub fn keep_running(state: NodeState, queue_empty: bool) -> (run: bool)
    ensures
        run == (state != NodeState::Closed && (state == NodeState::Closing ==> !queue_empty)),
{
    match state {
        NodeState::Closed => false,
        NodeState::Closing => !queue_empty,
        _ => true,
    }
}

/// The state after a service is told to quit: closed, unless it is already
/// closed or further on.
pub fn quit_state(state: NodeState) -> (r: NodeState)
    ensures
        r == (if state_rank(state) < state_rank(NodeState::Closed) { NodeState::Closed } else { state }),
{
    match state {
        NodeState::Closed | NodeState::NodeLost => state,
        _ => NodeState::Closed,
    }
}

/// Most queued tasks that one round of a service loop runs.
pub const MAX_TASKS_PER_ROUND: usize = 4096;

/// Longest round, in milliseconds, after which the loop does not sleep.
pub const ROUND_SLEEP_LIMIT_MS: u128 = 60;

/// Whether a round of `cost_ms` milliseconds is followed by a short sleep.
pub fn sleep_after_round(cost_ms: u128) -> (sleep: bool)
    ensures
        sleep == (cost_ms <= ROUND_SLEEP_LIMIT_MS),
{
    cost_ms <= ROUND_SLEEP_LIMIT_MS
}

} // verus!
