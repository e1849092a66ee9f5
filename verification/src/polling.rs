//! Waiting for something to happen on the chain: what to do after each look.

use vstd::prelude::*;

verus! {

/// What to do after a look at the chain.
#[derive(Debug, Clone, Copy, PartialEq, Eq, Structural)]
pub enum PollStep {
    /// What was waited for has happened.
    Succeed,
    /// It has not happened, and the time is up.
    GiveUp,
    /// It has not happened yet: wait for the interval and look again.
    Wait,
}

/// The step after a look: success where what was waited for has been reached, whatever the
/// time; else the end where the whole seconds that have passed are no fewer than the
/// timeout; else another wait.
pub open spec fn step_after(reached: bool, elapsed_secs: u64, timeout_secs: u64) -> PollStep {
    if reached {
        PollStep::Succeed
    } else if elapsed_secs >= timeout_secs {
        PollStep::GiveUp
    } else {
        PollStep::Wait
    }
}

/// Decides what to do after a look at the chain.
pub fn poll_step(reached: bool, elapsed_secs: u64, timeout_secs: u64) -> (step: PollStep)
    ensures
        step == step_after(reached, elapsed_secs, timeout_secs),
{
    if reached {
        PollStep::Succeed
    } else if elapsed_secs >= timeout_secs {
        PollStep::GiveUp
    } else {
        PollStep::Wait
    }
}

/// The height to wait for: `blocks` above `start_height`, and the greatest height there is
/// where that is beyond it.
pub fn target_height(start_height: u64, blocks: u64) -> (target: u64)
    ensures
        target == if start_height + blocks > u64::MAX {
            u64::MAX as int
        } else {
            start_height + blocks
        },
{
    start_height.saturating_add(blocks)
}

} // verus!
