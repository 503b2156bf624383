//! Scheduler pacing: the orchestration loop runs at full cadence while a
//! consumer is listening and backs off while none is.

use vstd::prelude::*;

verus! {

/// The two paced modes of the orchestration loop.
#[derive(Clone, Copy, PartialEq, Eq, Structural, Debug)]
pub enum PaceMode {
    /// A consumer is listening: sample at full cadence.
    Active,
    /// No consumer: skip sampling, only poll the consumer signal.
    Idle,
}

/// The single transition rule of the scheduler state machine: the next
/// mode depends only on the consumer count at the end of a tick.
pub fn next_pace(active_consumers: u64) -> (mode: PaceMode)
    ensures
        mode == (if active_consumers > 0 {
            PaceMode::Active
        } else {
            PaceMode::Idle
        }),
{
    if active_consumers > 0 {
        PaceMode::Active
    } else {
        PaceMode::Idle
    }
}

/// Once a consumer is present, the loop is back at full cadence after at
/// most one transition, whatever mode it was in before: the next mode
/// depends on the consumer count alone.
pub proof fn lemma_resume_within_one_tick(active_consumers: u64)
    requires
        active_consumers > 0,
    ensures
        next_pace_spec(active_consumers) == PaceMode::Active,
{
}

/// What `next_pace` returns, as a spec-level function.
pub open spec fn next_pace_spec(active_consumers: u64) -> PaceMode {
    if active_consumers > 0 {
        PaceMode::Active
    } else {
        PaceMode::Idle
    }
}

} // verus!
