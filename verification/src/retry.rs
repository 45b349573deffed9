//! The busy-state retry policy: before mutating a resource whose parent
//! process may be busy, the caller polls the parent's state and asks this
//! module what to do next. The caller performs the sleep and the re-fetch;
//! the decision itself is pure.

use vstd::prelude::*;
use crate::strutil::str_eq;

verus! {

/// How long the caller waits between two polls of a busy parent.
pub const RETRY_INTERVAL_SECONDS: u64 = 60;

/// The readiness of the parent process (environment or pipeline) of a
/// resource about to be mutated, re-fetched fresh on every poll.
#[derive(Clone, Copy, Debug, PartialEq, Eq, Structural)]
pub enum ParentState {
    Ready,
    Busy,
}

/// What the caller does after one poll: mutate now, sleep a fixed interval
/// and poll again, or record the item as skipped and move on.
#[derive(Clone, Copy, Debug, PartialEq, Eq, Structural)]
pub enum BusyDirective {
    Proceed,
    SleepRetry,
    SkipItem,
}

/// The retry policy: ready means proceed; busy means sleep and re-poll,
/// unless CI mode forbids waiting, in which case the item is skipped once
/// and the run moves on.
pub open spec fn spec_busy_step(state: ParentState, ci_mode: bool) -> BusyDirective {
    match state {
        ParentState::Ready => BusyDirective::Proceed,
        ParentState::Busy => if ci_mode {
            BusyDirective::SkipItem
        } else {
            BusyDirective::SleepRetry
        },
    }
}

/// Applies the retry policy to one fresh poll of the parent's state.
pub fn busy_step(state: ParentState, ci_mode: bool) -> (d: BusyDirective)
    ensures
        d == spec_busy_step(state, ci_mode),
{
    match state {
        ParentState::Ready => BusyDirective::Proceed,
        ParentState::Busy => if ci_mode {
            BusyDirective::SkipItem
        } else {
            BusyDirective::SleepRetry
        },
    }
}

/// In CI mode the policy never asks the caller to sleep: a busy item is
/// recorded as skipped on its first poll and the run moves on.
pub proof fn lemma_ci_mode_never_sleeps(state: ParentState)
    ensures
        spec_busy_step(state, true) != BusyDirective::SleepRetry,
        state == ParentState::Busy ==> spec_busy_step(state, true) == BusyDirective::SkipItem,
{
}

/// Reads an environment's readiness from its reported status: it is busy
/// exactly while the status is `updating`.
pub fn environment_parent_state(status: &str) -> (s: ParentState)
    ensures
        s == (if status@ == "updating"@ {
            ParentState::Busy
        } else {
            ParentState::Ready
        }),
{
    if str_eq(status, "updating") {
        ParentState::Busy
    } else {
        ParentState::Ready
    }
}

/// Reads a pipeline's readiness from its reported status: it is busy
/// exactly while the status is `BUSY`.
pub fn pipeline_parent_state(status: &str) -> (s: ParentState)
    ensures
        s == (if status@ == "BUSY"@ {
            ParentState::Busy
        } else {
            ParentState::Ready
        }),
{
    if str_eq(status, "BUSY") {
        ParentState::Busy
    } else {
        ParentState::Ready
    }
}

} // verus!
