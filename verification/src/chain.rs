//! The counters of a chain of threads.

use vstd::prelude::*;
use crate::context::StopPhase;

verus! {

/// The seconds of inactivity after which a chain starts anew.
pub const CHAIN_TIMEOUT_SECS: u64 = 300;

/// The counters of the current chain.
#[derive(Clone, Copy, Debug, PartialEq, Eq, Structural)]
pub struct ChainState {
    /// The number of iterations so far.
    pub iteration: u32,
    /// When the last iteration was counted, in seconds; 0 before the first one.
    pub last_iteration_secs: u64,
    /// The number of times a stop was verified.
    pub verification_count: u32,
    /// The number of model calls that failed in a row.
    pub llm_failure_count: u32,
}

/// The next value of a counter, which starts over behind its largest value.
pub open spec fn spec_next_count(count: u32) -> u32 {
    if count == u32::MAX {
        0
    } else {
        (count + 1) as u32
    }
}

fn next_count(count: u32) -> (r: u32)
    ensures
        r == spec_next_count(count),
{
    if count == u32::MAX {
        0
    } else {
        count + 1
    }
}

impl ChainState {
    /// A chain before its first iteration.
    pub fn new() -> (r: ChainState)
        ensures
            r == (ChainState {
                iteration: 0,
                last_iteration_secs: 0,
                verification_count: 0,
                llm_failure_count: 0,
            }),
    {
        ChainState {
            iteration: 0,
            last_iteration_secs: 0,
            verification_count: 0,
            llm_failure_count: 0,
        }
    }

    /// Whether a stop was asked for in this chain.
    pub fn stop_phase(&self) -> (r: StopPhase)
        ensures
            r == spec_stop_phase(self.verification_count as nat),
    {
        if self.verification_count == 0 {
            StopPhase::Working
        } else {
            StopPhase::PreStop
        }
    }
}

/// The phase that goes with a number of verifications.
pub open spec fn spec_stop_phase(verification_count: nat) -> StopPhase {
    if verification_count == 0 {
        StopPhase::Working
    } else {
        StopPhase::PreStop
    }
}

/// The chain with its counters at zero; when it last ran stays known.
pub open spec fn spec_reset(state: ChainState) -> ChainState {
    ChainState { iteration: 0, verification_count: 0, llm_failure_count: 0, ..state }
}

/// Sets the counters of a chain to zero.
pub fn reset_iteration(state: &mut ChainState)
    ensures
        *final(state) == spec_reset(*old(state)),
{
    state.iteration = 0;
    state.verification_count = 0;
    state.llm_failure_count = 0;
}

/// Counts a failed model call.
pub fn increment_llm_failure_count(state: &mut ChainState) -> (r: u32)
    ensures
        r == spec_next_count(old(state).llm_failure_count),
        *final(state) == (ChainState { llm_failure_count: r, ..*old(state) }),
{
    let count: u32 = next_count(state.llm_failure_count);
    state.llm_failure_count = count;
    count
}

/// Forgets the failed model calls.
pub fn reset_llm_failure_count(state: &mut ChainState)
    ensures
        *final(state) == (ChainState { llm_failure_count: 0, ..*old(state) }),
{
    state.llm_failure_count = 0;
}

/// Counts a verification of a stop.
pub fn increment_verification_count(state: &mut ChainState)
    ensures
        *final(state) == (ChainState {
            verification_count: spec_next_count(old(state).verification_count),
            ..*old(state)
        }),
{
    state.verification_count = next_count(state.verification_count);
}

/// The chain has been inactive for too long.
pub open spec fn spec_is_stale(state: ChainState, now: nat) -> bool {
    state.last_iteration_secs > 0 && now > state.last_iteration_secs + CHAIN_TIMEOUT_SECS
}

/// Counts an iteration at the time `now`, in seconds. A chain that was
/// inactive for too long starts anew.
pub fn get_iteration(state: &mut ChainState, now: u64) -> (r: u32)
    ensures
        r == if spec_is_stale(*old(state), now as nat) {
            1
        } else {
            spec_next_count(old(state).iteration)
        },
        *final(state) == (ChainState { iteration: r, last_iteration_secs: now, ..*old(state) }),
{
    let last: u64 = state.last_iteration_secs;
    if last > 0 && now > last && now - last > CHAIN_TIMEOUT_SECS {
        state.iteration = 0;
    }
    let iteration: u32 = next_count(state.iteration);
    state.iteration = iteration;
    state.last_iteration_secs = now;
    iteration
}

// ---------------------------------------------------------------------------
// Laws
// ---------------------------------------------------------------------------

/// A chain is stale exactly where it has run before and more than five minutes
/// have passed since.
pub proof fn law_chain_is_stale_after_five_minutes(state: ChainState, now: nat)
    ensures
        spec_is_stale(state, now) <==> state.last_iteration_secs != 0 && now
            - state.last_iteration_secs > 300,
{
}

/// A reset chain starts over, in the working phase; what else it holds stays.
pub proof fn law_reset_chain_starts_over(state: ChainState)
    ensures
        spec_reset(state).iteration == 0,
        spec_reset(state).verification_count == 0,
        spec_reset(state).llm_failure_count == 0,
        spec_reset(state).last_iteration_secs == state.last_iteration_secs,
        spec_stop_phase(spec_reset(state).verification_count as nat) == StopPhase::Working,
{
}

/// A chain works until its first verification, and verifies from then on.
pub proof fn law_first_verification_ends_the_working_phase(count: u32)
    requires
        count < u32::MAX,
    ensures
        spec_stop_phase(0) == StopPhase::Working,
        spec_next_count(count) == count + 1,
        spec_stop_phase(spec_next_count(count) as nat) == StopPhase::PreStop,
{
}

/// Each call counts the chain one iteration on and notes the time; after a break
/// of more than five minutes it counts from one again. Nothing else changes.
pub proof fn law_iterations_are_counted(state: &mut ChainState, now: u64, r: u32)
    requires
        call_ensures(get_iteration, (state, now), r),
        old(state).iteration < u32::MAX,
    ensures
        old(state).last_iteration_secs != 0 && now - old(state).last_iteration_secs > 300 ==> r
            == 1,
        old(state).last_iteration_secs == 0 || now - old(state).last_iteration_secs <= 300 ==> r
            == old(state).iteration + 1,
        final(state).iteration == r,
        final(state).last_iteration_secs == now,
        final(state).verification_count == old(state).verification_count,
        final(state).llm_failure_count == old(state).llm_failure_count,
{
}

/// A verification is counted, and a failed call likewise, without any other
/// change; forgetting the failed calls leaves the rest too.
pub proof fn law_counts_change_one_by_one(
    verified: &mut ChainState,
    failed: &mut ChainState,
    forgiven: &mut ChainState,
    r: u32,
)
    requires
        call_ensures(increment_verification_count, (verified,), ()),
        call_ensures(increment_llm_failure_count, (failed,), r),
        call_ensures(reset_llm_failure_count, (forgiven,), ()),
        old(verified).verification_count < u32::MAX,
        old(failed).llm_failure_count < u32::MAX,
    ensures
        *final(verified) == (ChainState {
            verification_count: (old(verified).verification_count + 1) as u32,
            ..*old(verified)
        }),
        r == old(failed).llm_failure_count + 1,
        *final(failed) == (ChainState { llm_failure_count: r, ..*old(failed) }),
        *final(forgiven) == (ChainState { llm_failure_count: 0, ..*old(forgiven) }),
{
}

/// A count that cannot grow starts from zero again.
pub proof fn law_largest_count_wraps_around(state: &mut ChainState, r: u32)
    requires
        call_ensures(increment_llm_failure_count, (state,), r),
        old(state).llm_failure_count == u32::MAX,
    ensures
        r == 0,
        final(state).llm_failure_count == 0,
{
}

} // verus!
