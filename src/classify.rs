use vstd::prelude::*;

use crate::branch::Branch;
use crate::policy::{health_for_age, state_for_age, HealthState, Policy, SECONDS_PER_DAY};

verus! {

/// Age of a branch in seconds at time `now`: negative for a commit dated in the future.
pub open spec fn age_at(b: Branch, now: int) -> int {
    now - b.last_commit_time
}

/// The health of branch `b` under `policy` at time `now`.
pub open spec fn branch_state(b: Branch, policy: Policy, now: int) -> HealthState {
    if policy.is_trunk_spec(b.name@) || policy.ignores(b.name@) {
        HealthState::Healthy
    } else {
        state_for_age(age_at(b, now), policy.threshold_days as int)
    }
}

/// The health of each of `branches` under `policy` at time `now`.
pub open spec fn states_of(branches: Seq<Branch>, policy: Policy, now: int) -> Seq<HealthState> {
    Seq::new(branches.len(), |i: int| branch_state(branches[i], policy, now))
}

/// Classifies one branch: trunk and ignored branches are healthy at any age, every
/// other branch goes by its age.
pub fn classify_branch(branch: &Branch, policy: &Policy, now: i64) -> (r: HealthState)
    ensures
        r == branch_state(*branch, *policy, now as int),
{
    if policy.is_trunk(&branch.name) {
        HealthState::Healthy
    } else if policy.is_ignored(&branch.name) {
        HealthState::Healthy
    } else {
        let age: i128 = now as i128 - branch.last_commit_time as i128;
        health_for_age(age, policy.threshold_days)
    }
}

/// Classifies each branch, in order: the result at `i` is the health of `branches[i]`.
pub fn classify(branches: &Vec<Branch>, policy: &Policy, now: i64) -> (r: Vec<HealthState>)
    ensures
        r@.len() == branches@.len(),
        forall|i: int| 0 <= i < branches@.len()
            ==> #[trigger] r@[i] == branch_state(branches@[i], *policy, now as int),
{
    let mut r: Vec<HealthState> = Vec::new();
    let mut i: usize = 0;
    while i < branches.len()
        invariant
            i <= branches@.len(),
            r@.len() == i,
            forall|j: int| 0 <= j < i
                ==> #[trigger] r@[j] == branch_state(branches@[j], *policy, now as int),
        decreases branches@.len() - i,
    {
        let s = classify_branch(&branches[i], policy, now);
        r.push(s);
        i = i + 1;
    }
    r
}

/// The trunk and every ignored branch are healthy, whatever their age.
pub proof fn lemma_trunk_and_ignored_are_healthy(b: Branch, policy: Policy, now: int)
    requires
        b.name@ == policy.trunk_name@ || policy.ignores(b.name@),
    ensures
        branch_state(b, policy, now) == HealthState::Healthy,
{
}

/// A branch that is `a` whole days old is healthy up to the threshold, stale up to twice
/// the threshold, and prune-eligible beyond that.
pub proof fn lemma_age_bands(a: int, threshold_days: int)
    requires
        threshold_days > 0,
    ensures
        a <= threshold_days ==> state_for_age(a * SECONDS_PER_DAY, threshold_days)
            == HealthState::Healthy,
        threshold_days < a <= 2 * threshold_days ==> state_for_age(
            a * SECONDS_PER_DAY,
            threshold_days,
        ) == HealthState::Stale,
        a > 2 * threshold_days ==> state_for_age(a * SECONDS_PER_DAY, threshold_days)
            == HealthState::PruneEligible,
{
    assert(a <= threshold_days <==> a * 86400 <= threshold_days * 86400) by (nonlinear_arith);
    assert(a <= 2 * threshold_days <==> a * 86400 <= 2 * threshold_days * 86400)
        by (nonlinear_arith);
}

} // verus!
