use vstd::prelude::*;

use crate::branch::Branch;
use crate::classify::{branch_state, states_of};
use crate::policy::{HealthState, Policy};

verus! {

/// Why a branch is kept.
#[derive(Debug, Clone, Copy, PartialEq, Eq, Structural)]
pub enum SkipReason {
    NotEligibleByAge,
    IsTrunk,
    IsIgnored,
    NotMergedIntoTrunk,
}

/// What the planner decides for one branch.
#[derive(Debug, Clone, Copy, PartialEq, Eq, Structural)]
pub enum Decision {
    Delete,
    Skip(SkipReason),
}

/// What became of a branch that was to be deleted.
#[derive(Debug, PartialEq, Eq)]
pub enum DeletionOutcome {
    Deleted,
    DeletionFailed(String),
}

/// The decision for branch `b` in state `state`: trunk first, then the ignore list,
/// then age, then merge status. Only a merged, prune-eligible branch that is neither
/// trunk nor ignored is deleted.
pub open spec fn decide(b: Branch, state: HealthState, policy: Policy) -> Decision {
    if policy.is_trunk_spec(b.name@) {
        Decision::Skip(SkipReason::IsTrunk)
    } else if policy.ignores(b.name@) {
        Decision::Skip(SkipReason::IsIgnored)
    } else if state != HealthState::PruneEligible {
        Decision::Skip(SkipReason::NotEligibleByAge)
    } else if !b.is_merged_into_trunk {
        Decision::Skip(SkipReason::NotMergedIntoTrunk)
    } else {
        Decision::Delete
    }
}

/// Decides what to do with one branch.
pub fn decide_branch(branch: &Branch, state: HealthState, policy: &Policy) -> (r: Decision)
    ensures
        r == decide(*branch, state, *policy),
{
    if policy.is_trunk(&branch.name) {
        Decision::Skip(SkipReason::IsTrunk)
    } else if policy.is_ignored(&branch.name) {
        Decision::Skip(SkipReason::IsIgnored)
    } else if state != HealthState::PruneEligible {
        Decision::Skip(SkipReason::NotEligibleByAge)
    } else if !branch.is_merged_into_trunk {
        Decision::Skip(SkipReason::NotMergedIntoTrunk)
    } else {
        Decision::Delete
    }
}

/// One line of a plan: a branch, its health and the decision taken for it.
#[derive(Debug, PartialEq, Eq)]
pub struct PlanEntry {
    pub branch: Branch,
    pub state: HealthState,
    pub decision: Decision,
}

/// The decisions for a set of branches, and the outcome of each deletion carried out.
#[derive(Debug)]
pub struct PrunePlan {
    entries: Vec<PlanEntry>,
    outcomes: Vec<Option<DeletionOutcome>>,
    delete_requested: bool,
}

impl PrunePlan {
    pub closed spec fn entries_spec(&self) -> Seq<PlanEntry> {
        self.entries@
    }

    pub closed spec fn outcomes_spec(&self) -> Seq<Option<DeletionOutcome>> {
        self.outcomes@
    }

    pub closed spec fn delete_requested_spec(&self) -> bool {
        self.delete_requested
    }

    /// One outcome slot per entry, and an outcome only for a deletion that was requested
    /// and decided.
    pub closed spec fn wf(&self) -> bool {
        &&& self.outcomes@.len() == self.entries@.len()
        &&& forall|i: int|
            0 <= i < self.entries@.len() && (#[trigger] self.outcomes@[i]) is Some
                ==> self.delete_requested && self.entries@[i].decision == Decision::Delete
    }

    /// `self` is the plan for `branches` in `states`, before any deletion was recorded.
    pub open spec fn is_plan_of(
        &self,
        branches: Seq<Branch>,
        states: Seq<HealthState>,
        policy: Policy,
        delete_requested: bool,
    ) -> bool {
        &&& self.wf()
        &&& self.delete_requested_spec() == delete_requested
        &&& self.entries_spec().len() == branches.len()
        &&& forall|i: int| 0 <= i < branches.len() ==> {
            &&& (#[trigger] self.entries_spec()[i]).branch == branches[i]
            &&& self.entries_spec()[i].state == states[i]
            &&& self.entries_spec()[i].decision == decide(branches[i], states[i], policy)
            &&& self.outcomes_spec()[i] is None
        }
    }

    pub fn len(&self) -> (r: usize)
        ensures
            r == self.entries_spec().len(),
    {
        self.entries.len()
    }

    pub fn entry(&self, i: usize) -> (r: &PlanEntry)
        requires
            i < self.entries_spec().len(),
        ensures
            *r == self.entries_spec()[i as int],
    {
        &self.entries[i]
    }

    pub fn outcome(&self, i: usize) -> (r: &Option<DeletionOutcome>)
        requires
            self.wf(),
            i < self.entries_spec().len(),
        ensures
            *r == self.outcomes_spec()[i as int],
    {
        &self.outcomes[i]
    }

    pub fn delete_requested(&self) -> (r: bool)
        ensures
            r == self.delete_requested_spec(),
    {
        self.delete_requested
    }

    /// The positions of the entries to delete, in order; none unless deletion was
    /// requested.
    pub fn deletion_targets(&self) -> (r: Vec<usize>)
        ensures
            !self.delete_requested_spec() ==> r@.len() == 0,
            forall|k: int| 0 <= k < r@.len() ==> {
                &&& #[trigger] r@[k] < self.entries_spec().len()
                &&& self.entries_spec()[r@[k] as int].decision == Decision::Delete
            },
            forall|k: int, l: int| 0 <= k < l < r@.len() ==> r@[k] < r@[l],
            self.delete_requested_spec() ==> forall|i: int|
                0 <= i < self.entries_spec().len()
                    && (#[trigger] self.entries_spec()[i]).decision == Decision::Delete
                    ==> exists|k: int| 0 <= k < r@.len() && r@[k] == i,
    {
        let mut r: Vec<usize> = Vec::new();
        if !self.delete_requested {
            return r;
        }
        let mut i: usize = 0;
        while i < self.entries.len()
            invariant
                i <= self.entries@.len(),
                forall|k: int| 0 <= k < r@.len() ==> {
                    &&& #[trigger] r@[k] < i
                    &&& self.entries@[r@[k] as int].decision == Decision::Delete
                },
                forall|k: int, l: int| 0 <= k < l < r@.len() ==> r@[k] < r@[l],
                forall|j: int|
                    0 <= j < i && (#[trigger] self.entries@[j]).decision == Decision::Delete
                        ==> exists|k: int| 0 <= k < r@.len() && r@[k] == j,
            decreases self.entries@.len() - i,
        {
            let ghost before = r@;
            if self.entries[i].decision == Decision::Delete {
                r.push(i);
            }
            assert forall|j: int|
                0 <= j <= i && (#[trigger] self.entries@[j]).decision == Decision::Delete
                implies exists|k: int| 0 <= k < r@.len() && r@[k] == j by {
                if j < i {
                    let k = choose|k: int| 0 <= k < before.len() && before[k] == j;
                    assert(r@[k] == j);
                } else {
                    assert(r@[r@.len() - 1] == j);
                }
            }
            i = i + 1;
        }
        r
    }

    /// The first entry still to be deleted: decided for deletion, with deletion requested
    /// and no outcome recorded yet. `None` once every such entry has its outcome.
    pub fn next_deletion(&self) -> (r: Option<usize>)
        requires
            self.wf(),
        ensures
            r is None <==> (!self.delete_requested_spec() || forall|i: int|
                0 <= i < self.entries_spec().len() && (#[trigger] self.entries_spec()[i]).decision
                    == Decision::Delete ==> self.outcomes_spec()[i] is Some),
            r is Some ==> {
                let i = r->0 as int;
                &&& self.delete_requested_spec()
                &&& i < self.entries_spec().len()
                &&& self.entries_spec()[i].decision == Decision::Delete
                &&& self.outcomes_spec()[i] is None
                &&& forall|j: int|
                    0 <= j < i && (#[trigger] self.entries_spec()[j]).decision == Decision::Delete
                        ==> self.outcomes_spec()[j] is Some
            },
    {
        if !self.delete_requested {
            return None;
        }
        let mut i: usize = 0;
        while i < self.entries.len()
            invariant
                self.wf(),
                self.delete_requested,
                i <= self.entries@.len(),
                forall|j: int|
                    0 <= j < i && (#[trigger] self.entries@[j]).decision == Decision::Delete
                        ==> self.outcomes@[j] is Some,
            decreases self.entries@.len() - i,
        {
            if self.entries[i].decision == Decision::Delete && self.outcomes[i].is_none() {
                return Some(i);
            }
            i = i + 1;
        }
        None
    }

    /// Records what came of deleting the branch at `index`; the decisions stay as they were.
    pub fn record_outcome(&mut self, index: usize, outcome: DeletionOutcome)
        requires
            old(self).wf(),
            index < old(self).entries_spec().len(),
            old(self).delete_requested_spec(),
            old(self).entries_spec()[index as int].decision == Decision::Delete,
        ensures
            final(self).wf(),
            final(self).entries_spec() == old(self).entries_spec(),
            final(self).delete_requested_spec() == old(self).delete_requested_spec(),
            final(self).outcomes_spec() == old(self).outcomes_spec().update(
                index as int,
                Some(outcome),
            ),
    {
        self.outcomes.set(index, Some(outcome));
    }
}

/// Plans the pruning of `branches`, whose health is `states`. The decisions do not
/// depend on `delete_requested`: a plan made without it shows what would be deleted.
pub fn plan(
    branches: &Vec<Branch>,
    states: &Vec<HealthState>,
    policy: &Policy,
    delete_requested: bool,
) -> (r: PrunePlan)
    requires
        states@.len() == branches@.len(),
    ensures
        r.is_plan_of(branches@, states@, *policy, delete_requested),
{
    let mut entries: Vec<PlanEntry> = Vec::new();
    let mut outcomes: Vec<Option<DeletionOutcome>> = Vec::new();
    let mut i: usize = 0;
    while i < branches.len()
        invariant
            i <= branches@.len(),
            states@.len() == branches@.len(),
            entries@.len() == i,
            outcomes@.len() == i,
            forall|j: int| 0 <= j < i ==> {
                &&& (#[trigger] entries@[j]).branch == branches@[j]
                &&& entries@[j].state == states@[j]
                &&& entries@[j].decision == decide(branches@[j], states@[j], *policy)
                &&& outcomes@[j] is None
            },
        decreases branches@.len() - i,
    {
        let decision = decide_branch(&branches[i], states[i], policy);
        entries.push(PlanEntry { branch: branches[i].duplicate(), state: states[i], decision });
        outcomes.push(None);
        i = i + 1;
    }
    PrunePlan { entries, outcomes, delete_requested }
}

/// Only a prune-eligible, merged branch that is neither the trunk nor ignored is ever
/// deleted, whatever the policy and whatever state the branch was given.
pub proof fn lemma_delete_is_safe(b: Branch, state: HealthState, policy: Policy)
    ensures
        decide(b, state, policy) == Decision::Delete ==> {
            &&& state == HealthState::PruneEligible
            &&& b.is_merged_into_trunk
            &&& b.name@ != policy.trunk_name@
            &&& !policy.ignores(b.name@)
        },
{
}

/// Planning any set of branches, for instance what is left after earlier deletions,
/// never deletes the trunk nor an ignored branch.
pub proof fn lemma_replan_keeps_trunk_and_ignored(
    p: PrunePlan,
    branches: Seq<Branch>,
    policy: Policy,
    now: int,
    delete_requested: bool,
)
    requires
        p.is_plan_of(
            branches,
            Seq::new(branches.len(), |i: int| branch_state(branches[i], policy, now)),
            policy,
            delete_requested,
        ),
    ensures
        forall|i: int|
            0 <= i < branches.len() && (#[trigger] p.entries_spec()[i]).decision
                == Decision::Delete ==> {
                &&& branch_state(branches[i], policy, now) == HealthState::PruneEligible
                &&& branches[i].is_merged_into_trunk
                &&& branches[i].name@ != policy.trunk_name@
                &&& !policy.ignores(branches[i].name@)
            },
{
}

/// Whether `p` holds, entry for entry, the branches `branches` classified under `policy`
/// at time `now` and decided upon, whatever outcomes were recorded since.
pub open spec fn decides_at(p: PrunePlan, branches: Seq<Branch>, policy: Policy, now: int) -> bool {
    &&& p.wf()
    &&& p.entries_spec().len() == branches.len()
    &&& forall|i: int| 0 <= i < branches.len() ==> {
        &&& (#[trigger] p.entries_spec()[i]).branch == branches[i]
        &&& p.entries_spec()[i].state == branch_state(branches[i], policy, now)
        &&& p.entries_spec()[i].decision == decide(branches[i], p.entries_spec()[i].state, policy)
    }
}

/// Whether the deletion of entry `i` of `p` failed.
pub open spec fn deletion_failed(p: PrunePlan, i: int) -> bool {
    p.outcomes_spec()[i] is Some && p.outcomes_spec()[i]->0 is DeletionFailed
}

/// Re-running after every deletion of a first plan has its outcome recommends nothing
/// new: planning again, with the same policy and time, on the branches that were not
/// deleted (`rest`, where `rest[j]` is entry `idx[j]` of the first plan) deletes exactly
/// the branches whose deletion failed.
pub proof fn lemma_replan_deletes_only_failed(
    first: PrunePlan,
    branches: Seq<Branch>,
    rest: Seq<Branch>,
    idx: Seq<int>,
    second: PrunePlan,
    policy: Policy,
    now: int,
    delete_requested: bool,
)
    requires
        decides_at(first, branches, policy, now),
        forall|i: int|
            0 <= i < branches.len() && (#[trigger] first.entries_spec()[i]).decision
                == Decision::Delete ==> first.outcomes_spec()[i] is Some,
        rest.len() == idx.len(),
        forall|j: int| 0 <= j < idx.len() ==> {
            &&& 0 <= #[trigger] idx[j] < branches.len()
            &&& rest[j] == branches[idx[j]]
            &&& first.outcomes_spec()[idx[j]] != Some(DeletionOutcome::Deleted)
        },
        forall|i: int|
            0 <= i < branches.len() && #[trigger] first.outcomes_spec()[i] != Some(
                DeletionOutcome::Deleted,
            ) ==> exists|j: int| 0 <= j < idx.len() && idx[j] == i,
        second.is_plan_of(rest, states_of(rest, policy, now), policy, delete_requested),
    ensures
        forall|j: int|
            0 <= j < rest.len() ==> ((#[trigger] second.entries_spec()[j]).decision
                == Decision::Delete <==> deletion_failed(first, idx[j])),
        forall|i: int|
            0 <= i < branches.len() && #[trigger] deletion_failed(first, i) ==> exists|j: int|
                0 <= j < rest.len() && idx[j] == i && second.entries_spec()[j].decision
                    == Decision::Delete,
{
    assert forall|j: int| 0 <= j < rest.len() implies ((#[trigger] second.entries_spec()[
        j
    ]).decision == Decision::Delete <==> deletion_failed(first, idx[j])) by {
        let i = idx[j];
        assert(first.entries_spec()[i].branch == branches[i]);
        assert(second.entries_spec()[j].decision == first.entries_spec()[i].decision);
    }
    assert forall|i: int| 0 <= i < branches.len() && #[trigger] deletion_failed(first, i)
        implies exists|j: int|
        0 <= j < rest.len() && idx[j] == i && second.entries_spec()[j].decision
            == Decision::Delete by {
        assert(first.outcomes_spec()[i] != Some(DeletionOutcome::Deleted));
        let j = choose|j: int| 0 <= j < idx.len() && idx[j] == i;
        assert(second.entries_spec()[j].decision == Decision::Delete <==> deletion_failed(
            first,
            idx[j],
        ));
    }
}

/// Plans made with and without a request to delete hold the same entries; an outcome is
/// only ever recorded for a deletion that was requested and decided.
pub proof fn lemma_delete_request_keeps_decisions(
    dry: PrunePlan,
    live: PrunePlan,
    branches: Seq<Branch>,
    states: Seq<HealthState>,
    policy: Policy,
)
    requires
        dry.is_plan_of(branches, states, policy, false),
        live.is_plan_of(branches, states, policy, true),
    ensures
        dry.entries_spec() == live.entries_spec(),
{
    assert(dry.entries_spec() =~= live.entries_spec());
}

/// In a well-formed plan, only entries decided for deletion carry an outcome, and only
/// when deletion was requested.
pub proof fn lemma_outcomes_only_on_deletions(p: PrunePlan, i: int)
    requires
        p.wf(),
        0 <= i < p.entries_spec().len(),
        p.outcomes_spec()[i] is Some,
    ensures
        p.delete_requested_spec(),
        p.entries_spec()[i].decision == Decision::Delete,
{
}

} // verus!
