use vstd::prelude::*;

use crate::branch::Branch;
use crate::classify::{age_at, branch_state, classify, states_of};
use crate::config::BranchHealthConfig;
use crate::plan::{decide, plan, PrunePlan};
use crate::policy::{contains_name, HealthState, Policy, SECONDS_PER_DAY};
use crate::scope::{has_branch_named, missing_remote, scoped, select_branches, ReadError};

verus! {

/// Two policies with the same threshold, trunk and ignore list rule alike on every branch.
proof fn lemma_same_rules(p: Policy, q: Policy)
    requires
        p.threshold_days == q.threshold_days,
        p.trunk_name@ == q.trunk_name@,
        p.ignored_branches@ == q.ignored_branches@,
    ensures
        forall|b: Branch, now: int| #[trigger] branch_state(b, p, now) == branch_state(b, q, now),
        forall|b: Branch, s: HealthState| #[trigger] decide(b, s, p) == decide(b, s, q),
{
}

/// Under the policy of any settings with a positive threshold, the trunk and the ignored
/// branches are healthy at every age; any other branch is healthy up to the threshold,
/// stale up to twice the threshold and prune-eligible beyond.
pub proof fn lemma_config_policy_classifies(c: BranchHealthConfig, b: Branch, now: int)
    requires
        c.num_days > 0,
    ensures
        ({
            let state = branch_state(b, c.policy_spec(), now);
            let protected = b.name@ == c.trunk_branch@ || contains_name(
                c.ignored_branches@,
                b.name@,
            );
            let days = c.num_days as int;
            &&& protected ==> state == HealthState::Healthy
            &&& !protected && age_at(b, now) <= days * SECONDS_PER_DAY ==> state
                == HealthState::Healthy
            &&& !protected && days * SECONDS_PER_DAY < age_at(b, now) <= 2 * days
                * SECONDS_PER_DAY ==> state == HealthState::Stale
            &&& !protected && age_at(b, now) > 2 * days * SECONDS_PER_DAY ==> state
                == HealthState::PruneEligible
        }),
{
}

/// The tool, set up for one run.
#[derive(Debug)]
pub struct BranchHealthApplication {
    pub config: BranchHealthConfig,
}

impl BranchHealthApplication {
    pub fn new(config: BranchHealthConfig) -> (r: BranchHealthApplication)
        ensures
            r.config == config,
    {
        BranchHealthApplication { config }
    }

    /// Assesses the branches found in a repository (`all`, with the repository's
    /// `remotes`) at time `now`: selects those in scope, classifies them and plans their
    /// pruning.
    pub fn assess(&self, all: &Vec<Branch>, remotes: &Vec<String>, now: i64) -> (r: Result<
        PrunePlan,
        ReadError,
    >)
        requires
            self.config.num_days > 0,
        ensures
            ({
                let policy = self.config.policy_spec();
                let selected = scoped(all@, policy.scope_filter);
                &&& missing_remote(policy.scope_filter, remotes@) ==> r is Err && r->Err_0
                    == ReadError::RemoteNotFound
                &&& !missing_remote(policy.scope_filter, remotes@) && !has_branch_named(
                    all@,
                    policy.trunk_name@,
                ) ==> r is Err && r->Err_0 == ReadError::TrunkNotFound
                &&& r is Ok <==> !missing_remote(policy.scope_filter, remotes@)
                    && has_branch_named(all@, policy.trunk_name@)
                &&& r is Ok ==> r->Ok_0.is_plan_of(
                    selected,
                    states_of(selected, policy, now as int),
                    policy,
                    self.config.delete_old_branches,
                )
            }),
    {
        let policy = self.config.policy();
        proof {
            lemma_same_rules(policy, self.config.policy_spec());
        }
        let selected = match select_branches(all, remotes, &policy) {
            Ok(s) => s,
            Err(e) => return Err(e),
        };
        let states = classify(&selected, &policy, now);
        let p = plan(&selected, &states, &policy, self.config.delete_old_branches);
        proof {
            let spec_policy = self.config.policy_spec();
            assert(states@ =~= states_of(selected@, spec_policy, now as int));
        }
        Ok(p)
    }
}

} // verus!
