use vstd::prelude::*;

verus! {

/// Seconds in one day: thresholds are given in days, ages in seconds.
pub const SECONDS_PER_DAY: i128 = 86400;

/// The health of a branch, derived from its age and the policy.
#[derive(Debug, Clone, Copy, PartialEq, Eq, Structural)]
pub enum HealthState {
    Healthy,
    Stale,
    PruneEligible,
}

/// The state that an age in seconds has under a threshold in days.
pub open spec fn state_for_age(age: int, threshold_days: int) -> HealthState {
    if age <= threshold_days * SECONDS_PER_DAY {
        HealthState::Healthy
    } else if age <= 2 * threshold_days * SECONDS_PER_DAY {
        HealthState::Stale
    } else {
        HealthState::PruneEligible
    }
}

/// Classifies an age in seconds against a threshold in days.
pub fn health_for_age(age: i128, threshold_days: u32) -> (r: HealthState)
    ensures
        r == state_for_age(age as int, threshold_days as int),
{
    let stale_after: i128 = threshold_days as i128 * SECONDS_PER_DAY;
    if age <= stale_after {
        HealthState::Healthy
    } else if age <= 2 * stale_after {
        HealthState::Stale
    } else {
        HealthState::PruneEligible
    }
}

/// Which branch references a run looks at.
#[derive(Debug, PartialEq, Eq)]
pub enum ScopeFilter {
    LocalOnly,
    SingleRemote(String),
    AllRemotesAndLocal,
}

impl ScopeFilter {
    /// A copy of this filter.
    pub fn duplicate(&self) -> (r: ScopeFilter)
        ensures
            r == *self,
    {
        match self {
            ScopeFilter::LocalOnly => ScopeFilter::LocalOnly,
            ScopeFilter::SingleRemote(name) => ScopeFilter::SingleRemote(name.clone()),
            ScopeFilter::AllRemotesAndLocal => ScopeFilter::AllRemotesAndLocal,
        }
    }
}

/// Whether `name` is one of `names`.
pub open spec fn contains_name(names: Seq<String>, name: Seq<char>) -> bool {
    exists|i: int| 0 <= i < names.len() && #[trigger] names[i]@ == name
}

/// Looks `name` up in `names`.
pub fn names_contain(names: &Vec<String>, name: &String) -> (r: bool)
    ensures
        r == contains_name(names@, name@),
{
    let mut i: usize = 0;
    while i < names.len()
        invariant
            i <= names@.len(),
            forall|j: int| 0 <= j < i ==> #[trigger] names@[j]@ != name@,
        decreases names@.len() - i,
    {
        if names[i] == *name {
            return true;
        }
        i = i + 1;
    }
    false
}

/// A copy of a list of names.
pub fn copy_names(names: &Vec<String>) -> (r: Vec<String>)
    ensures
        r@ == names@,
{
    let mut r: Vec<String> = Vec::new();
    let mut i: usize = 0;
    while i < names.len()
        invariant
            i <= names@.len(),
            r@ == names@.subrange(0, i as int),
        decreases names@.len() - i,
    {
        r.push(names[i].clone());
        i = i + 1;
        assert(r@ =~= names@.subrange(0, i as int));
    }
    assert(r@ =~= names@);
    r
}

/// The settings that classification and pruning follow during one run.
#[derive(Debug)]
pub struct Policy {
    /// Branches older than this many days are stale.
    pub threshold_days: u32,
    /// The mainline branch: never unhealthy, never pruned.
    pub trunk_name: String,
    /// Branches that are never unhealthy and never pruned.
    pub ignored_branches: Vec<String>,
    pub scope_filter: ScopeFilter,
}

impl Policy {
    pub fn new(
        threshold_days: u32,
        trunk_name: String,
        ignored_branches: Vec<String>,
        scope_filter: ScopeFilter,
    ) -> (r: Policy)
        requires
            threshold_days > 0,
        ensures
            r.threshold_days == threshold_days,
            r.trunk_name == trunk_name,
            r.ignored_branches == ignored_branches,
            r.scope_filter == scope_filter,
    {
        Policy { threshold_days, trunk_name, ignored_branches, scope_filter }
    }

    /// Branches older than this many days may be pruned.
    pub open spec fn prune_threshold(&self) -> int {
        2 * self.threshold_days
    }

    pub fn prune_threshold_days(&self) -> (r: u64)
        ensures
            r == self.prune_threshold(),
    {
        2 * self.threshold_days as u64
    }

    /// Whether a branch of this name is on the ignore list.
    pub open spec fn ignores(&self, name: Seq<char>) -> bool {
        contains_name(self.ignored_branches@, name)
    }

    pub fn is_ignored(&self, name: &String) -> (r: bool)
        ensures
            r == self.ignores(name@),
    {
        names_contain(&self.ignored_branches, name)
    }

    /// Whether a branch of this name is the trunk.
    pub open spec fn is_trunk_spec(&self, name: Seq<char>) -> bool {
        name == self.trunk_name@
    }

    pub fn is_trunk(&self, name: &String) -> (r: bool)
        ensures
            r == self.is_trunk_spec(name@),
    {
        *name == self.trunk_name
    }
}

} // verus!
