use vstd::prelude::*;

verus! {

/// Where a branch reference lives.
#[derive(Debug, PartialEq, Eq)]
pub enum BranchScope {
    Local,
    Remote(String),
}

impl BranchScope {
    /// A copy of this scope.
    pub fn duplicate(&self) -> (r: BranchScope)
        ensures
            r == *self,
    {
        match self {
            BranchScope::Local => BranchScope::Local,
            BranchScope::Remote(name) => BranchScope::Remote(name.clone()),
        }
    }
}

/// One branch reference, as found when the repository was read.
#[derive(Debug, PartialEq, Eq)]
pub struct Branch {
    pub name: String,
    pub scope: BranchScope,
    /// Committer time of the tip commit, in seconds since the epoch.
    pub last_commit_time: i64,
    /// Whether every commit of the branch is contained in the trunk's history.
    pub is_merged_into_trunk: bool,
}

impl Branch {
    pub fn new(name: String, scope: BranchScope, last_commit_time: i64, is_merged_into_trunk: bool)
        -> (r: Branch)
        ensures
            r.name == name,
            r.scope == scope,
            r.last_commit_time == last_commit_time,
            r.is_merged_into_trunk == is_merged_into_trunk,
    {
        Branch { name, scope, last_commit_time, is_merged_into_trunk }
    }

    /// A copy of this branch record.
    pub fn duplicate(&self) -> (r: Branch)
        ensures
            r == *self,
    {
        Branch {
            name: self.name.clone(),
            scope: self.scope.duplicate(),
            last_commit_time: self.last_commit_time,
            is_merged_into_trunk: self.is_merged_into_trunk,
        }
    }
}

} // verus!
