use vstd::prelude::*;

use crate::branch::{Branch, BranchScope};
use crate::policy::{contains_name, names_contain, Policy, ScopeFilter};

verus! {

/// A reason why a repository cannot be assessed.
#[derive(Debug, Clone, Copy, PartialEq, Eq, Structural)]
pub enum ReadError {
    /// The remote asked for is not configured in the repository.
    RemoteNotFound,
    /// No branch carries the trunk's name.
    TrunkNotFound,
}

/// Whether branch `b` falls under filter `f`.
pub open spec fn in_scope(b: Branch, f: ScopeFilter) -> bool {
    match f {
        ScopeFilter::LocalOnly => b.scope is Local,
        ScopeFilter::SingleRemote(remote) => match b.scope {
            BranchScope::Remote(r) => r@ == remote@,
            BranchScope::Local => false,
        },
        ScopeFilter::AllRemotesAndLocal => true,
    }
}

/// The branches of `s` that fall under `f`, in their order.
pub open spec fn scoped(s: Seq<Branch>, f: ScopeFilter) -> Seq<Branch>
    decreases s.len(),
{
    if s.len() == 0 {
        Seq::empty()
    } else if in_scope(s.last(), f) {
        scoped(s.drop_last(), f).push(s.last())
    } else {
        scoped(s.drop_last(), f)
    }
}

/// Whether some branch of `s` is named `name`.
pub open spec fn has_branch_named(s: Seq<Branch>, name: Seq<char>) -> bool {
    exists|i: int| 0 <= i < s.len() && #[trigger] s[i].name@ == name
}

/// The remote that `f` names and that `remotes` lacks, if any.
pub open spec fn missing_remote(f: ScopeFilter, remotes: Seq<String>) -> bool {
    match f {
        ScopeFilter::SingleRemote(remote) => !contains_name(remotes, remote@),
        _ => false,
    }
}

pub fn branch_in_scope(branch: &Branch, filter: &ScopeFilter) -> (r: bool)
    ensures
        r == in_scope(*branch, *filter),
{
    match filter {
        ScopeFilter::LocalOnly => match &branch.scope {
            BranchScope::Local => true,
            BranchScope::Remote(_) => false,
        },
        ScopeFilter::SingleRemote(remote) => match &branch.scope {
            BranchScope::Remote(r) => *r == *remote,
            BranchScope::Local => false,
        },
        ScopeFilter::AllRemotesAndLocal => true,
    }
}

/// Picks from every branch that was found (`all`) those that the policy's scope covers.
/// Fails when the scope names a remote outside `remotes`, or when no branch found is the
/// trunk.
pub fn select_branches(all: &Vec<Branch>, remotes: &Vec<String>, policy: &Policy) -> (r: Result<
    Vec<Branch>,
    ReadError,
>)
    ensures
        missing_remote(policy.scope_filter, remotes@) ==> r == Err::<Vec<Branch>, ReadError>(
            ReadError::RemoteNotFound,
        ),
        !missing_remote(policy.scope_filter, remotes@) && !has_branch_named(
            all@,
            policy.trunk_name@,
        ) ==> r == Err::<Vec<Branch>, ReadError>(ReadError::TrunkNotFound),
        r is Ok <==> !missing_remote(policy.scope_filter, remotes@) && has_branch_named(
            all@,
            policy.trunk_name@,
        ),
        r is Ok ==> r->Ok_0@ == scoped(all@, policy.scope_filter),
{
    if let ScopeFilter::SingleRemote(remote) = &policy.scope_filter {
        if !names_contain(remotes, remote) {
            return Err(ReadError::RemoteNotFound);
        }
    }
    let mut found_trunk = false;
    let mut selected: Vec<Branch> = Vec::new();
    let mut i: usize = 0;
    while i < all.len()
        invariant
            i <= all@.len(),
            found_trunk == has_branch_named(all@.subrange(0, i as int), policy.trunk_name@),
            selected@ == scoped(all@.subrange(0, i as int), policy.scope_filter),
        decreases all@.len() - i,
    {
        let ghost prefix = all@.subrange(0, i as int + 1);
        proof {
            assert(prefix.drop_last() =~= all@.subrange(0, i as int));
        }
        if policy.is_trunk(&all[i].name) {
            found_trunk = true;
            assert(prefix[i as int].name@ == policy.trunk_name@);
        }
        if branch_in_scope(&all[i], &policy.scope_filter) {
            selected.push(all[i].duplicate());
        }
        proof {
            if has_branch_named(prefix, policy.trunk_name@) && !found_trunk {
                let j = choose|j: int| 0 <= j < prefix.len() && #[trigger] prefix[j].name@
                    == policy.trunk_name@;
                assert(all@.subrange(0, i as int)[j].name@ == policy.trunk_name@);
            }
            if found_trunk && !has_branch_named(prefix, policy.trunk_name@) {
                if has_branch_named(all@.subrange(0, i as int), policy.trunk_name@) {
                    let j = choose|j: int| 0 <= j < i && #[trigger] all@.subrange(
                        0,
                        i as int,
                    )[j].name@ == policy.trunk_name@;
                    assert(prefix[j].name@ == policy.trunk_name@);
                }
            }
        }
        i = i + 1;
    }
    proof {
        assert(all@.subrange(0, all@.len() as int) =~= all@);
    }
    if !found_trunk {
        return Err(ReadError::TrunkNotFound);
    }
    Ok(selected)
}

} // verus!
