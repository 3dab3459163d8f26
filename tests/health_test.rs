use gitbranchhealth::classify::classify_branch;
use gitbranchhealth::policy::health_for_age;
use gitbranchhealth::{
    classify, plan, Branch, BranchHealthApplication, BranchHealthConfig, BranchScope, Decision,
    DeletionOutcome, HealthState, LogLevel, Policy, ReadError, ScopeFilter, SkipReason,
};

const DAY: i64 = 86400;
const NOW: i64 = 1_700_000_000;

fn branch(name: &str, age_days: i64, merged: bool) -> Branch {
    Branch::new(name.to_string(), BranchScope::Local, NOW - age_days * DAY, merged)
}

fn policy(threshold: u32, ignored: &[&str]) -> Policy {
    Policy::new(
        threshold,
        "master".to_string(),
        ignored.iter().map(|s| s.to_string()).collect(),
        ScopeFilter::LocalOnly,
    )
}

fn outcome_of(b: Branch, p: &Policy) -> (HealthState, Decision) {
    let branches = vec![b];
    let states = classify(&branches, p, NOW);
    let dry = plan(&branches, &states, p, false);
    let e = dry.entry(0);
    (e.state, e.decision)
}

#[test]
fn scenario_a_young_branch_is_kept() {
    let p = policy(14, &["master"]);
    assert_eq!(
        outcome_of(branch("feat-x", 10, true), &p),
        (HealthState::Healthy, Decision::Skip(SkipReason::NotEligibleByAge))
    );
}

#[test]
fn scenario_b_stale_branch_is_kept() {
    let p = policy(14, &["master"]);
    assert_eq!(
        outcome_of(branch("feat-y", 20, true), &p),
        (HealthState::Stale, Decision::Skip(SkipReason::NotEligibleByAge))
    );
}

#[test]
fn scenario_c_old_merged_branch_is_deleted() {
    let p = policy(14, &["master"]);
    assert_eq!(outcome_of(branch("feat-z", 30, true), &p), (HealthState::PruneEligible, Decision::Delete));
}

#[test]
fn scenario_d_unmerged_branch_is_kept() {
    let p = policy(14, &["master"]);
    assert_eq!(
        outcome_of(branch("feat-z", 30, false), &p),
        (HealthState::PruneEligible, Decision::Skip(SkipReason::NotMergedIntoTrunk))
    );
}

#[test]
fn scenario_e_trunk_is_never_deleted() {
    let p = policy(14, &[]);
    assert_eq!(
        outcome_of(branch("master", 1000, true), &p),
        (HealthState::Healthy, Decision::Skip(SkipReason::IsTrunk))
    );
}

#[test]
fn ignored_branch_is_healthy_and_kept() {
    let p = policy(14, &["master", "release"]);
    assert_eq!(
        outcome_of(branch("release", 500, true), &p),
        (HealthState::Healthy, Decision::Skip(SkipReason::IsIgnored))
    );
}

#[test]
fn age_bands_at_their_edges() {
    let d = DAY as i128;
    assert_eq!(health_for_age(14 * d, 14), HealthState::Healthy);
    assert_eq!(health_for_age(14 * d + 1, 14), HealthState::Stale);
    assert_eq!(health_for_age(28 * d, 14), HealthState::Stale);
    assert_eq!(health_for_age(28 * d + 1, 14), HealthState::PruneEligible);
    assert_eq!(health_for_age(-5 * d, 14), HealthState::Healthy);
    assert_eq!(health_for_age(0, 1), HealthState::Healthy);
}

#[test]
fn trunk_and_ignored_healthy_at_any_age() {
    let p = policy(1, &["keep"]);
    for age in [0, 2, 3, 10_000] {
        assert_eq!(classify_branch(&branch("master", age, false), &p, NOW), HealthState::Healthy);
        assert_eq!(classify_branch(&branch("keep", age, false), &p, NOW), HealthState::Healthy);
    }
    assert_eq!(classify_branch(&branch("other", 3, false), &p, NOW), HealthState::PruneEligible);
}

fn sample() -> Vec<Branch> {
    vec![
        branch("master", 400, true),
        branch("feat-x", 10, true),
        branch("feat-y", 20, true),
        branch("feat-z", 30, true),
        branch("old-wip", 30, false),
        branch("release", 90, true),
        branch("gone", 60, true),
    ]
}

#[test]
fn delete_set_is_safe_and_replanning_keeps_trunk() {
    let p = policy(14, &["release"]);
    let branches = sample();
    let states = classify(&branches, &p, NOW);
    let first = plan(&branches, &states, &p, true);
    let mut rest = Vec::new();
    for i in 0..first.len() {
        let e = first.entry(i);
        if e.decision == Decision::Delete {
            assert_eq!(e.state, HealthState::PruneEligible);
            assert!(e.branch.is_merged_into_trunk);
            assert_ne!(e.branch.name, "master");
            assert_ne!(e.branch.name, "release");
        } else {
            rest.push(e.branch.duplicate());
        }
    }
    assert_eq!(first.deletion_targets(), vec![3, 6]);
    let states = classify(&rest, &p, NOW);
    let second = plan(&rest, &states, &p, true);
    assert!(second.deletion_targets().is_empty());
    assert_eq!(second.entry(0).decision, Decision::Skip(SkipReason::IsTrunk));
}

#[test]
fn delete_request_changes_no_decision() {
    let p = policy(14, &["release"]);
    let branches = sample();
    let states = classify(&branches, &p, NOW);
    let dry = plan(&branches, &states, &p, false);
    let mut live = plan(&branches, &states, &p, true);
    assert!(dry.deletion_targets().is_empty());
    let targets = live.deletion_targets();
    live.record_outcome(targets[0], DeletionOutcome::Deleted);
    live.record_outcome(targets[1], DeletionOutcome::DeletionFailed("ref already gone".to_string()));
    assert_eq!(dry.len(), live.len());
    for i in 0..dry.len() {
        assert_eq!(dry.entry(i), live.entry(i));
        assert_eq!(dry.outcome(i), &None);
        if live.entry(i).decision != Decision::Delete {
            assert_eq!(live.outcome(i), &None);
        }
    }
    assert_eq!(live.outcome(3), &Some(DeletionOutcome::Deleted));
    assert_eq!(live.outcome(6), &Some(DeletionOutcome::DeletionFailed("ref already gone".to_string())));
    assert!(live.delete_requested());
    assert!(!dry.delete_requested());
}

fn remote(name: &str, remote: &str, age_days: i64) -> Branch {
    Branch::new(name.to_string(), BranchScope::Remote(remote.to_string()), NOW - age_days * DAY, true)
}

fn app(remote_name: &str, all: bool, delete: bool) -> BranchHealthApplication {
    let mut config = BranchHealthConfig::init_with_options(
        ".".to_string(),
        remote_name.to_string(),
        14,
        false,
        false,
        "master".to_string(),
        delete,
        LogLevel::Error,
    );
    config.all_remotes = all;
    BranchHealthApplication::new(config)
}

fn found() -> Vec<Branch> {
    vec![
        branch("master", 5, true),
        branch("feat-z", 30, true),
        remote("origin/old", "origin", 40),
        remote("upstream/old", "upstream", 40),
    ]
}

#[test]
fn assess_local_only() {
    let remotes = vec!["origin".to_string(), "upstream".to_string()];
    let p = app("", false, true).assess(&found(), &remotes, NOW).unwrap();
    assert_eq!(p.len(), 2);
    assert_eq!(p.entry(1).branch.name, "feat-z");
    assert_eq!(p.deletion_targets(), vec![1]);
}

#[test]
fn assess_single_remote() {
    let remotes = vec!["origin".to_string(), "upstream".to_string()];
    let p = app("origin", false, false).assess(&found(), &remotes, NOW).unwrap();
    assert_eq!(p.len(), 1);
    assert_eq!(p.entry(0).branch.name, "origin/old");
    assert_eq!(p.entry(0).decision, Decision::Delete);
    assert!(p.deletion_targets().is_empty());
}

#[test]
fn assess_all_remotes() {
    let remotes = vec!["origin".to_string(), "upstream".to_string()];
    let p = app("", true, true).assess(&found(), &remotes, NOW).unwrap();
    assert_eq!(p.len(), 4);
    assert_eq!(p.deletion_targets(), vec![1, 2, 3]);
}

#[test]
fn assess_unknown_remote() {
    let remotes = vec!["origin".to_string()];
    assert_eq!(app("fork", false, false).assess(&found(), &remotes, NOW).unwrap_err(), ReadError::RemoteNotFound);
}

#[test]
fn assess_without_trunk() {
    let remotes = vec!["origin".to_string()];
    let branches = vec![branch("feat-z", 30, true)];
    assert_eq!(app("", false, false).assess(&branches, &remotes, NOW).unwrap_err(), ReadError::TrunkNotFound);
}

#[test]
fn deletions_proceed_past_a_failure() {
    let p = policy(14, &["release"]);
    let branches = sample();
    let states = classify(&branches, &p, NOW);
    let dry = plan(&branches, &states, &p, false);
    assert_eq!(dry.next_deletion(), None);
    let mut live = plan(&branches, &states, &p, true);
    assert_eq!(live.next_deletion(), Some(3));
    live.record_outcome(3, DeletionOutcome::DeletionFailed("permission denied".to_string()));
    assert_eq!(live.next_deletion(), Some(6));
    live.record_outcome(6, DeletionOutcome::Deleted);
    assert_eq!(live.next_deletion(), None);
}

#[test]
fn empty_remote_is_not_found() {
    let mut a = app("", false, false);
    a.config.remote_given = true;
    let remotes = vec!["origin".to_string()];
    assert_eq!(a.assess(&found(), &remotes, NOW).unwrap_err(), ReadError::RemoteNotFound);
}

#[test]
fn replanning_deletes_only_failed_branches() {
    let p = policy(14, &["release"]);
    let branches = sample();
    let states = classify(&branches, &p, NOW);
    let mut first = plan(&branches, &states, &p, true);
    first.record_outcome(3, DeletionOutcome::Deleted);
    first.record_outcome(6, DeletionOutcome::DeletionFailed("permission denied".to_string()));
    assert_eq!(first.next_deletion(), None);
    let mut rest = Vec::new();
    for i in 0..first.len() {
        if first.outcome(i) != &Some(DeletionOutcome::Deleted) {
            rest.push(first.entry(i).branch.duplicate());
        }
    }
    let states = classify(&rest, &p, NOW);
    let second = plan(&rest, &states, &p, true);
    assert_eq!(second.len(), 6);
    assert_eq!(second.deletion_targets(), vec![5]);
    assert_eq!(second.entry(5).branch.name, "gone");
}
