use gitbranchhealth::config::{parse_days, split_names};
use gitbranchhealth::{BranchHealthConfig, CommandLine, ConfigError, LogLevel, ScopeFilter};

#[test]
fn it_should_log_correctly() {
    let config: BranchHealthConfig = BranchHealthConfig::init_with_options(
        ".".to_string(),
        "origin".to_string(),
        14,
        false,
        false,
        "master".to_string(),
        false,
        LogLevel::Warn,
    );
    // "This should not be logged" is an info message; "This should be logged" a warning.
    assert!(!config.log_level.permits(LogLevel::Info));
    assert!(config.log_level.permits(LogLevel::Warn));
    assert_eq!(config.log_level.name(), "warn");
    assert_eq!(config.num_days, 14);
    assert_eq!(config.scope_filter(), ScopeFilter::SingleRemote("origin".to_string()));
}

fn args(num_days: &str) -> CommandLine {
    CommandLine {
        verbosity: 0,
        num_days: num_days.to_string(),
        bad_only: false,
        no_color: false,
        repository_path: ".".to_string(),
        delete: false,
        ignore_branches: "master".to_string(),
        trunk: "master".to_string(),
        remote: None,
        all_remotes: false,
    }
}

#[test]
fn verbosity_saturates_at_trace() {
    assert_eq!(LogLevel::from_verbosity(0), LogLevel::Error);
    assert_eq!(LogLevel::from_verbosity(1), LogLevel::Warn);
    assert_eq!(LogLevel::from_verbosity(2), LogLevel::Info);
    assert_eq!(LogLevel::from_verbosity(3), LogLevel::Debug);
    assert_eq!(LogLevel::from_verbosity(4), LogLevel::Trace);
    assert_eq!(LogLevel::from_verbosity(17), LogLevel::Trace);
    assert_eq!(LogLevel::from_verbosity(u64::MAX).name(), "trace");
}

#[test]
fn parses_days() {
    assert_eq!(parse_days("14"), Some(14));
    assert_eq!(parse_days("0"), Some(0));
    assert_eq!(parse_days("4294967295"), Some(4294967295));
    assert_eq!(parse_days("4294967296"), None);
    assert_eq!(parse_days("99999999999x"), None);
    assert_eq!(parse_days(""), None);
    assert_eq!(parse_days("1a"), None);
    assert_eq!(parse_days("-3"), None);
}

#[test]
fn splits_ignore_list() {
    assert_eq!(split_names("master"), vec!["master".to_string()]);
    assert_eq!(
        split_names("master,develop,release"),
        vec!["master".to_string(), "develop".to_string(), "release".to_string()]
    );
    assert_eq!(split_names(""), vec!["".to_string()]);
    assert_eq!(split_names("a,,b,"), vec!["a".to_string(), "".to_string(), "b".to_string(), "".to_string()]);
}

#[test]
fn command_line_defaults_give_config() {
    let mut a = args("14");
    a.verbosity = 2;
    a.ignore_branches = "master,develop".to_string();
    let config = BranchHealthConfig::new(a).unwrap();
    assert_eq!(config.num_days, 14);
    assert_eq!(config.log_level, LogLevel::Info);
    assert_eq!(config.ignored_branches, vec!["master".to_string(), "develop".to_string()]);
    assert_eq!(config.remote_name, "");
    assert_eq!(config.scope_filter(), ScopeFilter::LocalOnly);
    let policy = config.policy();
    assert_eq!(policy.threshold_days, 14);
    assert_eq!(policy.prune_threshold_days(), 28);
    assert_eq!(policy.trunk_name, "master");
}

#[test]
fn non_numeric_days_rejected() {
    assert_eq!(BranchHealthConfig::new(args("two weeks")).unwrap_err(), ConfigError::InvalidNumDays);
    assert_eq!(BranchHealthConfig::new(args("0")).unwrap_err(), ConfigError::InvalidNumDays);
    assert_eq!(BranchHealthConfig::new(args("")).unwrap_err(), ConfigError::InvalidNumDays);
}

#[test]
fn remote_and_all_remotes_conflict() {
    let mut a = args("14");
    a.remote = Some("origin".to_string());
    a.all_remotes = true;
    assert_eq!(BranchHealthConfig::new(a).unwrap_err(), ConfigError::ConflictingRemotes);
    let mut b = args("x");
    b.remote = Some("origin".to_string());
    b.all_remotes = true;
    assert_eq!(BranchHealthConfig::new(b).unwrap_err(), ConfigError::InvalidNumDays);
}

#[test]
fn remote_choices_set_scope() {
    let mut a = args("7");
    a.remote = Some("upstream".to_string());
    let c = BranchHealthConfig::new(a).unwrap();
    assert_eq!(c.scope_filter(), ScopeFilter::SingleRemote("upstream".to_string()));
    let mut b = args("7");
    b.all_remotes = true;
    let c = BranchHealthConfig::new(b).unwrap();
    assert_eq!(c.scope_filter(), ScopeFilter::AllRemotesAndLocal);
}

#[test]
fn days_take_a_leading_plus() {
    assert_eq!(parse_days("+14"), Some(14));
    assert_eq!(parse_days("+0"), Some(0));
    assert_eq!(parse_days("+"), None);
    assert_eq!(parse_days("++1"), None);
    assert_eq!(parse_days("+-1"), None);
    assert_eq!(parse_days("1+"), None);
    assert_eq!(parse_days("+4294967296"), None);
    assert_eq!(BranchHealthConfig::new(args("+14")).unwrap().num_days, 14);
    assert_eq!(BranchHealthConfig::new(args("+0")).unwrap_err(), ConfigError::InvalidNumDays);
    assert_eq!(BranchHealthConfig::new(args("+")).unwrap_err(), ConfigError::InvalidNumDays);
}

#[test]
fn empty_remote_name_still_names_a_remote() {
    let mut a = args("14");
    a.remote = Some("".to_string());
    let c = BranchHealthConfig::new(a).unwrap();
    assert!(c.remote_given);
    assert_eq!(c.scope_filter(), ScopeFilter::SingleRemote("".to_string()));
    let c = BranchHealthConfig::new(args("14")).unwrap();
    assert!(!c.remote_given);
    assert_eq!(c.scope_filter(), ScopeFilter::LocalOnly);
    let c = BranchHealthConfig::init_with_options(
        ".".to_string(),
        "".to_string(),
        14,
        false,
        false,
        "master".to_string(),
        false,
        LogLevel::Error,
    );
    assert_eq!(c.scope_filter(), ScopeFilter::LocalOnly);
}
