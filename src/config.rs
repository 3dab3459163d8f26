use vstd::prelude::*;

use crate::policy::{copy_names, Policy, ScopeFilter};

verus! {

/// How much the tool logs, from least to most.
#[derive(Debug, Clone, Copy, PartialEq, Eq, Structural)]
pub enum LogLevel {
    Error,
    Warn,
    Info,
    Debug,
    Trace,
}

/// Rank of a level: a more verbose level has a higher rank.
pub open spec fn rank(l: LogLevel) -> int {
    match l {
        LogLevel::Error => 0,
        LogLevel::Warn => 1,
        LogLevel::Info => 2,
        LogLevel::Debug => 3,
        LogLevel::Trace => 4,
    }
}

impl LogLevel {
    /// The level for `count` repetitions of the verbosity flag; four or more give the
    /// most verbose level.
    pub fn from_verbosity(count: u64) -> (r: LogLevel)
        ensures
            r == Self::from_verbosity_spec(count),
            count < 4 ==> rank(r) == count,
            count >= 4 ==> r == LogLevel::Trace,
    {
        match count {
            0 => LogLevel::Error,
            1 => LogLevel::Warn,
            2 => LogLevel::Info,
            3 => LogLevel::Debug,
            _ => LogLevel::Trace,
        }
    }

    pub open spec fn from_verbosity_spec(count: u64) -> LogLevel {
        if count == 0 {
            LogLevel::Error
        } else if count == 1 {
            LogLevel::Warn
        } else if count == 2 {
            LogLevel::Info
        } else if count == 3 {
            LogLevel::Debug
        } else {
            LogLevel::Trace
        }
    }

    /// The level's name in a log specification.
    pub fn name(&self) -> (r: &'static str)
        ensures
            *self == LogLevel::Error ==> r@ == "error"@,
            *self == LogLevel::Warn ==> r@ == "warn"@,
            *self == LogLevel::Info ==> r@ == "info"@,
            *self == LogLevel::Debug ==> r@ == "debug"@,
            *self == LogLevel::Trace ==> r@ == "trace"@,
    {
        match self {
            LogLevel::Error => "error",
            LogLevel::Warn => "warn",
            LogLevel::Info => "info",
            LogLevel::Debug => "debug",
            LogLevel::Trace => "trace",
        }
    }

    /// Whether a message of level `message` is written when logging at `self`.
    pub fn permits(&self, message: LogLevel) -> (r: bool)
        ensures
            r == (rank(message) <= rank(*self)),
    {
        Self::rank_of(message) <= Self::rank_of(*self)
    }

    fn rank_of(l: LogLevel) -> (r: u8)
        ensures
            r == rank(l),
    {
        match l {
            LogLevel::Error => 0,
            LogLevel::Warn => 1,
            LogLevel::Info => 2,
            LogLevel::Debug => 3,
            LogLevel::Trace => 4,
        }
    }
}

pub open spec fn is_digit(c: char) -> bool {
    '0' <= c && c <= '9'
}

pub open spec fn all_digits(s: Seq<char>) -> bool {
    forall|i: int| 0 <= i < s.len() ==> is_digit(#[trigger] s[i])
}

/// The number that a string of decimal digits denotes.
pub open spec fn decimal_value(s: Seq<char>) -> int
    decreases s.len(),
{
    if s.len() == 0 {
        0
    } else {
        10 * decimal_value(s.drop_last()) + (s.last() as int - '0' as int)
    }
}

proof fn lemma_decimal_value_nonneg(s: Seq<char>)
    requires
        all_digits(s),
    ensures
        decimal_value(s) >= 0,
    decreases s.len(),
{
    if s.len() > 0 {
        assert(all_digits(s.drop_last()));
        lemma_decimal_value_nonneg(s.drop_last());
        assert(is_digit(s.last()));
    }
}

proof fn lemma_decimal_value_grows(s: Seq<char>, j: int)
    requires
        all_digits(s),
        0 <= j <= s.len(),
    ensures
        decimal_value(s.subrange(0, j)) <= decimal_value(s),
    decreases s.len() - j,
{
    if j < s.len() {
        lemma_decimal_value_grows(s, j + 1);
        let t = s.subrange(0, j + 1);
        assert(t.drop_last() =~= s.subrange(0, j));
        assert(is_digit(t.last()));
        assert(all_digits(s.subrange(0, j)));
        lemma_decimal_value_nonneg(s.subrange(0, j));
    } else {
        assert(s.subrange(0, j) =~= s);
    }
}

/// The digits of a number written with an optional leading `+`.
pub open spec fn unsigned_digits(s: Seq<char>) -> Seq<char> {
    if s.len() > 0 && s[0] == '+' {
        s.drop_first()
    } else {
        s
    }
}

/// Whether `s` is an unsigned decimal number: an optional `+`, then one digit or more.
pub open spec fn is_unsigned_number(s: Seq<char>) -> bool {
    unsigned_digits(s).len() > 0 && all_digits(unsigned_digits(s))
}

/// The value of an unsigned decimal number.
pub open spec fn unsigned_value(s: Seq<char>) -> int {
    decimal_value(unsigned_digits(s))
}

/// Reads a number of days: an optional `+`, then decimal digits. `None` for anything
/// else, or for a value beyond `u32`.
pub fn parse_days(s: &str) -> (r: Option<u32>)
    ensures
        r is Some <==> (is_unsigned_number(s@) && unsigned_value(s@) <= u32::MAX),
        r is Some ==> r->0 == unsigned_value(s@),
{
    let n = s.unicode_len();
    if n > 0 && s.get_char(0) == '+' {
        let digits = s.substring_char(1, n);
        proof {
            assert(digits@ =~= s@.drop_first());
        }
        parse_digits(digits)
    } else {
        parse_digits(s)
    }
}

/// Reads decimal digits; `None` for an empty string, any other character, or a value
/// beyond `u32`.
fn parse_digits(s: &str) -> (r: Option<u32>)
    ensures
        r is Some <==> (s@.len() > 0 && all_digits(s@) && decimal_value(s@) <= u32::MAX),
        r is Some ==> r->0 == decimal_value(s@),
{
    let n = s.unicode_len();
    if n == 0 {
        return None;
    }
    let mut value: u64 = 0;
    let mut i: usize = 0;
    while i < n
        invariant
            n == s@.len(),
            i <= n,
            all_digits(s@.subrange(0, i as int)),
            value == decimal_value(s@.subrange(0, i as int)),
            value <= u32::MAX,
        decreases n - i,
    {
        let c = s.get_char(i);
        if !('0' <= c && c <= '9') {
            return None;
        }
        let ghost prefix = s@.subrange(0, i as int + 1);
        proof {
            assert(prefix.drop_last() =~= s@.subrange(0, i as int));
        }
        value = value * 10 + (c as u64 - '0' as u64);
        i = i + 1;
        if value > 4294967295 {
            proof {
                if all_digits(s@) {
                    lemma_decimal_value_grows(s@, i as int);
                }
            }
            return None;
        }
    }
    proof {
        assert(s@.subrange(0, n as int) =~= s@);
    }
    Some(value as u32)
}

/// The fields of `s` between separators `sep`, in order; an empty string has one
/// empty field.
pub open spec fn split_fields(s: Seq<char>, sep: char) -> Seq<Seq<char>>
    decreases s.len(),
{
    if s.len() == 0 {
        seq![Seq::<char>::empty()]
    } else {
        let fields = split_fields(s.drop_last(), sep);
        if s.last() == sep {
            fields.push(Seq::<char>::empty())
        } else {
            fields.update(fields.len() - 1, fields.last().push(s.last()))
        }
    }
}

/// Splits a comma-separated list of branch names.
pub fn split_names(list: &str) -> (r: Vec<String>)
    ensures
        r@.len() == split_fields(list@, ',').len(),
        forall|k: int| 0 <= k < r@.len() ==> #[trigger] r@[k]@ == split_fields(list@, ',')[k],
{
    let n = list.unicode_len();
    let mut r: Vec<String> = Vec::new();
    let ghost mut fields: Seq<Seq<char>> = Seq::empty();
    let mut start: usize = 0;
    let mut i: usize = 0;
    proof {
        assert(list@.subrange(0, 0) =~= Seq::<char>::empty());
        assert(split_fields(list@.subrange(0, 0), ',') =~= fields.push(
            list@.subrange(0, 0),
        ));
    }
    while i < n
        invariant
            n == list@.len(),
            start <= i <= n,
            r@.len() == fields.len(),
            forall|k: int| 0 <= k < r@.len() ==> #[trigger] r@[k]@ == fields[k],
            split_fields(list@.subrange(0, i as int), ',') == fields.push(
                list@.subrange(start as int, i as int),
            ),
        decreases n - i,
    {
        let c = list.get_char(i);
        let ghost field = list@.subrange(start as int, i as int);
        proof {
            assert(list@.subrange(0, i as int + 1).drop_last() =~= list@.subrange(0, i as int));
        }
        let ghost whole = split_fields(list@.subrange(0, i as int + 1), ',');
        if c == ',' {
            r.push(list.substring_char(start, i).to_owned());
            proof {
                assert(whole =~= fields.push(field).push(Seq::<char>::empty()));
                fields = fields.push(field);
            }
            start = i + 1;
        } else {
            proof {
                assert(field.push(c) =~= list@.subrange(start as int, i as int + 1));
                assert(whole =~= fields.push(field.push(c)));
            }
        }
        i = i + 1;
        proof {
            if start == i {
                assert(list@.subrange(start as int, i as int) =~= Seq::<char>::empty());
            }
            assert(whole =~= fields.push(list@.subrange(start as int, i as int)));
        }
    }
    r.push(list.substring_char(start, n).to_owned());
    proof {
        assert(list@.subrange(0, n as int) =~= list@);
        fields = fields.push(list@.subrange(start as int, n as int));
    }
    r
}

/// A reason to refuse the command line before any repository is read.
#[derive(Debug, Clone, Copy, PartialEq, Eq, Structural)]
pub enum ConfigError {
    /// The number of days is not a positive decimal number that fits in `u32`.
    InvalidNumDays,
    /// A single remote and all remotes were both asked for.
    ConflictingRemotes,
}

/// The command line as given, before validation.
#[derive(Debug)]
pub struct CommandLine {
    /// How many times the verbosity flag was given.
    pub verbosity: u64,
    pub num_days: String,
    pub bad_only: bool,
    pub no_color: bool,
    pub repository_path: String,
    pub delete: bool,
    /// Comma-separated names of branches to leave alone.
    pub ignore_branches: String,
    pub trunk: String,
    pub remote: Option<String>,
    pub all_remotes: bool,
}

/// Whether `s` is a valid number of days.
pub open spec fn valid_days(s: Seq<char>) -> bool {
    is_unsigned_number(s) && 0 < unsigned_value(s) <= u32::MAX
}

/// The validated settings of one run.
#[derive(Debug)]
pub struct BranchHealthConfig {
    pub repo_path: String,
    /// The remote to look at; empty for none.
    pub remote_name: String,
    /// Whether the run looks at the remote `remote_name` alone, even an empty name.
    pub remote_given: bool,
    pub num_days: u32,
    pub bad_only: bool,
    pub no_color: bool,
    pub trunk_branch: String,
    pub delete_old_branches: bool,
    pub log_level: LogLevel,
    pub ignored_branches: Vec<String>,
    pub all_remotes: bool,
}

impl BranchHealthConfig {
    /// Validates the command line: the number of days first, then the choice of remotes.
    pub fn new(args: CommandLine) -> (r: Result<BranchHealthConfig, ConfigError>)
        ensures
            !valid_days(args.num_days@) ==> r == Err::<BranchHealthConfig, ConfigError>(
                ConfigError::InvalidNumDays,
            ),
            valid_days(args.num_days@) && args.remote is Some && args.all_remotes ==> r == Err::<
                BranchHealthConfig,
                ConfigError,
            >(ConfigError::ConflictingRemotes),
            r is Ok <==> valid_days(args.num_days@) && !(args.remote is Some && args.all_remotes),
            r is Ok ==> {
                let c = r->Ok_0;
                &&& c.num_days == unsigned_value(args.num_days@)
                &&& c.repo_path == args.repository_path
                &&& c.remote_name@ == (match args.remote {
                    Some(name) => name@,
                    None => Seq::<char>::empty(),
                })
                &&& c.remote_given == args.remote is Some
                &&& c.bad_only == args.bad_only
                &&& c.no_color == args.no_color
                &&& c.trunk_branch == args.trunk
                &&& c.delete_old_branches == args.delete
                &&& c.log_level == LogLevel::from_verbosity_spec(args.verbosity)
                &&& c.ignored_branches@.len() == split_fields(args.ignore_branches@, ',').len()
                &&& forall|k: int|
                    0 <= k < c.ignored_branches@.len() ==> #[trigger] c.ignored_branches@[k]@
                        == split_fields(args.ignore_branches@, ',')[k]
                &&& c.all_remotes == args.all_remotes
            },
    {
        let num_days = match parse_days(args.num_days.as_str()) {
            Some(d) if d > 0 => d,
            _ => return Err(ConfigError::InvalidNumDays),
        };
        if args.remote.is_some() && args.all_remotes {
            return Err(ConfigError::ConflictingRemotes);
        }
        let ignored_branches = split_names(args.ignore_branches.as_str());
        let remote_given = args.remote.is_some();
        let remote_name = match args.remote {
            Some(name) => name,
            None => String::new(),
        };
        let mut config = BranchHealthConfig::init_with_options(
            args.repository_path,
            remote_name,
            num_days,
            args.bad_only,
            args.no_color,
            args.trunk,
            args.delete,
            LogLevel::from_verbosity(args.verbosity),
        );
        config.ignored_branches = ignored_branches;
        config.remote_given = remote_given;
        config.all_remotes = args.all_remotes;
        Ok(config)
    }

    /// Settings given one by one: no ignored branches, and the one remote named, if the
    /// name is not empty.
    pub fn init_with_options(
        repo_path: String,
        remote_name: String,
        num_days: u32,
        bad_only: bool,
        no_color: bool,
        trunk_branch: String,
        delete_old_branches: bool,
        log_level: LogLevel,
    ) -> (r: BranchHealthConfig)
        requires
            num_days > 0,
        ensures
            r.repo_path == repo_path,
            r.remote_name == remote_name,
            r.remote_given == (remote_name@.len() > 0),
            r.num_days == num_days,
            r.bad_only == bad_only,
            r.no_color == no_color,
            r.trunk_branch == trunk_branch,
            r.delete_old_branches == delete_old_branches,
            r.log_level == log_level,
            r.ignored_branches@.len() == 0,
            !r.all_remotes,
    {
        BranchHealthConfig {
            repo_path,
            remote_given: remote_name.unicode_len() > 0,
            remote_name,
            num_days,
            bad_only,
            no_color,
            trunk_branch,
            delete_old_branches,
            log_level,
            ignored_branches: Vec::new(),
            all_remotes: false,
        }
    }

    /// The branches that a run looks at.
    pub open spec fn scope_spec(&self) -> ScopeFilter {
        if self.all_remotes {
            ScopeFilter::AllRemotesAndLocal
        } else if self.remote_given {
            ScopeFilter::SingleRemote(self.remote_name)
        } else {
            ScopeFilter::LocalOnly
        }
    }

    pub fn scope_filter(&self) -> (r: ScopeFilter)
        ensures
            r == self.scope_spec(),
    {
        if self.all_remotes {
            ScopeFilter::AllRemotesAndLocal
        } else if self.remote_given {
            ScopeFilter::SingleRemote(self.remote_name.clone())
        } else {
            ScopeFilter::LocalOnly
        }
    }

    /// The policy that these settings describe.
    pub open spec fn policy_spec(&self) -> Policy {
        Policy {
            threshold_days: self.num_days,
            trunk_name: self.trunk_branch,
            ignored_branches: self.ignored_branches,
            scope_filter: self.scope_spec(),
        }
    }

    /// The policy that classification and pruning follow under these settings.
    pub fn policy(&self) -> (r: Policy)
        requires
            self.num_days > 0,
        ensures
            r.threshold_days == self.num_days,
            r.trunk_name == self.trunk_branch,
            r.ignored_branches@ == self.ignored_branches@,
            r.scope_filter == self.scope_spec(),
    {
        Policy::new(
            self.num_days,
            self.trunk_branch.clone(),
            copy_names(&self.ignored_branches),
            self.scope_filter(),
        )
    }
}

} // verus!
