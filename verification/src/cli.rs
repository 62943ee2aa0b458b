//! The command line: the options of every command, and the checks on them that the argument
//! parser cannot express.
use vstd::prelude::*;
use crate::text::owned;
use crate::utils::pr::MergeMethod;

verus! {

/// `git_sync` is an application for managing multiple GitHub repositories at once.
#[derive(Debug)]
pub struct AppArgs {
    /// GitHub Personal Access Token
    pub token: Option<String>,
    /// Path to config file
    pub file: Option<String>,
    /// The types of repositories to use for any command that targets configured repositories.
    pub repository_type: RepositoryType,
    /// The name of the custom repository group to use. Required if `repository_type` is
    /// `custom`.
    pub repository_group: Option<String>,
    /// The command that will get run
    pub command: Command,
    /// Make output quiet.
    pub quiet: bool,
    /// Verbose output. Currently only checks and reports your api usage
    pub verbose: bool,
    /// The maximum number of parallel tasks to run.
    pub jobs: Option<usize>,
    /// Also process forks whose parent GitHub does not know.
    pub with_fork_workaround: bool,
    /// Send the results of the operation to Slack.
    pub slack: bool,
    /// Report activity without pushing any commits.
    pub dry_run: bool,
    /// Override the slack webhook url from the config file
    pub slack_webhook: Option<String>,
}

/// Valid options for `repository_type` for cli arguments
#[derive(Copy, Clone, PartialEq, Eq, Structural, Debug)]
pub enum RepositoryType {
    Public,
    Private,
    Fork,
    All,
    Custom,
}

/// Valid options that can be passed to `make_latest` in the github api.
#[derive(Copy, Clone, PartialEq, Eq, Structural, Debug)]
pub enum MakeLatest {
    True,
    False,
    Legacy,
}

/// Choose where to store backups.
#[derive(Copy, Clone, PartialEq, Eq, Structural, Debug)]
pub enum BackupDestination {
    Local,
    S3,
}

impl BackupDestination {
    /// The name of the destination, as the command line spells it.
    pub fn as_str(&self) -> (r: &'static str)
        ensures
            *self == BackupDestination::Local ==> r@ == "local"@,
            *self == BackupDestination::S3 ==> r@ == "s3"@,
    {
        match self {
            BackupDestination::Local => "local",
            BackupDestination::S3 => "s3",
        }
    }
}

impl MakeLatest {
    /// The value, as the GitHub API spells it.
    pub fn as_str(&self) -> (r: &'static str)
        ensures
            *self == MakeLatest::True ==> r@ == "true"@,
            *self == MakeLatest::False ==> r@ == "false"@,
            *self == MakeLatest::Legacy ==> r@ == "legacy"@,
    {
        match self {
            MakeLatest::True => "true",
            MakeLatest::False => "false",
            MakeLatest::Legacy => "legacy",
        }
    }
}

/// Options for the 'create' tag command
#[derive(Clone, Debug)]
pub struct CreateTagCommand {
    pub tag: String,
    pub branch: String,
    pub repository: Option<String>,
    pub all: bool,
}

/// Options for the 'comparison' tag command
#[derive(Clone, Debug)]
pub struct CompareTagCommand {
    pub repository: Option<String>,
    pub parent: Option<String>,
    pub all: bool,
}

/// Defines the arguments for the 'delete' tag subcommand
#[derive(Clone, Debug)]
pub struct DeleteTagCommand {
    pub repository: Option<String>,
    pub tag: String,
    pub all: bool,
}

/// Sync tags for a forked repository with its parent
#[derive(Clone, Debug)]
pub struct SyncTagCommand {
    pub repository: Option<String>,
    pub all: bool,
    pub with_annotated: bool,
}

/// Show tags for a single repository or all repositories, with optional filtering by regex.
#[derive(Clone, Debug)]
pub struct ShowTagCommand {
    pub repository: Option<String>,
    pub filter: String,
    pub all: bool,
}

/// Sync a repository. If the repository is already up to date, no error is reported.
#[derive(Clone, Debug)]
pub struct SyncRepoCommand {
    pub repository: Option<String>,
    pub all: bool,
    pub recursive: bool,
    pub force: bool,
    pub branch: Option<String>,
}

/// Check repositories for various conditions
#[derive(Clone, Debug)]
pub struct CheckRepoCommand {
    pub repository: Option<String>,
    pub all: bool,
    pub license: bool,
    pub protected: bool,
    pub branch: Option<String>,
    pub old_branches: bool,
    pub days_ago: i64,
    pub branch_filter: Option<String>,
}

/// Open a pull request, and optionally merge it.
#[derive(Clone, Debug)]
pub struct CreatePRCommand {
    pub repository: Option<String>,
    pub all: bool,
    pub head: String,
    pub base: String,
    pub title: String,
    pub body: Option<String>,
    pub merge: bool,
    pub merge_title: Option<String>,
    pub merge_body: Option<String>,
    pub merge_method: MergeMethod,
    pub sha: Option<String>,
    pub reviewers: Option<Vec<String>>,
    pub delete: Option<String>,
}

/// Close a pull request.
#[derive(Clone, Debug)]
pub struct ClosePRCommand {
    pub repository: Option<String>,
    pub all: bool,
    pub id: u64,
    pub base_branch: String,
}

/// Merge a pull request.
#[derive(Clone, Debug)]
pub struct MergePRCommand {
    pub repository: Option<String>,
    pub id: u64,
    pub base_branch: String,
    pub merge_method: String,
    pub commit_title: Option<String>,
    pub commit_message: Option<String>,
    pub sha: Option<String>,
}

/// Delete a branch.
#[derive(Clone, Debug)]
pub struct DeleteBranchCommand {
    pub repository: Option<String>,
    pub branch: String,
    pub all: bool,
}

/// Replace a version string throughout a branch.
#[derive(Clone, Debug)]
pub struct ChangeBranchTextCommand {
    pub repository: Option<String>,
    pub branch: String,
    pub old: String,
    pub new: String,
    pub not_version: bool,
    pub all: bool,
    pub message: Option<String>,
}

/// Create a branch from a branch or a tag.
#[derive(Clone, Debug)]
pub struct CreateBranchCommand {
    pub repository: Option<String>,
    pub new_branch: String,
    pub base_branch: Option<String>,
    pub base_tag: Option<String>,
    pub all: bool,
}

/// Show branches, with optional filtering by regex.
#[derive(Clone, Debug)]
pub struct ShowBranchCommand {
    pub repository: Option<String>,
    pub filter: String,
    pub all: bool,
}

/// Create a release with generated release notes.
#[derive(Clone, Debug)]
pub struct CreateReleaseCommand {
    pub current_release: String,
    pub previous_release: Option<String>,
    pub repository: Option<String>,
    pub release_name: Option<String>,
    pub latest: MakeLatest,
    pub all: bool,
    pub skip_missing_tag: bool,
}

/// Back up repositories.
#[derive(Clone, Debug)]
pub struct BackupRepoCommand {
    pub repository: Option<String>,
    pub all: bool,
    pub path: Option<String>,
    pub destination: BackupDestination,
    pub atomic: bool,
    pub update: bool,
    pub blacklist: bool,
    pub bucket: Option<String>,
}

/// Remove stale backups from a directory.
#[derive(Clone, Debug)]
pub struct PruneBackupCommand {
    pub directory: String,
}

/// Pull request subcommands.
#[derive(Clone, Debug)]
pub enum PRCommand {
    Open(CreatePRCommand),
}

/// Backup subcommands.
#[derive(Clone, Debug)]
pub enum BackupCommand {
    Create(BackupRepoCommand),
    Clean(PruneBackupCommand),
}

/// Release subcommands.
#[derive(Clone, Debug)]
pub enum ReleaseCommand {
    Create(CreateReleaseCommand),
}

/// Tag subcommands.
#[derive(Clone, Debug)]
pub enum TagCommand {
    Compare(CompareTagCommand),
    Create(CreateTagCommand),
    Delete(DeleteTagCommand),
    Sync(SyncTagCommand),
    Show(ShowTagCommand),
}

/// Repository subcommands.
#[derive(Clone, Debug)]
pub enum RepoCommand {
    Sync(SyncRepoCommand),
    Check(CheckRepoCommand),
}

/// Branch subcommands.
#[derive(Clone, Debug)]
pub enum BranchCommand {
    Create(CreateBranchCommand),
    Delete(DeleteBranchCommand),
    Modify(ChangeBranchTextCommand),
    Show(ShowBranchCommand),
}

/// The top-level commands.
#[derive(Debug)]
pub enum Command {
    Branch { cmd: BranchCommand },
    Config { file: Option<String>, force: bool },
    Repo { cmd: RepoCommand },
    Tag { cmd: TagCommand },
    Release { cmd: ReleaseCommand },
    Backup { cmd: BackupCommand },
    PR { cmd: PRCommand },
    Generate { kind: String, out: Option<String> },
}

// ---------------------------------------------------------------------------------------------
// Checks on the arguments
// ---------------------------------------------------------------------------------------------

/// Whether `c` is an ASCII digit.
pub open spec fn is_digit(c: char) -> bool {
    '0' <= c && c <= '9'
}

/// The value of a run of decimal digits.
pub open spec fn digits_value(d: Seq<char>) -> nat
    decreases d.len(),
{
    if d.len() == 0 {
        0
    } else {
        digits_value(d.drop_last()) * 10 + ((d.last() as int) - 48) as nat
    }
}

/// The digits of an unsigned number: one leading `+` is dropped when something follows it.
pub open spec fn unsigned_digits(s: Seq<char>) -> Seq<char> {
    if s.len() > 1 && s[0] == '+' {
        s.drop_first()
    } else {
        s
    }
}

/// What `str::parse::<usize>` gives: the value of the digits, if there are some, all are
/// decimal digits, and the value fits in a `usize`.
pub open spec fn parsed_usize(s: Seq<char>) -> Option<nat> {
    let d = unsigned_digits(s);
    if d.len() > 0 && (forall|i: int| 0 <= i < d.len() ==> is_digit(#[trigger] d[i]))
        && digits_value(d) <= usize::MAX {
        Some(digits_value(d))
    } else {
        None
    }
}

proof fn lemma_digits_value_grows(d: Seq<char>, i: int)
    requires
        0 <= i <= d.len(),
        forall|j: int| 0 <= j < d.len() ==> is_digit(#[trigger] d[j]),
    ensures
        digits_value(d.subrange(0, i)) <= digits_value(d),
    decreases d.len() - i,
{
    if i < d.len() {
        lemma_digits_value_grows(d, i + 1);
        assert(d.subrange(0, i + 1).drop_last() =~= d.subrange(0, i));
        assert(is_digit(d[i]));
    } else {
        assert(d.subrange(0, i) =~= d);
    }
}

/// `str::parse::<usize>`.
pub fn parse_usize(s: &str) -> (r: Option<usize>)
    ensures
        r matches Some(v) ==> parsed_usize(s@) == Some(v as nat),
        r is None ==> parsed_usize(s@) is None,
{
    let n = s.unicode_len();
    let start: usize = if n > 1 && s.get_char(0) == '+' {
        1
    } else {
        0
    };
    let ghost d = unsigned_digits(s@);
    assert(d =~= s@.subrange(start as int, n as int));
    if start == n {
        return None;
    }
    let mut value: usize = 0;
    let mut i: usize = start;
    while i < n
        invariant
            n == s@.len(),
            start <= i <= n,
            d == s@.subrange(start as int, n as int),
            d == unsigned_digits(s@),
            forall|j: int| 0 <= j < i - start ==> is_digit(#[trigger] d[j]),
            value == digits_value(d.subrange(0, i - start)),
        decreases n - i,
    {
        let c = s.get_char(i);
        if !('0' <= c && c <= '9') {
            assert(d[i - start] == c);
            assert(!is_digit(d[i - start]));
            return None;
        }
        let digit: u32 = (c as u32) - 48;
        assert(d.subrange(0, i - start + 1).drop_last() =~= d.subrange(0, i - start));
        assert(d.subrange(0, i - start + 1).last() == c);
        assert(d[i - start] == c);
        assert(digits_value(d.subrange(0, i - start + 1)) == value * 10 + digit);
        proof {
            if forall|j: int| 0 <= j < d.len() ==> is_digit(#[trigger] d[j]) {
                lemma_digits_value_grows(d, i - start + 1);
            }
        }
        match value.checked_mul(10) {
            Some(m) => match m.checked_add(digit as usize) {
                Some(v) => {
                    value = v;
                },
                None => {
                    return None;
                },
            },
            None => {
                return None;
            },
        }
        i += 1;
    }
    assert(d.subrange(0, n - start) =~= d);
    Some(value)
}

/// Validate that the maximum number of parallel jobs is between 1 and 64.
pub fn validate_jobs(s: &str) -> (r: Result<usize, String>)
    ensures
        parsed_usize(s@) is None ==> (r matches Err(m) && m@ == "'"@ + s@
            + "' is not a valid positive integer"@),
        parsed_usize(s@) matches Some(v) ==> (1 <= v <= 64 ==> r == Ok::<usize, String>(
            v as usize,
        )),
        parsed_usize(s@) matches Some(v) ==> (!(1 <= v <= 64) ==> (r matches Err(m) && m@
            == "Jobs must be between 1 and 64"@)),
{
    match parse_usize(s) {
        None => {
            let mut m = owned("'");
            m.append(s);
            m.append("' is not a valid positive integer");
            Err(m)
        },
        Some(parsed) => {
            if 1 <= parsed && parsed <= 64 {
                Ok(parsed)
            } else {
                Err(owned("Jobs must be between 1 and 64"))
            }
        },
    }
}

/// A rejection of the parsed arguments: what to report, and the exit code to leave with.
#[derive(Debug)]
pub struct ArgsRejection {
    pub exit_code: i32,
    pub message: String,
}

/// Whether the command syncs all repositories recursively without `--force`.
pub open spec fn recursive_sync_without_force(c: Command) -> bool {
    match c {
        Command::Repo { cmd: RepoCommand::Sync(s) } => s.recursive && s.all && !s.force,
        _ => false,
    }
}

/// Whether the fork workaround is asked for with repositories that are not forks.
pub open spec fn workaround_without_forks(a: AppArgs) -> bool {
    !(a.repository_type == RepositoryType::All || a.repository_type == RepositoryType::Fork)
        && a.with_fork_workaround
}

/// The checks that follow parsing: a recursive sync of all repositories needs `--force` (exit
/// code 1), and the fork workaround needs the `all` or `fork` repository type (exit code 2).
pub fn check_args(args: &AppArgs) -> (r: Result<(), ArgsRejection>)
    ensures
        recursive_sync_without_force(args.command) ==> (r matches Err(e) && e.exit_code == 1
            && e.message@
            == "Error: when syncing repositories, --force is required when --all and --recursive are set."@),
        !recursive_sync_without_force(args.command) && workaround_without_forks(*args) ==> (r matches Err(e)
            && e.exit_code == 2 && e.message@
            == "Error: --with-fork-workaround is only valid when --repository-type is 'all' or 'fork'"@),
        !recursive_sync_without_force(args.command) && !workaround_without_forks(*args) ==> r is Ok,
{
    if let Command::Repo { cmd: RepoCommand::Sync(sync_cmd) } = &args.command {
        if sync_cmd.recursive && sync_cmd.all && !sync_cmd.force {
            return Err(
                ArgsRejection {
                    exit_code: 1,
                    message: owned(
                        "Error: when syncing repositories, --force is required when --all and --recursive are set.",
                    ),
                },
            );
        }
    }
    if !(args.repository_type == RepositoryType::All || args.repository_type
        == RepositoryType::Fork) && args.with_fork_workaround {
        return Err(
            ArgsRejection {
                exit_code: 2,
                message: owned(
                    "Error: --with-fork-workaround is only valid when --repository-type is 'all' or 'fork'",
                ),
            },
        );
    }
    Ok(())
}

} // verus!
