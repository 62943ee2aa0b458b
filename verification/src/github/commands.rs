//! What each command asks for: the requests to make, chosen from the parsed arguments and the
//! configuration. The application makes the requests.
use vstd::prelude::*;
use crate::cache::store::{entry_for, find_key, keys_unique, strings_view};
use crate::cli::{
    BackupCommand, BackupDestination, BranchCommand, Command, PRCommand, ReleaseCommand,
    RepoCommand, RepositoryType, TagCommand,
};
use crate::config::Config;
use crate::error::GitError;
use crate::github::tag::contains_string;
use crate::text::{owned, str_eq};
use crate::utils::filter::{get_or_compile, regex_accepts, CompiledPattern};
use crate::utils::pr::{CreatePrOptions, MergePrOptions};

verus! {

/// The checks to run on a repository.
#[derive(Debug)]
pub struct RepoChecks {
    /// Check if the main branch is protected
    pub protected: bool,
    /// Check the license of the repository
    pub license: bool,
    /// Check for old branches: whether to, and the minimum number of days of inactivity.
    pub old_branches: (bool, i64),
    /// A regex filter for the branches
    pub branch_filter: Option<CompiledPattern>,
}

/// Whether, after a backup, it is uploaded to S3.
#[derive(Debug)]
pub enum S3Upload {
    /// The backup stays local.
    Skip,
    /// The backup is uploaded to this bucket.
    To(String),
    /// An upload was asked for without a bucket, which is an error once the backup is made.
    MissingBucket,
}

/// A request that a command makes.
#[derive(Debug)]
pub enum Action {
    DiffAllTags { repositories: Vec<String> },
    DiffTags { repository: String },
    CreateAllTags { tag: String, branch: String, repositories: Vec<String> },
    CreateTag { repository: String, tag: String, branch: String },
    DeleteAllTags { tag: String, repositories: Vec<String> },
    DeleteTag { repository: String, tag: String },
    SyncAllTags { annotated: bool, repositories: Vec<String>, fork_workaround: Vec<(String, String)> },
    SyncTags { repository: String, parent: String, annotated: bool },
    ShowAllTags { repositories: Vec<String>, filter: String },
    ShowTags { repository: String, filter: String },
    CreateAllBranches {
        base_branch: String,
        base_tag: String,
        new_branch: String,
        repositories: Vec<String>,
        quiet: bool,
    },
    CreateBranch { repository: String, base_branch: String, new_branch: String, quiet: bool },
    CreateBranchFromTag { repository: String, tag: String, new_branch: String, quiet: bool },
    DeleteAllBranches { branch: String, repositories: Vec<String> },
    DeleteBranch { repository: String, branch: String },
    ChangeAllVersions {
        branch: String,
        old_version: String,
        new_version: String,
        repositories: Vec<String>,
        message: Option<String>,
        dry_run: bool,
        is_version: bool,
        quiet: bool,
    },
    ChangeVersion {
        repository: String,
        branch: String,
        old_version: String,
        new_version: String,
        message: Option<String>,
        dry_run: bool,
        is_version: bool,
        quiet: bool,
    },
    ShowAllBranches { repositories: Vec<String>, filter: String },
    ShowBranches { repository: String, filter: String },
    SyncAllForks { repositories: Vec<String>, recursive: bool },
    SyncAllForksWithWorkaround {
        fork_workaround: Vec<(String, String)>,
        repositories: Vec<String>,
        recursive: bool,
    },
    SyncWithUpstream { repository: String, parent: String },
    SyncForkRecursive { repository: String },
    SyncFork { repository: String, branch: Option<String> },
    CheckAll {
        repositories: Vec<String>,
        checks: RepoChecks,
        branch_blacklist: Vec<String>,
        license_blacklist: Vec<String>,
    },
    Check {
        repository: String,
        checks: RepoChecks,
        branch_blacklist: Vec<String>,
        license_blacklist: Vec<String>,
    },
    CreateAllPrs { options: CreatePrOptions, merge: Option<MergePrOptions>, repositories: Vec<String> },
    CreatePr { options: CreatePrOptions, merge: Option<MergePrOptions> },
    CreateAllReleases {
        current: String,
        previous: Option<String>,
        name: Option<String>,
        repositories: Vec<String>,
        ignore_previous_tag: bool,
    },
    CreateRelease {
        repository: String,
        current: String,
        previous: Option<String>,
        name: Option<String>,
        ignore_previous_tag: bool,
    },
    BackupAll { repositories: Vec<String>, path: String, upload: S3Upload },
    Backup { repository: String, path: String, upload: S3Upload },
    PruneBackup { directory: String },
    GenerateConfig { file: Option<String>, force: bool },
    GenerateCompletions { shell: String, out: Option<String> },
    GenerateManPages { out: Option<String> },
    Nothing,
}

/// What a run needs besides the command: the configured repositories, each once, the forks to
/// sync through the workaround, and the settings that commands read.
pub struct Context {
    pub repositories: Vec<String>,
    /// Forks with the repository to sync them from, when the workaround is enabled; each once.
    pub fork_workaround: Vec<(String, String)>,
    /// The forks that are configured for the workaround, enabled or not.
    pub forks_with_workaround: Vec<String>,
    pub quiet: bool,
    pub dry_run: bool,
    pub branch_blacklist: Vec<String>,
    pub license_blacklist: Vec<String>,
    /// Where backups go when no path is given.
    pub current_dir: String,
}

// ---------------------------------------------------------------------------------------------
// The run's settings
// ---------------------------------------------------------------------------------------------

/// Whether the command works without GitHub: generating files and the configuration.
pub open spec fn works_offline(command: Command) -> bool {
    command is Generate || command is Config
}

/// The GitHub token to use: none is needed to generate files or the configuration; otherwise
/// the one given on the command line, then the configured one, and it is an error to have none.
pub fn select_token(command: &Command, cli_token: Option<String>, config_token: Option<String>) -> (r: Result<String, GitError>)
    ensures
        works_offline(*command) ==> (r matches Ok(t) && t@.len() == 0),
        !works_offline(*command) && cli_token is Some ==> r == Ok::<String, GitError>(cli_token->0),
        !works_offline(*command) && cli_token is None && config_token is Some ==> r == Ok::<String, GitError>(config_token->0),
        !works_offline(*command) && cli_token is None && config_token is None ==> r == Err::<String, GitError>(GitError::MissingToken),
{
    match command {
        Command::Generate { .. } | Command::Config { .. } => Ok(String::new()),
        _ => match cli_token {
            Some(t) => Ok(t),
            None => match config_token {
                Some(t) => Ok(t),
                None => Err(GitError::MissingToken),
            },
        },
    }
}

/// The views of the repositories of a custom group, if it exists.
pub open spec fn group_members(groups: Option<Vec<(String, Vec<String>)>>, name: Seq<char>) -> Option<Vec<String>> {
    match groups {
        Some(g) => entry_for(g@, name),
        None => None,
    }
}

fn copy_list(v: &Vec<String>) -> (r: Vec<String>)
    ensures
        strings_view(r@) == strings_view(v@),
{
    crate::cache::store::copy_strings(v)
}

/// The repositories of the chosen kind. A custom group must exist and hold a repository.
pub fn select_repositories(kind: RepositoryType, group: &Option<String>, config: &Config) -> (r: Result<Vec<String>, GitError>)
    ensures
        kind == RepositoryType::Public ==> (r matches Ok(v) && strings_view(v@) == crate::config::category(config.repos.public)),
        kind == RepositoryType::Private ==> (r matches Ok(v) && strings_view(v@) == crate::config::category(config.repos.private)),
        kind == RepositoryType::Fork ==> (r matches Ok(v) && strings_view(v@) == crate::config::category(config.repos.fork)),
        kind == RepositoryType::All ==> (r matches Ok(v) && strings_view(v@) == crate::config::category(config.repos.public)
            + crate::config::category(config.repos.fork) + crate::config::category(config.repos.private)),
        kind == RepositoryType::Custom ==> ({
            let name = match *group { Some(g) => g@, None => seq![] };
            match group_members(config.repos.custom, name) {
                None => r matches Err(GitError::Other(m)) && m@ == "Custom group '"@ + name + "' not found"@,
                Some(members) => if members@.len() == 0 {
                    r matches Err(GitError::Other(m)) && m@ == "No repositories found for custom group '"@ + name + "'"@
                } else {
                    r matches Ok(v) && strings_view(v@) == strings_view(members@)
                },
            }
        }),
{
    match kind {
        RepositoryType::Public => Ok(config.get_public_repositories()),
        RepositoryType::Private => Ok(config.get_private_repositories()),
        RepositoryType::Fork => Ok(config.get_fork_repositories()),
        RepositoryType::All => Ok(config.get_all_repositories()),
        RepositoryType::Custom => {
            let name: &str = match group {
                Some(g) => g.as_str(),
                None => "",
            };
            proof {
                reveal_strlit("");
                assert(""@ =~= Seq::<char>::empty());
            }
            let found = match &config.repos.custom {
                Some(groups) => match find_key(groups, name) {
                    Some(i) => Some(&groups[i].1),
                    None => None,
                },
                None => None,
            };
            match found {
                Some(members) => {
                    if members.len() == 0 {
                        let mut m = owned("No repositories found for custom group '");
                        m.append(name);
                        m.append("'");
                        Err(GitError::Other(m))
                    } else {
                        Ok(copy_list(members))
                    }
                },
                None => {
                    let mut m = owned("Custom group '");
                    m.append(name);
                    m.append("' not found");
                    Err(GitError::Other(m))
                },
            }
        },
    }
}

/// No repository occurs twice.
pub open spec fn no_repeats(v: Seq<Seq<char>>) -> bool {
    forall|i: int, j: int| 0 <= i < j < v.len() ==> v[i] != v[j]
}

/// In a sequence without repeats, a value occurs at most once.
pub proof fn lemma_unique_count(v: Seq<Seq<char>>, x: Seq<char>)
    requires
        no_repeats(v),
    ensures
        v.to_multiset().count(x) <= 1,
    decreases v.len(),
{
    broadcast use vstd::seq_lib::group_to_multiset_ensures;
    if v.len() > 0 {
        let rest = v.drop_last();
        assert(no_repeats(rest)) by {
            assert forall|i: int, j: int| 0 <= i < j < rest.len() implies rest[i] != rest[j] by {
                assert(rest[i] == v[i] && rest[j] == v[j]);
            }
        }
        lemma_unique_count(rest, x);
        assert(rest.push(v.last()) =~= v);
        if v.last() == x {
            assert(!rest.contains(x)) by {
                if rest.contains(x) {
                    let i = choose|i: int| 0 <= i < rest.len() && rest[i] == x;
                    assert(v[i] == v[v.len() - 1]);
                }
            }
        }
    }
}

/// The repositories, each once, in the order they first occur.
pub fn unique_repositories(repos: Vec<String>) -> (r: Vec<String>)
    ensures
        no_repeats(strings_view(r@)),
        forall|s: Seq<char>| strings_view(r@).contains(s) <==> strings_view(repos@).contains(s),
{
    let ghost all = strings_view(repos@);
    let mut out: Vec<String> = Vec::new();
    let n = repos.len();
    let mut i: usize = 0;
    while i < n
        invariant
            n == repos@.len(),
            i <= n,
            all == strings_view(repos@),
            no_repeats(strings_view(out@)),
            forall|s: Seq<char>| strings_view(out@).contains(s) <==> all.subrange(0, i as int).contains(s),
        decreases n - i,
    {
        let x = repos[i].as_str();
        let ghost before = strings_view(out@);
        assert(all.subrange(0, i + 1) =~= all.subrange(0, i as int).push(x@));
        if !contains_string(&out, x) {
            out.push(owned(x));
            assert(strings_view(out@) =~= before.push(x@));
            assert forall|s: Seq<char>| strings_view(out@).contains(s) <==> all.subrange(0, i + 1).contains(s) by {
                crate::github::tag::lemma_push_contains(before, x@, s);
                crate::github::tag::lemma_push_contains(all.subrange(0, i as int), x@, s);
            }
        } else {
            assert forall|s: Seq<char>| strings_view(out@).contains(s) <==> all.subrange(0, i + 1).contains(s) by {
                crate::github::tag::lemma_push_contains(all.subrange(0, i as int), x@, s);
            }
        }
        i += 1;
    }
    assert(all.subrange(0, n as int) =~= all);
    out
}

/// The number of parallel jobs: the one asked for, or else the machine's default (the number
/// of its CPU threads), and at least one.
pub fn job_count(requested: Option<usize>, default_jobs: usize) -> (r: usize)
    ensures
        r == vstd::math::max(
            match requested {
                Some(j) => j as int,
                None => default_jobs as int,
            },
            1,
        ),
{
    let jobs = match requested {
        Some(j) => j,
        None => default_jobs,
    };
    if jobs > 1 {
        jobs
    } else {
        1
    }
}

/// The Slack webhook: the one given on the command line, then the configured one.
pub fn select_webhook(cli_webhook: Option<String>, config_webhook: Option<String>) -> (r: Option<String>)
    ensures
        cli_webhook is Some ==> r == cli_webhook,
        cli_webhook is None ==> r == config_webhook,
{
    match cli_webhook {
        Some(w) => Some(w),
        None => config_webhook,
    }
}

// ---------------------------------------------------------------------------------------------
// Commands
// ---------------------------------------------------------------------------------------------

/// The repository a fork is synced from under the workaround, if it is configured for it.
fn workaround_parent(fork_workaround: &Vec<(String, String)>, repository: &str) -> (r: Option<String>)
    ensures
        r is None <==> entry_for(fork_workaround@, repository@) is None,
        r matches Some(p) ==> p@ == entry_for(fork_workaround@, repository@)->0@,
{
    match find_key(fork_workaround, repository) {
        Some(i) => Some(owned(fork_workaround[i].1.as_str())),
        None => None,
    }
}

/// What a tag command asks for.
pub fn plan_tag_command(cmd: TagCommand, repos: Vec<String>, fork_workaround: Vec<(String, String)>) -> (r: Result<Action, GitError>)
    ensures
        match cmd {
            TagCommand::Compare(c) => if c.all && repos@.len() > 0 {
                r == Ok::<Action, GitError>(Action::DiffAllTags { repositories: repos })
            } else if c.all {
                r == Err::<Action, GitError>(GitError::NoReposConfigured)
            } else {
                match c.repository {
                    Some(x) => r == Ok::<Action, GitError>(Action::DiffTags { repository: x }),
                    None => r == Err::<Action, GitError>(GitError::MissingRepositoryName),
                }
            },
            TagCommand::Create(c) => if c.all {
                r == Ok::<Action, GitError>(Action::CreateAllTags { tag: c.tag, branch: c.branch, repositories: repos })
            } else {
                match c.repository {
                    Some(x) => r == Ok::<Action, GitError>(Action::CreateTag { repository: x, tag: c.tag, branch: c.branch }),
                    None => r == Err::<Action, GitError>(GitError::MissingRepositoryName),
                }
            },
            TagCommand::Delete(c) => if c.all {
                r == Ok::<Action, GitError>(Action::DeleteAllTags { tag: c.tag, repositories: repos })
            } else {
                match c.repository {
                    Some(x) => r == Ok::<Action, GitError>(Action::DeleteTag { repository: x, tag: c.tag }),
                    None => r == Err::<Action, GitError>(GitError::MissingRepositoryName),
                }
            },
            TagCommand::Sync(c) => if c.all {
                r == Ok::<Action, GitError>(Action::SyncAllTags { annotated: c.with_annotated, repositories: repos, fork_workaround })
            } else {
                match c.repository {
                    Some(x) => match entry_for(fork_workaround@, x@) {
                        Some(p) => r matches Ok(Action::SyncTags { repository, parent, annotated })
                            && repository == x && parent@ == p@ && annotated == c.with_annotated,
                        None => r matches Err(GitError::NoUpstreamRepo(u)) && u == x,
                    },
                    None => r == Err::<Action, GitError>(GitError::MissingRepositoryName),
                }
            },
            TagCommand::Show(c) => if c.all {
                r == Ok::<Action, GitError>(Action::ShowAllTags { repositories: repos, filter: c.filter })
            } else {
                match c.repository {
                    Some(x) => r == Ok::<Action, GitError>(Action::ShowTags { repository: x, filter: c.filter }),
                    None => r == Err::<Action, GitError>(GitError::MissingRepositoryName),
                }
            },
        },
{
    match cmd {
        TagCommand::Compare(c) => {
            if c.all && repos.len() > 0 {
                Ok(Action::DiffAllTags { repositories: repos })
            } else if c.all {
                Err(GitError::NoReposConfigured)
            } else {
                match c.repository {
                    Some(x) => Ok(Action::DiffTags { repository: x }),
                    None => Err(GitError::MissingRepositoryName),
                }
            }
        },
        TagCommand::Create(c) => {
            if c.all {
                Ok(Action::CreateAllTags { tag: c.tag, branch: c.branch, repositories: repos })
            } else {
                match c.repository {
                    Some(x) => Ok(Action::CreateTag { repository: x, tag: c.tag, branch: c.branch }),
                    None => Err(GitError::MissingRepositoryName),
                }
            }
        },
        TagCommand::Delete(c) => {
            if c.all {
                Ok(Action::DeleteAllTags { tag: c.tag, repositories: repos })
            } else {
                match c.repository {
                    Some(x) => Ok(Action::DeleteTag { repository: x, tag: c.tag }),
                    None => Err(GitError::MissingRepositoryName),
                }
            }
        },
        TagCommand::Sync(c) => {
            if c.all {
                Ok(Action::SyncAllTags { annotated: c.with_annotated, repositories: repos, fork_workaround })
            } else {
                match c.repository {
                    Some(x) => match workaround_parent(&fork_workaround, x.as_str()) {
                        Some(parent) => Ok(Action::SyncTags { repository: x, parent, annotated: c.with_annotated }),
                        None => Err(GitError::NoUpstreamRepo(x)),
                    },
                    None => Err(GitError::MissingRepositoryName),
                }
            }
        },
        TagCommand::Show(c) => {
            if c.all {
                Ok(Action::ShowAllTags { repositories: repos, filter: c.filter })
            } else {
                match c.repository {
                    Some(x) => Ok(Action::ShowTags { repository: x, filter: c.filter }),
                    None => Err(GitError::MissingRepositoryName),
                }
            }
        },
    }
}

/// What a branch command asks for. A command without `--all` or a repository asks for nothing.
pub fn plan_branch_command(cmd: BranchCommand, repos: Vec<String>, quiet: bool, dry_run: bool) -> (r: Action)
    ensures
        match cmd {
            BranchCommand::Create(c) => match c.base_branch {
                Some(base) => if c.all {
                    r matches Action::CreateAllBranches { base_branch, base_tag, new_branch, repositories, quiet: q }
                        && base_branch == base && base_tag@.len() == 0 && new_branch == c.new_branch && repositories == repos && q == quiet
                } else {
                    match c.repository {
                        Some(x) => r == (Action::CreateBranch { repository: x, base_branch: base, new_branch: c.new_branch, quiet }),
                        None => r is Nothing,
                    }
                },
                None => match c.base_tag {
                    Some(tag) => if c.all {
                        r matches Action::CreateAllBranches { base_branch, base_tag, new_branch, repositories, quiet: q }
                            && base_branch@.len() == 0 && base_tag == tag && new_branch == c.new_branch && repositories == repos && q == quiet
                    } else {
                        match c.repository {
                            Some(x) => r == (Action::CreateBranchFromTag { repository: x, tag, new_branch: c.new_branch, quiet }),
                            None => r is Nothing,
                        }
                    },
                    None => r is Nothing,
                },
            },
            BranchCommand::Delete(c) => if c.all {
                r == (Action::DeleteAllBranches { branch: c.branch, repositories: repos })
            } else {
                match c.repository {
                    Some(x) => r == (Action::DeleteBranch { repository: x, branch: c.branch }),
                    None => r is Nothing,
                }
            },
            BranchCommand::Modify(c) => if c.all {
                r == (Action::ChangeAllVersions {
                    branch: c.branch,
                    old_version: c.old,
                    new_version: c.new,
                    repositories: repos,
                    message: c.message,
                    dry_run,
                    is_version: !c.not_version,
                    quiet,
                })
            } else {
                match c.repository {
                    Some(x) => r == (Action::ChangeVersion {
                        repository: x,
                        branch: c.branch,
                        old_version: c.old,
                        new_version: c.new,
                        message: c.message,
                        dry_run,
                        is_version: !c.not_version,
                        quiet,
                    }),
                    None => r is Nothing,
                }
            },
            BranchCommand::Show(c) => if c.all {
                r == (Action::ShowAllBranches { repositories: repos, filter: c.filter })
            } else {
                match c.repository {
                    Some(x) => r == (Action::ShowBranches { repository: x, filter: c.filter }),
                    None => r is Nothing,
                }
            },
        },
{
    match cmd {
        BranchCommand::Create(c) => {
            match c.base_branch {
                Some(base) => {
                    if c.all {
                        Action::CreateAllBranches {
                            base_branch: base,
                            base_tag: String::new(),
                            new_branch: c.new_branch,
                            repositories: repos,
                            quiet,
                        }
                    } else {
                        match c.repository {
                            Some(x) => Action::CreateBranch { repository: x, base_branch: base, new_branch: c.new_branch, quiet },
                            None => Action::Nothing,
                        }
                    }
                },
                None => match c.base_tag {
                    Some(tag) => {
                        if c.all {
                            Action::CreateAllBranches {
                                base_branch: String::new(),
                                base_tag: tag,
                                new_branch: c.new_branch,
                                repositories: repos,
                                quiet,
                            }
                        } else {
                            match c.repository {
                                Some(x) => Action::CreateBranchFromTag { repository: x, tag, new_branch: c.new_branch, quiet },
                                None => Action::Nothing,
                            }
                        }
                    },
                    None => Action::Nothing,
                },
            }
        },
        BranchCommand::Delete(c) => {
            if c.all {
                Action::DeleteAllBranches { branch: c.branch, repositories: repos }
            } else {
                match c.repository {
                    Some(x) => Action::DeleteBranch { repository: x, branch: c.branch },
                    None => Action::Nothing,
                }
            }
        },
        BranchCommand::Modify(c) => {
            if c.all {
                Action::ChangeAllVersions {
                    branch: c.branch,
                    old_version: c.old,
                    new_version: c.new,
                    repositories: repos,
                    message: c.message,
                    dry_run,
                    is_version: !c.not_version,
                    quiet,
                }
            } else {
                match c.repository {
                    Some(x) => Action::ChangeVersion {
                        repository: x,
                        branch: c.branch,
                        old_version: c.old,
                        new_version: c.new,
                        message: c.message,
                        dry_run,
                        is_version: !c.not_version,
                        quiet,
                    },
                    None => Action::Nothing,
                }
            }
        },
        BranchCommand::Show(c) => {
            if c.all {
                Action::ShowAllBranches { repositories: repos, filter: c.filter }
            } else {
                match c.repository {
                    Some(x) => Action::ShowBranches { repository: x, filter: c.filter },
                    None => Action::Nothing,
                }
            }
        },
    }
}

/// The message for a fork that is configured for the workaround while the workaround is off.
pub open spec fn workaround_off_message(repository: Seq<char>) -> Seq<char> {
    "Repository '"@ + repository
        + "' has no configured parent. Use the '--with-fork-workaround' flag to enable syncing it."@
}

/// Whether the checks are the ones a check command asks for, with its filter compiled.
pub open spec fn checks_asked(checks: RepoChecks, c: crate::cli::CheckRepoCommand) -> bool {
    &&& checks.protected == c.protected
    &&& checks.license == c.license
    &&& checks.old_branches == (c.old_branches, c.days_ago)
    &&& match c.branch_filter {
        Some(f) => checks.branch_filter matches Some(p) && p@ == f@,
        None => checks.branch_filter is None,
    }
}

/// What a repository command asks for.
pub fn plan_repo_command(cmd: RepoCommand, ctx: Context) -> (r: Result<Action, GitError>)
    ensures
        match cmd {
            RepoCommand::Sync(c) => if c.all {
                if ctx.fork_workaround@.len() == 0 {
                    r == Ok::<Action, GitError>(Action::SyncAllForks { repositories: ctx.repositories, recursive: c.recursive })
                } else {
                    r == Ok::<Action, GitError>(Action::SyncAllForksWithWorkaround {
                        fork_workaround: ctx.fork_workaround,
                        repositories: ctx.repositories,
                        recursive: c.recursive,
                    })
                }
            } else {
                match c.repository {
                    Some(x) => match entry_for(ctx.fork_workaround@, x@) {
                        Some(p) => r matches Ok(Action::SyncWithUpstream { repository, parent })
                            && repository == x && parent@ == p@,
                        None => if strings_view(ctx.forks_with_workaround@).contains(x@) {
                            r matches Err(GitError::Other(m)) && m@ == workaround_off_message(x@)
                        } else if c.recursive {
                            r == Ok::<Action, GitError>(Action::SyncForkRecursive { repository: x })
                        } else {
                            r == Ok::<Action, GitError>(Action::SyncFork { repository: x, branch: c.branch })
                        },
                    },
                    None => r == Err::<Action, GitError>(GitError::MissingRepositoryName),
                }
            },
            RepoCommand::Check(c) => match c.branch_filter {
                Some(f) if !regex_accepts(f@) => r matches Err(e) && e is RegexError,
                _ => if c.all {
                    r matches Ok(Action::CheckAll { repositories, checks, branch_blacklist, license_blacklist })
                        && repositories == ctx.repositories && checks_asked(checks, c)
                        && branch_blacklist == ctx.branch_blacklist && license_blacklist == ctx.license_blacklist
                } else {
                    match c.repository {
                        Some(x) => r matches Ok(Action::Check { repository, checks, branch_blacklist, license_blacklist })
                            && repository == x && checks_asked(checks, c)
                            && branch_blacklist == ctx.branch_blacklist && license_blacklist == ctx.license_blacklist,
                        None => r == Err::<Action, GitError>(GitError::MissingRepositoryName),
                    }
                },
            },
        },
{
    match cmd {
        RepoCommand::Sync(c) => {
            if c.all {
                if ctx.fork_workaround.len() == 0 {
                    Ok(Action::SyncAllForks { repositories: ctx.repositories, recursive: c.recursive })
                } else {
                    Ok(Action::SyncAllForksWithWorkaround {
                        fork_workaround: ctx.fork_workaround,
                        repositories: ctx.repositories,
                        recursive: c.recursive,
                    })
                }
            } else {
                match c.repository {
                    Some(x) => match workaround_parent(&ctx.fork_workaround, x.as_str()) {
                        Some(parent) => Ok(Action::SyncWithUpstream { repository: x, parent }),
                        None => {
                            if contains_string(&ctx.forks_with_workaround, x.as_str()) {
                                let mut m = owned("Repository '");
                                m.append(x.as_str());
                                m.append(
                                    "' has no configured parent. Use the '--with-fork-workaround' flag to enable syncing it.",
                                );
                                Err(GitError::Other(m))
                            } else if c.recursive {
                                Ok(Action::SyncForkRecursive { repository: x })
                            } else {
                                Ok(Action::SyncFork { repository: x, branch: c.branch })
                            }
                        },
                    },
                    None => Err(GitError::MissingRepositoryName),
                }
            }
        },
        RepoCommand::Check(c) => {
            let branch_filter = match &c.branch_filter {
                Some(f) => Some(get_or_compile(f.as_str())?),
                None => None,
            };
            let checks = RepoChecks {
                protected: c.protected,
                license: c.license,
                old_branches: (c.old_branches, c.days_ago),
                branch_filter,
            };
            if c.all {
                Ok(Action::CheckAll {
                    repositories: ctx.repositories,
                    checks,
                    branch_blacklist: ctx.branch_blacklist,
                    license_blacklist: ctx.license_blacklist,
                })
            } else {
                match c.repository {
                    Some(x) => Ok(Action::Check {
                        repository: x,
                        checks,
                        branch_blacklist: ctx.branch_blacklist,
                        license_blacklist: ctx.license_blacklist,
                    }),
                    None => Err(GitError::MissingRepositoryName),
                }
            }
        },
    }
}

/// Whether `!len > 0` holds (the bitwise complement of the length is positive), the test
/// that decides whether a single pull request is opened: it fails only for the largest `usize`.
pub open spec fn single_pr_allowed(len: usize) -> bool {
    (!len) > 0
}

/// What a pull request command asks for. Without `--all` a single pull request is opened, for
/// the given repository or an empty one, since its test (`!len > 0` on the repository's
/// length) holds for every length a string can have.
pub fn plan_pr_command(cmd: PRCommand, repos: Vec<String>) -> (r: Result<Action, GitError>)
    ensures
        match cmd {
            PRCommand::Open(c) => {
                let repository = match c.repository { Some(x) => x@, None => seq![] };
                let options_ok = |o: CreatePrOptions| {
                    &&& o.url@ == repository
                    &&& o.head == c.head
                    &&& o.base == c.base
                    &&& o.title == c.title
                    &&& o.body == c.body
                    &&& o.reviewers == c.reviewers
                    &&& o.should_merge == c.merge
                };
                let merge_ok = |m: Option<MergePrOptions>| if c.merge {
                    m matches Some(mo) && mo.url@ == repository && mo.pr_number == 0
                        && mo.method == c.merge_method && mo.title == c.merge_title
                        && mo.message == c.merge_body && mo.sha == c.sha && !mo.force
                } else {
                    m is None
                };
                if c.all {
                    r matches Ok(Action::CreateAllPrs { options, merge, repositories })
                        && options_ok(options) && merge_ok(merge) && repositories == repos
                } else if single_pr_allowed(repository.len() as usize) {
                    r matches Ok(Action::CreatePr { options, merge }) && options_ok(options) && merge_ok(merge)
                } else {
                    r == Err::<Action, GitError>(GitError::MissingRepositoryName)
                }
            },
        },
{
    match cmd {
        PRCommand::Open(c) => {
            let repository = match c.repository {
                Some(x) => x,
                None => String::new(),
            };
            let merge = if c.merge {
                Some(MergePrOptions {
                    url: owned(repository.as_str()),
                    pr_number: 0,
                    method: c.merge_method,
                    title: c.merge_title,
                    message: c.merge_body,
                    sha: c.sha,
                    force: false,
                })
            } else {
                None
            };
            let len = repository.unicode_len();
            let options = CreatePrOptions {
                url: repository,
                head: c.head,
                base: c.base,
                title: c.title,
                body: c.body,
                reviewers: c.reviewers,
                should_merge: c.merge,
            };
            if c.all {
                Ok(Action::CreateAllPrs { options, merge, repositories: repos })
            } else if !len > 0 {
                Ok(Action::CreatePr { options, merge })
            } else {
                Err(GitError::MissingRepositoryName)
            }
        },
    }
}

/// The merge to make once a pull request was opened as `created` (its number and head commit):
/// none when no pull request was opened or no merge was asked for; otherwise the requested merge
/// of that pull request, at the commit given on the command line or else at the head commit.
pub fn merge_after_create(merge: Option<MergePrOptions>, created: Option<(u64, String)>, cli_sha: Option<String>) -> (r: Option<MergePrOptions>)
    ensures
        created is None || merge is None ==> r is None,
        created matches Some((n, sha)) ==> (merge matches Some(m) ==> (r matches Some(o)
            && o.url == m.url && o.method == m.method && o.title == m.title && o.message == m.message
            && o.force == m.force
            && o.pr_number == n && o.sha == if cli_sha is Some { cli_sha } else { Some(sha) })),
{
    match created {
        None => None,
        Some((pr_number, sha)) => match merge {
            None => None,
            Some(m) => {
                let sha = match cli_sha {
                    Some(s) => Some(s),
                    None => Some(sha),
                };
                Some(MergePrOptions {
                    url: m.url,
                    pr_number,
                    method: m.method,
                    title: m.title,
                    message: m.message,
                    sha,
                    force: m.force,
                })
            },
        },
    }
}

/// What a release command asks for. A command without `--all` or a repository asks for nothing.
pub fn plan_release_command(cmd: ReleaseCommand, repos: Vec<String>) -> (r: Action)
    ensures
        match cmd {
            ReleaseCommand::Create(c) => if c.all {
                r == (Action::CreateAllReleases {
                    current: c.current_release,
                    previous: c.previous_release,
                    name: c.release_name,
                    repositories: repos,
                    ignore_previous_tag: c.skip_missing_tag,
                })
            } else {
                match c.repository {
                    Some(x) => r == (Action::CreateRelease {
                        repository: x,
                        current: c.current_release,
                        previous: c.previous_release,
                        name: c.release_name,
                        ignore_previous_tag: c.skip_missing_tag,
                    }),
                    None => r is Nothing,
                }
            },
        },
{
    match cmd {
        ReleaseCommand::Create(c) => {
            if c.all {
                Action::CreateAllReleases {
                    current: c.current_release,
                    previous: c.previous_release,
                    name: c.release_name,
                    repositories: repos,
                    ignore_previous_tag: c.skip_missing_tag,
                }
            } else {
                match c.repository {
                    Some(x) => Action::CreateRelease {
                        repository: x,
                        current: c.current_release,
                        previous: c.previous_release,
                        name: c.release_name,
                        ignore_previous_tag: c.skip_missing_tag,
                    },
                    None => Action::Nothing,
                }
            }
        },
    }
}

/// Whether a backup is uploaded, as a backup command asks.
pub open spec fn upload_asked(upload: S3Upload, destination: BackupDestination, bucket: Option<String>) -> bool {
    if destination == BackupDestination::S3 {
        match bucket {
            Some(b) => upload == S3Upload::To(b),
            None => upload is MissingBucket,
        }
    } else {
        upload is Skip
    }
}

/// The keys of a list of pairs.
pub open spec fn pair_keys(v: Seq<(String, String)>) -> Seq<String> {
    v.map_values(|p: (String, String)| p.0)
}

/// What a backup command asks for: backups go to the given path or else the current
/// directory; with `--all` the forks under the workaround are backed up too. A command without
/// `--all` or a repository asks for nothing.
pub fn plan_backup_command(cmd: BackupCommand, ctx: Context) -> (r: Action)
    ensures
        match cmd {
            BackupCommand::Create(c) => {
                let path = match c.path { Some(p) => p, None => ctx.current_dir };
                if c.all {
                    r matches Action::BackupAll { repositories, path: p, upload }
                        && strings_view(repositories@) == strings_view(ctx.repositories@) + strings_view(pair_keys(ctx.fork_workaround@))
                        && p == path && upload_asked(upload, c.destination, c.bucket)
                } else {
                    match c.repository {
                        Some(x) => r matches Action::Backup { repository, path: p, upload }
                            && repository == x && p == path && upload_asked(upload, c.destination, c.bucket),
                        None => r is Nothing,
                    }
                }
            },
            BackupCommand::Clean(c) => r == (Action::PruneBackup { directory: c.directory }),
        },
{
    match cmd {
        BackupCommand::Create(c) => {
            let path = match c.path {
                Some(p) => p,
                None => ctx.current_dir,
            };
            let upload = if c.destination == BackupDestination::S3 {
                match c.bucket {
                    Some(b) => S3Upload::To(b),
                    None => S3Upload::MissingBucket,
                }
            } else {
                S3Upload::Skip
            };
            if c.all {
                let mut repositories = ctx.repositories;
                let ghost start = strings_view(repositories@);
                let ghost keys = strings_view(pair_keys(ctx.fork_workaround@));
                let mut i: usize = 0;
                while i < ctx.fork_workaround.len()
                    invariant
                        i <= ctx.fork_workaround@.len(),
                        keys == strings_view(pair_keys(ctx.fork_workaround@)),
                        strings_view(repositories@) == start + keys.subrange(0, i as int),
                    decreases ctx.fork_workaround@.len() - i,
                {
                    let ghost before = strings_view(repositories@);
                    repositories.push(owned(ctx.fork_workaround[i].0.as_str()));
                    assert(keys.subrange(0, i + 1) =~= keys.subrange(0, i as int).push(ctx.fork_workaround@[i as int].0@));
                    assert(strings_view(repositories@) =~= before.push(ctx.fork_workaround@[i as int].0@));
                    i += 1;
                }
                assert(keys.subrange(0, keys.len() as int) =~= keys);
                Action::BackupAll { repositories, path, upload }
            } else {
                match c.repository {
                    Some(x) => Action::Backup { repository: x, path, upload },
                    None => Action::Nothing,
                }
            }
        },
        BackupCommand::Clean(c) => Action::PruneBackup { directory: c.directory },
    }
}

/// What a command asks for, with the run's context.
pub fn plan_command(command: Command, ctx: Context) -> (r: Result<Action, GitError>)
    ensures
        match command {
            Command::Tag { cmd } => call_ensures(plan_tag_command, (cmd, ctx.repositories, ctx.fork_workaround), r),
            Command::Branch { cmd } => r matches Ok(a) && call_ensures(plan_branch_command, (cmd, ctx.repositories, ctx.quiet, ctx.dry_run), a),
            Command::Repo { cmd } => call_ensures(plan_repo_command, (cmd, ctx), r),
            Command::Release { cmd } => r matches Ok(a) && call_ensures(plan_release_command, (cmd, ctx.repositories), a),
            Command::PR { cmd } => call_ensures(plan_pr_command, (cmd, ctx.repositories), r),
            Command::Backup { cmd } => r matches Ok(a) && call_ensures(plan_backup_command, (cmd, ctx), a),
            Command::Config { file, force } => r == Ok::<Action, GitError>(Action::GenerateConfig { file, force }),
            Command::Generate { kind, out } => if kind@ == "bash"@ || kind@ == "zsh"@ || kind@ == "fish"@ {
                r == Ok::<Action, GitError>(Action::GenerateCompletions { shell: kind, out })
            } else if kind@ == "man"@ {
                r == Ok::<Action, GitError>(Action::GenerateManPages { out })
            } else {
                r == Ok::<Action, GitError>(Action::Nothing)
            },
        },
{
    match command {
        Command::Tag { cmd } => plan_tag_command(cmd, ctx.repositories, ctx.fork_workaround),
        Command::Branch { cmd } => Ok(plan_branch_command(cmd, ctx.repositories, ctx.quiet, ctx.dry_run)),
        Command::Repo { cmd } => plan_repo_command(cmd, ctx),
        Command::Release { cmd } => Ok(plan_release_command(cmd, ctx.repositories)),
        Command::PR { cmd } => plan_pr_command(cmd, ctx.repositories),
        Command::Backup { cmd } => Ok(plan_backup_command(cmd, ctx)),
        Command::Config { file, force } => Ok(Action::GenerateConfig { file, force }),
        Command::Generate { kind, out } => {
            proof {
                reveal_strlit("bash");
                reveal_strlit("zsh");
                reveal_strlit("fish");
                reveal_strlit("man");
            }
            if str_eq(kind.as_str(), "bash") || str_eq(kind.as_str(), "zsh") || str_eq(kind.as_str(), "fish") {
                Ok(Action::GenerateCompletions { shell: kind, out })
            } else if str_eq(kind.as_str(), "man") {
                Ok(Action::GenerateManPages { out })
            } else {
                Ok(Action::Nothing)
            }
        },
    }
}

} // verus!
