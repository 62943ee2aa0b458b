use git_sync::cli::{
    check_args, parse_usize, validate_jobs, AppArgs, BackupDestination, Command, CompareTagCommand,
    CreateTagCommand, MakeLatest, RepoCommand, RepositoryType, SyncRepoCommand, SyncTagCommand,
    TagCommand,
};
use git_sync::config::{config_search_paths, Config, CONFIG_NAME};
use git_sync::error::{categorize, is_retryable, rate_limit_notice, ApiErrorKind, ApiFailure, ErrorCategory, GitError};
use git_sync::github::commands::{
    job_count, plan_tag_command, select_repositories, select_token, select_webhook,
    unique_repositories, Action,
};

fn s(v: &[&str]) -> Vec<String> {
    v.iter().map(|x| x.to_string()).collect()
}

fn args(repository_type: RepositoryType, command: Command, with_fork_workaround: bool) -> AppArgs {
    AppArgs {
        token: None,
        file: None,
        repository_type,
        repository_group: None,
        command,
        quiet: false,
        verbose: false,
        jobs: None,
        with_fork_workaround,
        slack: false,
        dry_run: false,
        slack_webhook: None,
    }
}

fn sync_all(recursive: bool, force: bool) -> Command {
    Command::Repo {
        cmd: RepoCommand::Sync(SyncRepoCommand { repository: None, all: true, recursive, force, branch: None }),
    }
}

fn failure(kind: ApiErrorKind, status: Option<u16>, message: &str) -> ApiFailure {
    ApiFailure {
        kind,
        status,
        message: message.to_string(),
        details: vec!["first detail".to_string()],
        display: message.to_string(),
        debug: format!("GitHub {{ message: {message:?} }}"),
        network: false,
        broken_pipe: false,
    }
}

#[test]
fn jobs_must_be_between_one_and_sixty_four() {
    assert_eq!(validate_jobs("1"), Ok(1));
    assert_eq!(validate_jobs("64"), Ok(64));
    assert_eq!(validate_jobs("+8"), Ok(8));
    assert_eq!(validate_jobs("0"), Err("Jobs must be between 1 and 64".to_string()));
    assert_eq!(validate_jobs("65"), Err("Jobs must be between 1 and 64".to_string()));
    assert_eq!(validate_jobs("x"), Err("'x' is not a valid positive integer".to_string()));
    assert_eq!(validate_jobs("-1"), Err("'-1' is not a valid positive integer".to_string()));
}

#[test]
fn usize_parsing_follows_the_standard_library() {
    for text in ["0", "7", "+7", "0042", "18446744073709551615", "", "+", "-3", " 1", "1a", "18446744073709551616"] {
        assert_eq!(parse_usize(text), text.parse::<usize>().ok(), "{text}");
    }
}

#[test]
fn job_count_defaults_to_the_machine_and_is_at_least_one() {
    assert_eq!(job_count(None, 12), 12);
    assert_eq!(job_count(Some(4), 12), 4);
    assert_eq!(job_count(None, 0), 1);
}

#[test]
fn recursive_sync_of_all_needs_force() {
    let r = check_args(&args(RepositoryType::All, sync_all(true, false), false)).unwrap_err();
    assert_eq!(r.exit_code, 1);
    assert_eq!(r.message, "Error: when syncing repositories, --force is required when --all and --recursive are set.");
    assert!(check_args(&args(RepositoryType::All, sync_all(true, true), false)).is_ok());
}

#[test]
fn fork_workaround_needs_all_or_fork() {
    let r = check_args(&args(RepositoryType::Public, sync_all(false, false), true)).unwrap_err();
    assert_eq!(r.exit_code, 2);
    assert!(check_args(&args(RepositoryType::Fork, sync_all(false, false), true)).is_ok());
    assert!(check_args(&args(RepositoryType::All, sync_all(false, false), true)).is_ok());
}

#[test]
fn option_names() {
    assert_eq!(BackupDestination::Local.as_str(), "local");
    assert_eq!(BackupDestination::S3.as_str(), "s3");
    assert_eq!(MakeLatest::True.as_str(), "true");
    assert_eq!(MakeLatest::False.as_str(), "false");
    assert_eq!(MakeLatest::Legacy.as_str(), "legacy");
}

#[test]
fn configuration_lookup_and_defaults() {
    assert_eq!(config_search_paths(None), s(&[CONFIG_NAME]));
    assert_eq!(config_search_paths(Some("/home/u")), s(&["git-manage.toml", "/home/u/.config/git-manage.toml"]));
    let mut config = Config::default();
    config.github.token = Some("from-file".to_string());
    config.info.name = Some("Config Name".to_string());
    config.info.email = Some("c@example.com".to_string());
    config.git.owner = Some("acceldata-io".to_string());
    assert_eq!(config.get_github_token(Some("env".to_string())), Some("env".to_string()));
    assert_eq!(config.get_github_token(None), Some("from-file".to_string()));
    let user = config.get_user_info(Some("Env Name".to_string()), None).unwrap();
    assert_eq!(user.name, "Env Name");
    assert_eq!(user.email, "c@example.com");
    assert!(Config::default().get_user_info(Some("n".to_string()), None).is_none());
    assert_eq!(config.get_owner(None), Some("acceldata-io".to_string()));
}

#[test]
fn repositories_are_selected_by_kind() {
    let mut config = Config::default();
    config.repos.public = Some(s(&["o/pub"]));
    config.repos.fork = Some(s(&["o/fork"]));
    config.repos.private = Some(s(&["o/priv"]));
    config.repos.custom = Some(vec![("team".to_string(), s(&["o/a", "o/b"])), ("empty".to_string(), Vec::new())]);
    assert_eq!(select_repositories(RepositoryType::All, &None, &config).unwrap(), s(&["o/pub", "o/fork", "o/priv"]));
    assert_eq!(select_repositories(RepositoryType::Fork, &None, &config).unwrap(), s(&["o/fork"]));
    assert_eq!(select_repositories(RepositoryType::Custom, &Some("team".to_string()), &config).unwrap(), s(&["o/a", "o/b"]));
    assert!(matches!(select_repositories(RepositoryType::Custom, &Some("nope".to_string()), &config), Err(GitError::Other(m)) if m == "Custom group 'nope' not found"));
    assert!(matches!(select_repositories(RepositoryType::Custom, &Some("empty".to_string()), &config), Err(GitError::Other(m)) if m == "No repositories found for custom group 'empty'"));
    assert_eq!(config.get_all_repositories(), s(&["o/pub", "o/fork", "o/priv"]));
}

#[test]
fn repositories_are_deduplicated_in_order() {
    assert_eq!(unique_repositories(s(&["b", "a", "b", "c", "a"])), s(&["b", "a", "c"]));
}

#[test]
fn token_and_webhook_selection() {
    let generate = Command::Generate { kind: "bash".to_string(), out: None };
    assert_eq!(select_token(&generate, None, None).unwrap(), "");
    let tag = Command::Tag { cmd: TagCommand::Compare(CompareTagCommand { repository: None, parent: None, all: true }) };
    assert_eq!(select_token(&tag, Some("cli".to_string()), Some("cfg".to_string())).unwrap(), "cli");
    assert_eq!(select_token(&tag, None, Some("cfg".to_string())).unwrap(), "cfg");
    assert!(matches!(select_token(&tag, None, None), Err(GitError::MissingToken)));
    assert_eq!(select_webhook(Some("a".to_string()), Some("b".to_string())), Some("a".to_string()));
    assert_eq!(select_webhook(None, Some("b".to_string())), Some("b".to_string()));
}

#[test]
fn tag_commands_are_planned() {
    let repos = s(&["o/a", "o/b"]);
    let create = TagCommand::Create(CreateTagCommand { tag: "v1".to_string(), branch: "main".to_string(), repository: Some("o/a".to_string()), all: false });
    assert!(matches!(plan_tag_command(create, repos.clone(), Vec::new()), Ok(Action::CreateTag { repository, tag, branch }) if repository == "o/a" && tag == "v1" && branch == "main"));
    let compare_none = TagCommand::Compare(CompareTagCommand { repository: None, parent: None, all: true });
    assert!(matches!(plan_tag_command(compare_none, Vec::new(), Vec::new()), Err(GitError::NoReposConfigured)));
    let sync = TagCommand::Sync(SyncTagCommand { repository: Some("o/fork".to_string()), all: false, with_annotated: true });
    let workaround = vec![("o/fork".to_string(), "up/stream".to_string())];
    assert!(matches!(plan_tag_command(sync.clone(), repos.clone(), workaround), Ok(Action::SyncTags { parent, annotated: true, .. }) if parent == "up/stream"));
    assert!(matches!(plan_tag_command(sync, repos, Vec::new()), Err(GitError::NoUpstreamRepo(r)) if r == "o/fork"));
}

#[test]
fn api_failures_are_classified() {
    assert!(is_retryable(&failure(ApiErrorKind::GitHub, Some(502), "bad gateway")));
    assert!(!is_retryable(&failure(ApiErrorKind::GitHub, Some(404), "not found")));
    assert!(is_retryable(&failure(ApiErrorKind::Hyper, None, "reset")));
    assert_eq!(categorize(false, Some(404)), ErrorCategory::NotFound);
    assert_eq!(categorize(false, Some(403)), ErrorCategory::Auth);
    assert_eq!(categorize(false, Some(429)), ErrorCategory::RateLimit);
    assert_eq!(categorize(false, Some(422)), ErrorCategory::Input);
    assert_eq!(categorize(false, Some(503)), ErrorCategory::Server);
    assert_eq!(categorize(true, Some(404)), ErrorCategory::Network);
    assert_eq!(categorize(false, None), ErrorCategory::Unknown);
    assert_eq!(
        rate_limit_notice(&failure(ApiErrorKind::GitHub, Some(403), "API rate limit exceeded")),
        Some("Rate limited by GitHub API: API rate limit exceeded".to_string())
    );
    assert!(rate_limit_notice(&failure(ApiErrorKind::GitHub, Some(403), "forbidden")).is_none());
}

#[test]
fn errors_are_described_and_explained() {
    assert_eq!(GitError::NotAFork.message(), "Repository is not a fork");
    assert_eq!(GitError::PRNotMergeable(5).message(), "PR #5 not mergeable");
    let several = GitError::MultipleErrors(vec![
        ("a".to_string(), GitError::NoSuchTag("v1".to_string())),
        ("b".to_string(), GitError::Other("boom".to_string())),
    ]);
    assert_eq!(several.message(), r#"Multiple errors: [("a", NoSuchTag("v1")), ("b", Other("boom"))]"#);
    assert_eq!(several.debug_string(), format!("{several:?}"));
    let nested = GitError::MultipleErrors(vec![
        ("say \"hi\"".to_string(), GitError::NoSuchPR { repository: "o/r".to_string(), head: "h".to_string(), base: "b\n".to_string() }),
        ("inner".to_string(), several),
        ("n".to_string(), GitError::PRNotMergeable(7)),
        ("u".to_string(), GitError::NotAFork),
    ]);
    assert_eq!(nested.debug_string(), format!("{nested:?}"));
    assert_eq!(nested.message(), format!("Multiple errors: {:?}", match &nested {
        GitError::MultipleErrors(v) => v,
        _ => unreachable!(),
    }));
    let user = GitError::GithubApiError(failure(ApiErrorKind::GitHub, Some(404), "Not Found")).to_user_error();
    assert_eq!(user.code, Some(404));
    assert_eq!(user.message, "Not Found\n- first detail");
    assert_eq!(user.suggestion, Some("Check the repository or resource name.".to_string()));
    let pr = GitError::PRNotMergeable(12).to_user_error();
    assert_eq!(pr.message, "PR #12 cannot be merged automatically");
    assert!(!GitError::NotAFork.is_broken_pipe());
}
