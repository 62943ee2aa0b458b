use git_sync::error::{ApiErrorKind, ApiFailure, GitError};
use git_sync::github::backup::{
    backup_command, backup_location, last_path_piece, prune_argument, prune_check,
    repositories_to_back_up, s3_object_url, sort_parts, upload_kind, UploadKind, PART_SIZE,
};
use git_sync::github::branch::{
    dashed_version, hadoop_version, is_bigtop_version_change, modification_message,
    new_build_number, new_odp_version, push_outcome, renamed_package_file, PushOutcome,
};
use git_sync::github::check::{add_branch_page, check_problems, stale_branches, with_dates, BranchNode, CommitTime, NANOS_PER_DAY};
use git_sync::github::client::{parent_repo_info, slack_report, sort_strings, webhook_url, ParentInfo};
use git_sync::github::compare_tag_names;
use git_sync::github::fork::{
    branches_to_sync, count_up_to_date, shared_remote_branches, upstream_sync_message,
    upstream_sync_result,
};
use git_sync::github::manifest::{dry_run_lines, outcome_line, plan_outcome};
use git_sync::github::outcomes::gather;
use git_sync::github::pr::{
    after_open, after_refused_merge, existing_pr_number, forced_merge_head, is_blocked_by_branch_rules,
    latest_commit_sha, pr_to_merge, worth_opening, OpenOutcome,
};
use git_sync::github::release::{
    capitalize, commit_first_line, join_strings, notes_or_fallback, release_notes, release_title,
};
use git_sync::github::tag::{
    add_tag_page, compare_tags, contains_tag_name, partition_tags, sync_message, TagNode, TagTarget,
};
use git_sync::manifest::ManifestRefPlan;
use git_sync::utils::filter::get_or_compile;
use git_sync::utils::repo::{LicenseInfo, TagInfo, TagType};

fn s(v: &[&str]) -> Vec<String> {
    v.iter().map(|x| x.to_string()).collect()
}

fn tag(name: &str, kind: TagType) -> TagInfo {
    TagInfo { name: name.to_string(), tag_type: kind, sha: format!("sha-{name}"), url: String::new(), commit_sha: None }
}

fn api_failure(kind: ApiErrorKind, status: Option<u16>, message: &str) -> ApiFailure {
    ApiFailure {
        kind,
        status,
        message: message.to_string(),
        details: Vec::new(),
        display: message.to_string(),
        debug: format!("GitHub {{ message: {message:?} }}"),
        network: false,
        broken_pipe: false,
    }
}

fn hadoop_plan() -> ManifestRefPlan {
    ManifestRefPlan {
        component: "hadoop".to_string(),
        repository: "https://github.com/acceldata-io/hadoop".to_string(),
        source_branch: "nightly/ODP-3.3.6.5".to_string(),
        target_ref: "rel/ODP-3.3.6.6-1".to_string(),
        sha: "68e511577e6e77e3f47427d05643d076bfe896ca".to_string(),
    }
}

#[test]
fn dry_run_plan_does_not_require_a_client() {
    let plan = vec![hadoop_plan()];
    let lines = dry_run_lines("branch", &plan);
    assert_eq!(lines.len(), 2);
    assert_eq!(lines[0], "DRY RUN: 1 branch reference(s) would be created");
    assert_eq!(
        lines[1],
        "hadoop\thttps://github.com/acceldata-io/hadoop\tnightly/ODP-3.3.6.5\trel/ODP-3.3.6.6-1\t68e511577e6e77e3f47427d05643d076bfe896ca"
    );
}

#[test]
fn outcome_lines_report_success_and_failure() {
    let op = hadoop_plan();
    assert_eq!(
        outcome_line("tag", &op, &Ok(())),
        "Successfully created tag 'rel/ODP-3.3.6.6-1' for hadoop (https://github.com/acceldata-io/hadoop)"
    );
    let failed = outcome_line("tag", &op, &Err(GitError::Other("boom".to_string())));
    assert!(failed.starts_with("Failed to create tag 'rel/ODP-3.3.6.6-1' for hadoop ("));
    assert!(failed.ends_with(": boom"));
}

#[test]
fn plan_outcome_collects_failures_by_component() {
    assert!(plan_outcome(vec![(hadoop_plan(), Ok(()))]).is_ok());
    let r = plan_outcome(vec![(hadoop_plan(), Err(GitError::NotAFork)), (hadoop_plan(), Ok(()))]);
    match r {
        Err(GitError::MultipleErrors(errors)) => {
            assert_eq!(errors.len(), 1);
            assert_eq!(errors[0].0, "hadoop");
            assert!(matches!(errors[0].1, GitError::NotAFork));
        },
        other => panic!("unexpected {other:?}"),
    }
}

#[test]
fn gather_keeps_successes_in_order_or_reports_all_failures() {
    let ok: Vec<(String, Result<u32, GitError>)> = vec![("a".to_string(), Ok(1)), ("b".to_string(), Ok(2))];
    assert_eq!(gather(ok).unwrap(), vec![("a".to_string(), 1), ("b".to_string(), 2)]);
    let mixed: Vec<(String, Result<u32, GitError>)> = vec![
        ("a".to_string(), Ok(1)),
        ("b".to_string(), Err(GitError::MissingToken)),
        ("c".to_string(), Err(GitError::NotAFork)),
    ];
    match gather(mixed) {
        Err(GitError::MultipleErrors(errors)) => {
            assert_eq!(errors.len(), 2);
            assert_eq!(errors[0].0, "b");
            assert_eq!(errors[1].0, "c");
        },
        other => panic!("unexpected {other:?}"),
    }
}

#[test]
fn missing_tag_names_are_sorted_and_distinct() {
    let r = compare_tag_names(s(&["v1", "v3"]), s(&["v4", "v1", "v2", "v4", "v3"]));
    assert_eq!(r.missing_in_fork, s(&["v2", "v4"]));
    assert_eq!(r.fork_tags, s(&["v1", "v3"]));
    assert_eq!(r.parent_tags.len(), 5);
}

#[test]
fn compare_tags_finds_the_parents_tags_the_fork_lacks() {
    let fork = vec![tag("v1", TagType::Lightweight)];
    let parent = vec![tag("v1", TagType::Lightweight), tag("v2", TagType::Annotated), tag("v3", TagType::Lightweight)];
    let c = compare_tags(&fork, s(&["https://p"]), &parent, &s(&["https://p", "https://q"]));
    let names: Vec<&str> = c.missing_in_fork.iter().map(|t| t.name.as_str()).collect();
    assert_eq!(names, vec!["v2", "v3"]);
    assert_eq!(c.parent_urls, s(&["https://p", "https://q"]));
    assert!(contains_tag_name(&parent, "v3"));
    assert!(!contains_tag_name(&fork, "v3"));
}

#[test]
fn partition_separates_lightweight_from_annotated() {
    let tags = vec![tag("a", TagType::Annotated), tag("b", TagType::Lightweight), tag("c", TagType::Annotated)];
    let (light, annotated) = partition_tags(&tags);
    assert_eq!(light.len() + annotated.len(), tags.len());
    assert_eq!(light[0].name, "b");
    assert_eq!(annotated[0].name, "a");
    assert_eq!(annotated[1].name, "c");
}

#[test]
fn tag_pages_are_read_and_unknown_types_refused() {
    let nodes = vec![
        TagNode { name: "v1".to_string(), target: TagTarget { typename: "Commit".to_string(), oid: "c1".to_string(), target: None } },
        TagNode {
            name: "v2".to_string(),
            target: TagTarget {
                typename: "Tag".to_string(),
                oid: "t2".to_string(),
                target: Some(Box::new(TagTarget { typename: "Commit".to_string(), oid: "c2".to_string(), target: None })),
            },
        },
    ];
    let mut tags = Vec::new();
    let mut parents = Vec::new();
    add_tag_page(&mut tags, &mut parents, "https://github.com/o/r", Some("https://github.com/p/r"), &nodes).unwrap();
    assert_eq!(tags.len(), 2);
    assert_eq!(tags[0].tag_type, TagType::Lightweight);
    assert_eq!(tags[1].tag_type, TagType::Annotated);
    assert_eq!(parents, s(&["https://github.com/p/r"]));
    let bad = vec![TagNode { name: "x".to_string(), target: TagTarget { typename: "Blob".to_string(), oid: "b".to_string(), target: None } }];
    match add_tag_page(&mut tags, &mut parents, "u", None, &bad) {
        Err(GitError::Other(m)) => assert_eq!(m, "Unknown tag type 'Blob'"),
        other => panic!("unexpected {other:?}"),
    }
}

#[test]
fn sync_message_lists_tags_by_kind() {
    let annotated = vec![tag("v2", TagType::Annotated)];
    let light = vec![tag("v1", TagType::Lightweight), tag("v3", TagType::Lightweight)];
    let m = sync_message("o", "r", 3, true, &annotated, &light);
    assert!(m.starts_with(":white_check_mark: Synced 3 tags for o/r\n"));
    assert!(m.contains("Of which 1 is an annotated tag:\n"));
    assert!(m.contains("\nAnd 2 is a lightweight tag:\n"));
    assert!(m.contains("`v1`"));
}

fn at(secs: i64, nanos: u32, date: &str) -> CommitTime {
    CommitTime { secs, nanos, date: date.to_string() }
}

#[test]
fn stale_branches_are_old_unlisted_and_oldest_first() {
    let day: i64 = 86_400;
    let now = 100 * day;
    let branches = vec![
        ("recent".to_string(), at(now - 2 * day, 0, "d98")),
        ("old".to_string(), at(now - 40 * day, 0, "d60")),
        ("older".to_string(), at(now - 60 * day, 0, "d40")),
        ("main".to_string(), at(now - 90 * day, 0, "d10")),
    ];
    let r = stale_branches(&branches, now, 0, 30, &s(&["main"]));
    assert_eq!(r, vec![("older".to_string(), at(now - 60 * day, 0, "d40")), ("old".to_string(), at(now - 40 * day, 0, "d60"))]);
    assert_eq!(NANOS_PER_DAY, 86_400_000_000_000);
}

#[test]
fn stale_age_counts_whole_days_with_nanoseconds() {
    let day: i64 = 86_400;
    let branches = vec![
        ("just_short".to_string(), at(0, 1, "a")),
        ("exact".to_string(), at(0, 0, "b")),
    ];
    // At 30 days, the branch committed one nanosecond after the epoch is 29 whole days old.
    let r = stale_branches(&branches, 30 * day, 0, 30, &Vec::new());
    assert_eq!(r, vec![("exact".to_string(), at(0, 0, "b"))]);
    // Same second: the earlier nanosecond comes first.
    let r = stale_branches(&vec![("b".to_string(), at(5, 2, "x")), ("a".to_string(), at(5, 1, "x"))], 40 * day, 0, 30, &Vec::new());
    assert_eq!(r[0].0, "a");
}

#[test]
fn branch_pages_keep_the_latest_date_of_matching_names() {
    let nodes = vec![
        BranchNode { name: "rel/1".to_string(), committed_date: Some("2024-01-02T00:00:00Z".to_string()) },
        BranchNode { name: "feature".to_string(), committed_date: Some("2024-01-03T00:00:00Z".to_string()) },
        BranchNode { name: "rel/2".to_string(), committed_date: None },
        BranchNode { name: "rel/far".to_string(), committed_date: Some("2300-05-06T07:08:09.5Z".to_string()) },
    ];
    let filter = get_or_compile("^rel/").unwrap();
    let mut branches = Vec::new();
    add_branch_page(&mut branches, &nodes, Some(&filter)).unwrap();
    assert_eq!(branches.len(), 2);
    assert_eq!(branches[0].0, "rel/1");
    assert_eq!(branches[0].1, at(1_704_153_600, 0, "2024-01-02"));
    assert_eq!(branches[1].0, "rel/far");
    assert_eq!(branches[1].1.date, "2300-05-06");
    assert_eq!(branches[1].1.nanos, 500_000_000);
    let dated = with_dates(&branches);
    assert_eq!(dated, vec![("rel/1".to_string(), "2024-01-02".to_string()), ("rel/far".to_string(), "2300-05-06".to_string())]);
}

#[test]
fn check_problems_reports_license_and_stale_branches() {
    let license = Some(LicenseInfo { name: Some("GPL".to_string()), spdx_id: Some("GPL-3.0".to_string()) });
    let branches = vec![("old".to_string(), "2020-01-01".to_string()), ("keep".to_string(), "2020-01-01".to_string())];
    let p = check_problems("o/r", &license, &branches, &s(&["keep"]), &s(&["GPL-3.0"]));
    assert_eq!(p, s(&["Blacklisted license GPL-3.0 used in o/r", "Repository o/r has 1 stale branches"]));
    assert!(check_problems("o/r", &None, &Vec::new(), &Vec::new(), &Vec::new()).is_empty());
}

#[test]
fn release_notes_sort_lines_into_sections() {
    let lines = s(&["KUDU-123 fix scanner", "Fix CVE-2024-1", "ODP-42 bump version", "tidy up"]);
    let notes = release_notes("kudu", "ODP-3.3.6.6-1-tag", &lines).unwrap();
    assert_eq!(notes.name, "# Release Notes for Kudu 3.3.6.6-1");
    assert_eq!(
        notes.body,
        "# Release Notes for Kudu 3.3.6.6-1\n### ODP Changes\n* ODP-42 bump version\n### CVE related changes\n* Fix CVE-2024-1\n### Changes from Kudu\n* KUDU-123 fix scanner\n### Other changes\n* tidy up"
    );
}

#[test]
fn release_helpers() {
    assert_eq!(capitalize("kudu"), "Kudu");
    assert_eq!(capitalize(""), "");
    assert_eq!(commit_first_line("first\nsecond"), Some("first".to_string()));
    assert_eq!(join_strings(&s(&["a", "b", "c"]), ", "), "a, b, c");
    assert_eq!(release_title(Some("Named"), "v1"), "Named");
    assert_eq!(release_title(None, "v1"), "v1");
    let fallback = notes_or_fallback(Err(GitError::MissingToken), true, "v2", "v1").unwrap();
    assert_eq!(fallback.name, "v2");
    assert!(fallback.body.is_empty());
    assert!(matches!(notes_or_fallback(Err(GitError::MissingToken), false, "v2", "v1"), Err(GitError::NoSuchTag(t)) if t == "v1"));
}

#[test]
fn fork_branches_behind_their_parent_are_synced() {
    let parent = vec![
        ("main".to_string(), "2024-02-01T00:00:00Z".to_string()),
        ("dev".to_string(), "2024-01-01T00:00:00Z".to_string()),
        ("only-parent".to_string(), "2024-01-01T00:00:00Z".to_string()),
    ];
    let fork = vec![
        ("main".to_string(), "2024-01-15T00:00:00Z".to_string()),
        ("dev".to_string(), "2024-01-01T00:00:00Z".to_string()),
    ];
    assert_eq!(branches_to_sync(&parent, &fork).unwrap(), s(&["main"]));
    let broken = vec![("main".to_string(), "yesterday".to_string())];
    assert!(matches!(branches_to_sync(&broken, &fork), Err(GitError::DateParseError(_))));
}

#[test]
fn remote_branch_listing_and_merge_output() {
    let listing = "  origin/main\n  origin/dev\n  upstream/main\n  upstream/other\n  origin/HEAD -> origin/main";
    assert_eq!(shared_remote_branches(listing), s(&["main"]));
    assert_eq!(count_up_to_date("Already up to date.\nUpdating 1..2\n Already up to date."), 2);
    assert!(matches!(upstream_sync_result(0, 2, "git@x"), Err(GitError::GitPushError(u)) if u == "git@x"));
    assert!(upstream_sync_result(1, 2, "git@x").is_ok());
    assert_eq!(upstream_sync_message("u", "p", 2, 2), "All common branches between u and p are up to date");
    assert_eq!(upstream_sync_message("u", "p", 2, 1), "Successfully synced u and p");
}

#[test]
fn backup_paths_and_commands() {
    assert_eq!(last_path_piece("git@github.com:o/repo.git"), "repo.git");
    assert_eq!(backup_location("/backups", "git@github.com:o/repo.git"), "/backups/repo.git");
    assert_eq!(backup_command(true, "s", "p"), s(&["remote", "update"]));
    assert_eq!(backup_command(false, "s", "p"), s(&["clone", "--mirror", "s", "p"]));
    assert_eq!(repositories_to_back_up(&s(&["a", "b", "c"]), &s(&["b"])), s(&["a", "c"]));
    assert_eq!(prune_argument(&None), "--prune=now");
    assert_eq!(prune_argument(&Some("2.weeks.ago".to_string())), "--prune=2.weeks.ago");
    assert!(prune_check(Some("git"), true, "x.git").is_ok());
    assert!(matches!(prune_check(Some("txt"), true, "x.txt"), Err(GitError::Other(m)) if m == "Path x.txt is not a git repository"));
    assert!(matches!(prune_check(Some("git"), false, "x.git"), Err(GitError::Other(m)) if m == "Path x.git does not exist"));
    assert!(matches!(prune_check(None, true, "x"), Err(GitError::Other(m)) if m == "Failed to get file extension"));
}

#[test]
fn uploads_are_split_by_size() {
    assert!(upload_kind(0).is_err());
    assert_eq!(upload_kind(1).unwrap(), UploadKind::Single);
    assert_eq!(upload_kind(PART_SIZE - 1).unwrap(), UploadKind::Single);
    assert_eq!(upload_kind(PART_SIZE).unwrap(), UploadKind::Multipart);
    assert_eq!(s3_object_url("b", "us-east-1", "f.tar.gz"), "https://b.s3.us-east-1.amazonaws.com/f.tar.gz");
    let parts = sort_parts(vec![(3, "c".to_string()), (1, "a".to_string()), (2, "b".to_string())]);
    assert_eq!(parts, vec![(1, "a".to_string()), (2, "b".to_string()), (3, "c".to_string())]);
}

#[test]
fn branch_text_changes() {
    assert_eq!(modification_message(None, true, "1", "2"), "[Automated] Changed version from '1' to '2'");
    assert_eq!(modification_message(None, false, "a", "b"), "[Automated] Changed 'a' to 'b'");
    assert_eq!(modification_message(Some("m".to_string()), true, "a", "b"), "m");
    assert!(is_bigtop_version_change("odp-bigtop", true));
    assert!(!is_bigtop_version_change("odp-bigtop", false));
    assert_eq!(new_odp_version("3.3.6.4-1"), "3.3.6.4");
    assert_eq!(new_build_number("3.3.6.4-1").unwrap(), "1");
    assert!(new_build_number("3.3.6.4").is_err());
    assert_eq!(dashed_version("3.3.6.3-SNAPSHOT"), "3-3-6-3-SNAPSHOT");
    assert_eq!(renamed_package_file("kudu", "3-3-6-4-1", ".install"), "kudu-3-3-6-4-1.install");
    assert_eq!(hadoop_version("3.3.6.4-1"), "3.3.6");
    assert_eq!(hadoop_version("3.3"), "3.3");
}

#[test]
fn push_outcomes() {
    assert_eq!(push_outcome("", "Everything up-to-date", false, "r", "b").unwrap(), PushOutcome::NoChanges);
    assert_eq!(push_outcome("", "", true, "r", "b").unwrap(), PushOutcome::Success);
    assert!(matches!(push_outcome("", " denied \n", false, "r", "b"), Err(GitError::GitPushError(m)) if m == "r/b 'denied'"));
}

#[test]
fn parent_information_of_a_fork() {
    assert!(matches!(parent_repo_info("u", None), Err(GitError::NotAFork)));
    let no_owner = ParentInfo { owner_login: None, name: "r".to_string(), html_url: None, default_branch: None };
    assert!(matches!(parent_repo_info("u", Some(no_owner)), Err(GitError::NoUpstreamRepo(x)) if x == "u"));
    let full = ParentInfo {
        owner_login: Some("o".to_string()),
        name: "r".to_string(),
        html_url: Some("https://github.com/o/r".to_string()),
        default_branch: Some("main".to_string()),
    };
    let info = parent_repo_info("u", Some(full)).unwrap();
    assert_eq!(info.owner, "o");
    assert_eq!(info.repo_name, "r");
    assert_eq!(info.main_branch, Some("main".to_string()));
}

#[test]
fn slack_reports_and_sorting() {
    assert_eq!(webhook_url(Some(" https://hooks ".to_string())), "https://hooks");
    assert_eq!(webhook_url(None), "");
    assert_eq!(sort_strings(s(&["b", "a", "B"])), s(&["B", "a", "b"]));
    assert!(slack_report("2024-01-01", Vec::new(), Vec::new()).is_none());
    let report = slack_report("2024-01-01", s(&["second", "first"]), Vec::new()).unwrap();
    assert!(report.find("first").unwrap() < report.find("second").unwrap());
}

#[test]
fn pull_request_decisions() {
    assert!(worth_opening(None));
    assert!(worth_opening(Some(3)));
    assert!(!worth_opening(Some(0)));
    assert!(matches!(after_open(Ok(7)), OpenOutcome::Opened(7)));
    let unprocessable = api_failure(ApiErrorKind::GitHub, Some(422), "Validation Failed");
    assert!(matches!(after_open(Err(unprocessable)), OpenOutcome::LookUpExisting));
    assert!(matches!(after_open(Err(api_failure(ApiErrorKind::Http, None, "x"))), OpenOutcome::Failed(_)));
    assert_eq!(existing_pr_number(Some(4), "o", "r", "h", "b").unwrap(), 4);
    assert!(matches!(existing_pr_number(None, "o", "r", "h", "b"), Err(GitError::NoSuchPR { repository, .. }) if repository == "o/r"));
    assert!(matches!(latest_commit_sha(None, "o", "r"), Err(GitError::Other(m)) if m == "Cannot get sha of latest commit for o/r"));
    assert_eq!(forced_merge_head(&None, "feature"), "feature");
    assert_eq!(forced_merge_head(&Some("v".to_string()), "feature"), "v");
    let other = api_failure(ApiErrorKind::GitHub, Some(500), "oops");
    assert!(!is_blocked_by_branch_rules(&other));
    assert!(matches!(after_refused_merge(true, &other, 9), Err(GitError::PRNotMergeable(9))));
}

#[test]
fn opened_pr_goes_on_only_when_a_merge_is_asked_for() {
    assert_eq!(pr_to_merge(true, 42), Some(42));
    assert_eq!(pr_to_merge(false, 42), None);
}
