use git_sync::error::GitError;
use git_sync::utils::get_repo_info_from_url as legacy_repo_info;
use git_sync::utils::repo::get_repo_info_from_url;

#[test]
fn mod_test_get_repo_info_from_url() {
    let test_cases = vec![
        ("https://github.com/acceldata-io/kudu", "acceldata-io", "kudu"),
        ("https://github.com/acceldata-io/hadoop", "acceldata-io", "hadoop"),
        ("https://github.com/acceldata-io/trino", "acceldata-io", "trino"),
        ("https://github.com/acceldata-io/airflow.git", "acceldata-io", "airflow"),
    ];
    for u in test_cases {
        let info = legacy_repo_info(u.0).unwrap();
        assert_eq!(u.1, info.owner);
        assert_eq!(u.2, info.repo_name);
    }
}

#[test]
fn repo_test_get_repo_info_from_url() {
    let test_cases = vec![
        ("https://github.com/acceldata-io/kudu", "acceldata-io", "kudu"),
        ("https://github.com/acceldata-io/kudu/", "acceldata-io", "kudu"),
        ("https://github.com/acceldata-io/hadoop", "acceldata-io", "hadoop"),
        ("https://github.com/acceldata-io/trino", "acceldata-io", "trino"),
        ("https://github.com/acceldata-io/airflow.git", "acceldata-io", "airflow"),
    ];
    for u in test_cases {
        let info = get_repo_info_from_url(u.0).unwrap();
        assert_eq!(u.1, info.owner);
        assert_eq!(u.2, info.repo_name);
    }
}

#[test]
fn test_get_repo_info_from_bad_url() {
    let bad_tests = vec![
        "https://github.com/",
        "github.com",
        "abcdefg",
        "https://github.com/acceldata-io/",
    ];
    for test in bad_tests {
        let info = get_repo_info_from_url(test);
        assert!(info.is_err());
    }
}

#[test]
fn repo_info_keeps_the_canonical_url() {
    let info = get_repo_info_from_url("  acceldata-io/kudu.git ").unwrap();
    assert_eq!(info.owner, "acceldata-io");
    assert_eq!(info.repo_name, "kudu");
    assert_eq!(info.url, "https://github.com/acceldata-io/kudu");
    assert!(info.main_branch.is_none());
}

#[test]
fn bad_url_is_reported_trimmed() {
    match get_repo_info_from_url(" abcdefg ") {
        Err(GitError::InvalidRepository(u)) => assert_eq!(u, "abcdefg"),
        other => panic!("unexpected {other:?}"),
    }
}

#[test]
fn legacy_parser_takes_the_last_possible_owner_slash() {
    let info = legacy_repo_info("https://github.com/ab/cd/ef").unwrap();
    assert_eq!(info.owner, "ab/cd");
    assert_eq!(info.repo_name, "ef");
    assert_eq!(info.url, "https://github.com/ab/cd/ef");
    assert!(legacy_repo_info("https://github.com/a/b/c").is_err());
    assert!(legacy_repo_info("https://github.com/").is_err());
    assert!(legacy_repo_info("http://github.com/a/b").is_err());
}
