use std::collections::HashSet;

use git_sync::error::GitError;
use git_sync::utils::filter::{filter_ref, get_or_compile};
use git_sync::utils::file_utils::{replace_in_text, replacement_status, skip_file, FileStatus};
use git_sync::utils::repo::{http_to_ssh_repo, opt_bool, BranchProtectionRule};
use git_sync::utils::user::{GitConfigOutput, UserDetails};

#[test]
fn test_filter_vec() {
    let v: Vec<String> = vec!["Alice", "Bob", "Carey", "Zelda"].into_iter().map(String::from).collect();
    let result: Vec<String> = filter_ref(&v, "^A|^Z").expect("Failed to compile test regex");

    assert!(result.contains(&String::from("Alice")));
    assert!(result.contains(&String::from("Zelda")));
    assert_eq!(result.len(), 2);
}

#[test]
fn test_filter_hashset() {
    let mut hs: HashSet<String> = HashSet::new();
    hs.insert("Alice".to_string());
    hs.insert("Amy".to_string());
    hs.insert("Bob".to_string());
    hs.insert("Carey".to_string());
    hs.insert("Zelda".to_string());
    let items: Vec<String> = hs.into_iter().collect();
    let result: HashSet<String> = filter_ref(&items, "^C|^Z")
        .expect("Failed to compile test regex")
        .into_iter()
        .collect();

    assert!(result.contains("Carey"));
    assert!(!result.contains("Amy"));
    assert!(result.contains("Zelda"));
    assert_eq!(result.len(), 2);
}

#[test]
fn filter_keeps_order_of_the_collection() {
    let v: Vec<String> = vec!["Zelda", "Bob", "Alice"].into_iter().map(String::from).collect();
    let result = filter_ref(&v, "^A|^Z").unwrap();
    assert_eq!(result, vec!["Zelda".to_string(), "Alice".to_string()]);
}

#[test]
fn filter_with_bad_pattern_is_a_regex_error() {
    let v: Vec<String> = vec!["a".to_string()];
    assert!(matches!(filter_ref(&v, "(unclosed"), Err(GitError::RegexError(_))));
}

#[test]
fn compiled_pattern_keeps_its_text_and_matches() {
    let re = get_or_compile(r"(?i)(odp_bn)(?-i)=").unwrap();
    assert_eq!(re.as_str(), r"(?i)(odp_bn)(?-i)=");
    assert!(re.is_match("ODP_BN=3").unwrap());
    assert!(!re.is_match("ODPA_BN=3").unwrap());
}

#[test]
fn replace_text_using_closure() {
    let re = get_or_compile(r#"(?i)(odp_bn)(?-i)="\d+"#).unwrap();
    let (got, status) = replace_in_text(&re, "ODP_BN=\"3001\"\nodp_bn=\"3001\"", "${1}=\"3002").unwrap();
    assert!(got.contains("ODP_BN=\"3002"));
    assert!(got.contains("odp_bn=\"3002"));
    assert!(!got.contains("3001"));
    assert_eq!(status, FileStatus::Modified);
}

#[test]
fn replace_text_no_matches() {
    let re = get_or_compile(r#"(odp_bn|ODP_BN)="\d+"#).unwrap();
    let (got, status) = replace_in_text(&re, "ODPA_BN=\"3001\"\nodpB_bn=\"3001\"", "${1}=\"3002").unwrap();
    assert!(got.contains("ODPA_BN=\"3001"), "{got}");
    assert!(got.contains("odpB_bn=\"3001"), "{got}");
    assert_eq!(status, FileStatus::NoChanges);
}

#[test]
fn replacement_status_compares_contents() {
    assert_eq!(replacement_status("a", "a"), FileStatus::NoChanges);
    assert_eq!(replacement_status("a", "b"), FileStatus::Modified);
}

#[test]
fn binary_extensions_are_skipped() {
    assert!(skip_file("png"));
    assert!(skip_file("jar"));
    assert!(!skip_file("txt"));
    assert!(!skip_file("xml"));
}

#[test]
fn http_urls_become_ssh_urls() {
    assert_eq!(
        http_to_ssh_repo("https://github.com/acceldata-io/kudu").unwrap(),
        "git@github.com:acceldata-io/kudu.git"
    );
    assert!(http_to_ssh_repo("https://github.com/").is_err());
}

#[test]
fn optional_flags_render_as_words() {
    assert_eq!(opt_bool(Some(true)), "Yes");
    assert_eq!(opt_bool(Some(false)), "No");
    assert_eq!(opt_bool(None), "N/A");
}

#[test]
fn protection_rule_renders_each_setting() {
    let rule = BranchProtectionRule {
        pattern: Some("main".to_string()),
        admin_enforced: Some(true),
        requires_approving_reviews: None,
        requires_approving_review_count: Some(2),
        requires_status_checks: Some(false),
        requires_strict_status_checks: None,
        restricts_pushes: Some(true),
        restricts_review_dismissals: None,
    };
    let text = rule.render();
    assert!(text.starts_with("\tPattern: main\n\tAdmin enforced: Yes\n"));
    assert!(text.contains("\tRequired PR review count: 2\n"));
    assert!(text.ends_with("\tRestrict review dismissals: N/A\n\n"));
}

#[test]
fn user_details_from_git_outputs() {
    let name = GitConfigOutput { success: true, stdout: " Jane Doe \n".to_string() };
    let email = GitConfigOutput { success: true, stdout: "jane@example.com\n".to_string() };
    let u = UserDetails::from_git_outputs(&name, &email).unwrap();
    assert_eq!(u.name, "Jane Doe");
    assert_eq!(u.email, "jane@example.com");
    let failed = GitConfigOutput { success: false, stdout: String::new() };
    assert_eq!(UserDetails::from_git_outputs(&failed, &email).unwrap_err(), "Failed to get git user name");
    assert_eq!(UserDetails::from_git_outputs(&name, &failed).unwrap_err(), "Failed to get git email address");
}
