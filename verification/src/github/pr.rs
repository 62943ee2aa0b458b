//! Pull requests: what to do after each step of opening one, and how a refused merge is
//! forced through.
use vstd::prelude::*;
use crate::error::{decimal, decimal_string, ApiErrorKind, ApiFailure, GitError};
use crate::text::{cat, contains, contains_seq, owned, trim, trim_ws};

verus! {

/// What `str::to_lowercase` gives for `text`.
pub uninterp spec fn lowercased(text: Seq<char>) -> Seq<char>;

/// `str::to_lowercase`: `text` in lower case, by Unicode's rules.
#[verifier::external_body]
fn to_lowercase(text: &str) -> (r: String)
    ensures
        r@ == lowercased(text@),
{
    text.to_lowercase()
}

/// Whether GitHub refused a merge because of a branch protection rule or a ruleset, rather
/// than because of the state of the branches: an unmet review or status check requirement
/// comes back as a 405 (a conflicted pull request too, but its message says it is not
/// mergeable), and a branch that cannot be written to as a 403.
pub open spec fn blocked_by_rules(e: ApiFailure) -> bool {
    e.kind == ApiErrorKind::GitHub && if e.status == Some(405u16) {
        !contains_seq(lowercased(e.message@), "not mergeable"@)
    } else {
        e.status == Some(403u16)
    }
}

/// Whether GitHub refused a merge because of branch rules.
pub fn is_blocked_by_branch_rules(e: &ApiFailure) -> (r: bool)
    ensures
        r == blocked_by_rules(*e),
{
    if e.kind != ApiErrorKind::GitHub {
        return false;
    }
    if e.status == Some(405u16) {
        let lower = to_lowercase(e.message.as_str());
        return !contains(lower.as_str(), "not mergeable");
    }
    e.status == Some(403u16)
}

/// A trimmed optional text, which counts as absent when it is empty.
pub open spec fn given_text(o: Option<String>) -> Option<Seq<char>> {
    match o {
        Some(s) => if trim_ws(s@).len() > 0 {
            Some(trim_ws(s@))
        } else {
            None
        },
        None => None,
    }
}

/// The commit message of a merge written straight to the base branch: the title and the
/// detail asked for, separated by a blank line; without a title, GitHub's usual title for the
/// pull request's merge.
pub open spec fn forced_merge_message(
    pr_number: u64,
    head_branch: Seq<char>,
    title: Option<String>,
    detail: Option<String>,
) -> Seq<char> {
    let default_title = "Merge pull request #"@ + decimal(pr_number as nat) + " from "@ + head_branch;
    match (given_text(title), given_text(detail)) {
        (Some(t), Some(d)) => t + "\n\n"@ + d,
        (Some(t), None) => t,
        (None, Some(d)) => default_title + "\n\n"@ + d,
        (None, None) => default_title,
    }
}

fn given(o: &Option<String>) -> (r: Option<&str>)
    ensures
        match given_text(*o) {
            Some(t) => r matches Some(s) && s@ == t,
            None => r is None,
        },
{
    match o {
        Some(s) => {
            let t = trim(s.as_str());
            if t.unicode_len() > 0 {
                Some(t)
            } else {
                None
            }
        },
        None => None,
    }
}

/// The commit message of a merge written straight to the base branch.
pub fn force_merge_message(pr_number: u64, head_branch: &str, title: &Option<String>, detail: &Option<String>) -> (r: String)
    ensures
        r@ == forced_merge_message(pr_number, head_branch@, *title, *detail),
{
    let title = given(title);
    let detail = given(detail);
    let mut default_title = owned("Merge pull request #");
    let number = decimal_string(pr_number);
    default_title.append(number.as_str());
    default_title.append(" from ");
    default_title.append(head_branch);
    match (title, detail) {
        (Some(t), Some(d)) => {
            let mut m = owned(t);
            m.append("\n\n");
            m.append(d);
            m
        },
        (Some(t), None) => owned(t),
        (None, Some(d)) => {
            let mut m = default_title;
            m.append("\n\n");
            m.append(d);
            m
        },
        (None, None) => default_title,
    }
}

/// The commit to merge: the one the merge was validated against, or else the pull request's
/// head.
pub fn forced_merge_head(validated: &Option<String>, pr_head: &str) -> (r: String)
    ensures
        validated matches Some(s) ==> r@ == s@,
        validated is None ==> r@ == pr_head@,
{
    match validated {
        Some(s) => owned(s.as_str()),
        None => owned(pr_head),
    }
}

/// What comparing the base and head of a new pull request means: nothing to do when the head
/// is not ahead (`Some(0)`), and going on otherwise, also when the comparison failed (`None`).
pub fn worth_opening(ahead_by: Option<u64>) -> (r: bool)
    ensures
        r == !(ahead_by == Some(0u64)),
{
    match ahead_by {
        Some(0) => false,
        _ => true,
    }
}

/// What to do once GitHub answered the request to open a pull request.
#[derive(Debug)]
pub enum OpenOutcome {
    /// The pull request was opened with this number.
    Opened(u64),
    /// It may exist already: look it up.
    LookUpExisting,
    /// Opening it failed.
    Failed(GitError),
}

/// What to do once GitHub answered the request to open a pull request: a refusal with status
/// 422 means that it may exist already; any other failure is the error.
pub fn after_open(result: Result<u64, ApiFailure>) -> (r: OpenOutcome)
    ensures
        result matches Ok(n) ==> r == OpenOutcome::Opened(n),
        result matches Err(e) ==> if e.kind == ApiErrorKind::GitHub && e.status == Some(422u16) {
            r is LookUpExisting
        } else {
            r == OpenOutcome::Failed(GitError::GithubApiError(e))
        },
{
    match result {
        Ok(n) => OpenOutcome::Opened(n),
        Err(e) => {
            if e.kind == ApiErrorKind::GitHub && e.status == Some(422u16) {
                OpenOutcome::LookUpExisting
            } else {
                OpenOutcome::Failed(GitError::GithubApiError(e))
            }
        },
    }
}

/// The pull request that goes on to be merged once it is open: its number when a merge was
/// asked for, and nothing otherwise (then neither the head's latest commit is looked up nor
/// approvers are asked for).
pub fn pr_to_merge(should_merge: bool, pr_number: u64) -> (r: Option<u64>)
    ensures
        should_merge ==> r == Some(pr_number),
        !should_merge ==> r is None,
{
    if should_merge {
        Some(pr_number)
    } else {
        None
    }
}

/// The number of the pull request found from `head` into `base` in `owner/repo`; finding none
/// is [`GitError::NoSuchPR`].
pub fn existing_pr_number(first: Option<u64>, owner: &str, repo: &str, head: &str, base: &str) -> (r: Result<u64, GitError>)
    ensures
        first matches Some(n) ==> r == Ok::<u64, GitError>(n),
        first is None ==> (r matches Err(GitError::NoSuchPR { repository, head: h, base: b })
            && repository@ == owner@ + "/"@ + repo@ && h@ == head@ && b@ == base@),
{
    match first {
        Some(n) => Ok(n),
        None => {
            let mut repository = owned(owner);
            repository.append("/");
            repository.append(repo);
            Err(GitError::NoSuchPR { repository, head: owned(head), base: owned(base) })
        },
    }
}

/// The SHA of the latest commit of the head branch; finding none is an error.
pub fn latest_commit_sha(first: Option<String>, owner: &str, repo: &str) -> (r: Result<String, GitError>)
    ensures
        first matches Some(s) ==> r == Ok::<String, GitError>(s),
        first is None ==> (r matches Err(GitError::Other(m)) && m@
            == "Cannot get sha of latest commit for "@ + owner@ + "/"@ + repo@),
{
    match first {
        Some(s) => Ok(s),
        None => {
            let mut m = owned("Cannot get sha of latest commit for ");
            m.append(owner);
            m.append("/");
            m.append(repo);
            Err(GitError::Other(m))
        },
    }
}

/// What a refused merge leads to: a forced merge when it was asked for and branch rules
/// refused it, and otherwise [`GitError::PRNotMergeable`].
pub fn after_refused_merge(force: bool, e: &ApiFailure, pr_number: u64) -> (r: Result<(), GitError>)
    ensures
        force && blocked_by_rules(*e) ==> r is Ok,
        !(force && blocked_by_rules(*e)) ==> r == Err::<(), GitError>(GitError::PRNotMergeable(pr_number)),
{
    if force && is_blocked_by_branch_rules(e) {
        Ok(())
    } else {
        Err(GitError::PRNotMergeable(pr_number))
    }
}

} // verus!
