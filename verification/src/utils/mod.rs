//! Helpers shared by the commands: repository URLs, filters, pull request options and user
//! details.
use vstd::prelude::*;
use crate::error::GitError;
use crate::text::{find_from, owned, replace_all, replace_all_exec};

pub mod repo;
pub mod filter;
pub mod pr;
pub mod user;
pub mod file_utils;

pub use self::repo::RepoInfo;
pub use self::user::UserDetails;

verus! {

// The accepted URLs are those that `^https://github.com/(?<owner>[^/].+)/(?<repo>[^/].+)(\.git)?/?.*`
// matches, read as the `regex` crate reads it: `.` is any character but a newline, `[^/]` any
// character but a slash (a newline included), and the quantifiers are greedy.

/// Where the first newline at or after `start` is, or the end of `u`.
pub open spec fn line_end(u: Seq<char>, start: int) -> int {
    match find_from(u, seq!['\n'], start) {
        Some(i) => i,
        None => u.len() as int,
    }
}

/// Whether the URL begins as the expression requires: `https://github`, any character but a
/// newline, `com/`, and a character that is not a slash.
pub open spec fn legacy_head(u: Seq<char>) -> bool {
    &&& u.len() > 20
    &&& u.subrange(0, 14) == "https://github"@
    &&& u[14] != '\n'
    &&& u.subrange(15, 19) == "com/"@
    &&& u[19] != '/'
}

/// Whether the slash at `k` can end the owner: the owner's `.+` covers the characters from 20
/// up to `k`, none a newline, and a character other than a slash, then one other than a
/// newline, follow.
pub open spec fn owner_end(u: Seq<char>, k: int) -> bool {
    &&& 20 < k < line_end(u, 20)
    &&& u[k] == '/'
    &&& k + 2 < u.len()
    &&& u[k + 1] != '/'
    &&& u[k + 2] != '\n'
}

/// The last slash at or before `k` that can end the owner: the greedy owner takes the longest
/// that lets the rest match.
pub open spec fn last_owner_end(u: Seq<char>, k: int) -> Option<int>
    decreases k,
{
    if k <= 20 {
        None
    } else if owner_end(u, k) {
        Some(k)
    } else {
        last_owner_end(u, k - 1)
    }
}

/// The owner and the repository name that the expression captures in `u`, the name without any
/// `.git`.
pub open spec fn legacy_capture(u: Seq<char>) -> Option<(Seq<char>, Seq<char>)> {
    if !legacy_head(u) {
        None
    } else {
        match last_owner_end(u, line_end(u, 20) - 1) {
            None => None,
            Some(k) => {
                let m = line_end(u, k + 2);
                Some((u.subrange(19, k), replace_all(u.subrange(k + 1, m), ".git"@, seq![])))
            },
        }
    }
}

/// Where the first newline at or after `start` is, or the end of `u`.
fn find_line_end(u: &str, start: usize) -> (r: usize)
    requires
        start <= u@.len(),
    ensures
        r == line_end(u@, start as int),
        start <= r <= u@.len(),
{
    let n = u.unicode_len();
    let mut i: usize = start;
    while i < n && u.get_char(i) != '\n'
        invariant
            n == u@.len(),
            start <= i <= n,
            forall|j: int| start <= j < i ==> u@[j] != '\n',
        decreases n - i,
    {
        i += 1;
    }
    proof {
        let p = seq!['\n'];
        assert forall|j: int| start <= j < i implies !crate::text::occurs_at(u@, p, j) by {
            if crate::text::occurs_at(u@, p, j) {
                assert(u@.subrange(j, j + 1)[0] == u@[j]);
            }
        }
        if i < n {
            assert(u@.subrange(i as int, i + 1) =~= p);
            crate::text::lemma_find_from_some(u@, p, start as int, i as int);
        } else {
            crate::text::lemma_find_from_none(u@, p, start as int);
        }
    }
    i
}

/// Parse the owner and repository name from a github repository url, as the expression
/// `^https://github.com/(?<owner>[^/].+)/(?<repo>[^/].+)(\.git)?/?.*` captures them; every
/// `.git` is removed from the name. A URL that it does not match is an invalid repository.
pub fn get_repo_info_from_url(url: &str) -> (r: Result<RepoInfo, GitError>)
    ensures
        legacy_capture(url@) is None ==> (r matches Err(GitError::InvalidRepository(u)) && u@ == url@),
        legacy_capture(url@) matches Some((owner, repo)) ==> (r matches Ok(info) && info.owner@ == owner
            && info.repo_name@ == repo && info.url@ == url@ && info.main_branch is None),
{
    proof {
        reveal_strlit("https://github");
        reveal_strlit("com/");
        reveal_strlit(".git");
        reveal_strlit("");
        assert(""@ =~= Seq::<char>::empty());
    }
    let n = url.unicode_len();
    let head_ok = n > 20 && str_prefix_is(url, 0, "https://github") && url.get_char(14) != '\n'
        && str_prefix_is(url, 15, "com/") && url.get_char(19) != '/';
    if !head_ok {
        return Err(GitError::InvalidRepository(owned(url)));
    }
    let e = find_line_end(url, 20);
    let mut k: usize = e;
    let mut found = false;
    while k > 21
        invariant_except_break
            20 <= e <= n,
            n == url@.len(),
            e == line_end(url@, 20),
            k <= e,
            !found,
            last_owner_end(url@, e - 1) == last_owner_end(url@, k - 1),
        ensures
            found ==> 21 < k <= e && k + 1 < n && last_owner_end(url@, e - 1) == Some(k - 1),
            !found ==> last_owner_end(url@, e - 1) is None,
        decreases k,
    {
        let c = k - 1;
        if url.get_char(c) == '/' && n - c > 2 && url.get_char(c + 1) != '/' && url.get_char(c + 2) != '\n' {
            found = true;
            break;
        }
        k -= 1;
    }
    if !found {
        return Err(GitError::InvalidRepository(owned(url)));
    }
    let split = k - 1;
    let m = find_line_end(url, split + 2);
    let owner = url.substring_char(19, split);
    let repo = replace_all_exec(url.substring_char(split + 1, m), ".git", "");
    Ok(RepoInfo { repo_name: repo, owner: owned(owner), url: owned(url), main_branch: None })
}

/// Whether `s` holds `p` at position `at`.
fn str_prefix_is(s: &str, at: usize, p: &str) -> (r: bool)
    ensures
        r == (at + p@.len() <= s@.len() && s@.subrange(at as int, at + p@.len()) == p@),
{
    let n = s.unicode_len();
    let m = p.unicode_len();
    if at > n || m > n - at {
        return false;
    }
    let r = crate::text::occurs_at_exec(s, p, at);
    r
}

} // verus!
