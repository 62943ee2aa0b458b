//! GitHub repository URLs, tags, and the results of repository checks.
use vstd::prelude::*;
use crate::error::{GitError, signed_decimal, signed_decimal_string};
use crate::text::{str_eq, lemma_find_char_at, lemma_trim_ws_plain, cat, cat3, ends_with, find_char, find_char_exec, has_prefix, has_suffix, owned, starts_with, strip_prefix, strip_suffix, trim, trim_ws};

verus! {

/// Hold basic information about a GitHub URL.
#[derive(Debug)]
pub struct RepoInfo {
    /// Name of the repository.
    pub repo_name: String,
    /// The owner of this repository.
    pub owner: String,
    /// The full URL of the repository.
    pub url: String,
    /// The main branch of the repository, if known.
    pub main_branch: Option<String>,
}

/// The different types of tags.
#[derive(Debug, Clone, Copy, PartialEq, Eq, Structural)]
pub enum TagType {
    Annotated,
    Lightweight,
}

/// Tag information, for both annotated and lightweight tags. Two tags are the same tag when
/// their names are equal.
#[derive(Debug)]
pub struct TagInfo {
    /// Name of the tag.
    pub name: String,
    /// The type of tag (annotated or lightweight).
    pub tag_type: TagType,
    /// SHA of the tag.
    pub sha: String,
    /// Git URL from where the tag was fetched.
    pub url: String,
    /// SHA of the commit that an annotated tag points to.
    pub commit_sha: Option<String>,
}

impl TagInfo {
    /// A copy of this tag.
    pub fn duplicate(&self) -> (r: TagInfo)
        ensures
            r.name@ == self.name@,
            r.tag_type == self.tag_type,
            r.sha@ == self.sha@,
            r.url@ == self.url@,
            opt_string_view(r.commit_sha) == opt_string_view(self.commit_sha),
    {
        TagInfo {
            name: owned(self.name.as_str()),
            tag_type: self.tag_type,
            sha: owned(self.sha.as_str()),
            url: owned(self.url.as_str()),
            commit_sha: match &self.commit_sha {
                Some(s) => Some(owned(s.as_str())),
                None => None,
            },
        }
    }
}

impl PartialEq for TagInfo {
    /// Two tags are the same tag when their names are equal.
    fn eq(&self, other: &Self) -> (r: bool) {
        str_eq(self.name.as_str(), other.name.as_str())
    }
}

impl vstd::std_specs::cmp::PartialEqSpecImpl for TagInfo {
    open spec fn obeys_eq_spec() -> bool {
        true
    }

    open spec fn eq_spec(&self, other: &Self) -> bool {
        self.name@ == other.name@
    }
}

impl Eq for TagInfo {}

/// The view of an optional string.
pub open spec fn opt_string_view(o: Option<String>) -> Option<Seq<char>> {
    match o {
        Some(s) => Some(s@),
        None => None,
    }
}

/// Struct to hold branch protection rule information.
#[derive(Debug)]
pub struct BranchProtectionRule {
    pub pattern: Option<String>,
    pub admin_enforced: Option<bool>,
    pub requires_approving_reviews: Option<bool>,
    pub requires_approving_review_count: Option<i64>,
    pub requires_status_checks: Option<bool>,
    pub requires_strict_status_checks: Option<bool>,
    pub restricts_pushes: Option<bool>,
    pub restricts_review_dismissals: Option<bool>,
}

/// The license of a repository.
#[derive(Debug)]
pub struct LicenseInfo {
    pub name: Option<String>,
    pub spdx_id: Option<String>,
}

/// A holder for the results of various checks on a repository.
#[derive(Debug)]
pub struct Checks {
    /// Stale branches, each with the date of its last commit.
    pub branches: Vec<(String, String)>,
    /// The branch protection rules of the repository, where they can be queried.
    pub rules: Vec<BranchProtectionRule>,
    /// The license of the repository, if known.
    pub license: Option<LicenseInfo>,
    /// The name of the repository we're checking.
    pub repo: String,
}

/// How an optional flag is shown: `Yes`, `No` or `N/A`.
pub open spec fn opt_bool_text(b: Option<bool>) -> Seq<char> {
    match b {
        Some(true) => "Yes"@,
        Some(false) => "No"@,
        None => "N/A"@,
    }
}

/// How an optional flag is shown: `Yes`, `No` or `N/A`.
pub fn opt_bool(b: Option<bool>) -> (r: &'static str)
    ensures
        r@ == opt_bool_text(b),
{
    match b {
        Some(true) => "Yes",
        Some(false) => "No",
        None => "N/A",
    }
}

/// The text that describes a branch protection rule, one setting per tab-indented line.
pub open spec fn rule_text(r: BranchProtectionRule) -> Seq<char> {
    "\tPattern: "@ + match r.pattern {
        Some(p) => p@,
        None => "N/A"@,
    } + "\n"@ + "\tAdmin enforced: "@ + opt_bool_text(r.admin_enforced) + "\n"@
        + match r.requires_approving_review_count {
        Some(c) => "\tRequired PR review count: "@ + signed_decimal(c as int) + "\n"@,
        None => "\tRequired PR review count: None\n"@,
    } + "\tRequire status checks: "@ + opt_bool_text(r.requires_status_checks) + "\n"@
        + "\tRequire PR approving reviews: "@ + opt_bool_text(r.requires_approving_reviews)
        + "\n"@ + "\tRequire strict status checks: "@ + opt_bool_text(
        r.requires_strict_status_checks,
    ) + "\n"@ + "\tRestrict pushes: "@ + opt_bool_text(r.restricts_pushes) + "\n"@
        + "\tRestrict review dismissals: "@ + opt_bool_text(r.restricts_review_dismissals)
        + "\n\n"@
}

impl BranchProtectionRule {
    /// The text that describes the rule, which is what its `Display` shows.
    pub fn render(&self) -> (r: String)
        ensures
            r@ == rule_text(*self),
    {
        let mut out = owned("\tPattern: ");
        match &self.pattern {
            Some(p) => out.append(p.as_str()),
            None => out.append("N/A"),
        }
        out.append("\n");
        out.append("\tAdmin enforced: ");
        out.append(opt_bool(self.admin_enforced));
        out.append("\n");
        match self.requires_approving_review_count {
            Some(c) => {
                out.append("\tRequired PR review count: ");
                let n = signed_decimal_string(c);
                out.append(n.as_str());
                out.append("\n");
            },
            None => out.append("\tRequired PR review count: None\n"),
        }
        out.append("\tRequire status checks: ");
        out.append(opt_bool(self.requires_status_checks));
        out.append("\n");
        out.append("\tRequire PR approving reviews: ");
        out.append(opt_bool(self.requires_approving_reviews));
        out.append("\n");
        out.append("\tRequire strict status checks: ");
        out.append(opt_bool(self.requires_strict_status_checks));
        out.append("\n");
        out.append("\tRestrict pushes: ");
        out.append(opt_bool(self.restricts_pushes));
        out.append("\n");
        out.append("\tRestrict review dismissals: ");
        out.append(opt_bool(self.restricts_review_dismissals));
        out.append("\n\n");
        out
    }
}

// ---------------------------------------------------------------------------------------------
// Repository URLs
// ---------------------------------------------------------------------------------------------

/// The characters that GitHub allows in an owner or repository name: ASCII letters, digits,
/// `.`, `-` and `_`.
pub open spec fn is_name_char(c: char) -> bool {
    ('A' <= c && c <= 'Z') || ('a' <= c && c <= 'z') || ('0' <= c && c <= '9') || c == '.' || c
        == '_' || c == '-'
}

/// A non-empty run of name characters.
pub open spec fn is_name(s: Seq<char>) -> bool {
    s.len() > 0 && forall|i: int| 0 <= i < s.len() ==> is_name_char(#[trigger] s[i])
}

/// The HTTPS prefix of a GitHub repository URL.
pub open spec fn github_https() -> Seq<char> {
    "https://github.com/"@
}

/// `r` without one trailing `.git`.
pub open spec fn strip_git(r: Seq<char>) -> Seq<char> {
    if has_suffix(r, ".git"@) {
        r.subrange(0, r.len() - 4)
    } else {
        r
    }
}

/// The owner and repository name in a trimmed URL of the form
/// `[https://github.com/]owner/repo[.git][/]`, where owner and repository are non-empty runs of
/// name characters; the repository name loses one trailing `.git`.
pub open spec fn parse_repo_url(u: Seq<char>) -> Option<(Seq<char>, Seq<char>)> {
    let path = if has_prefix(u, github_https()) {
        u.subrange(github_https().len() as int, u.len() as int)
    } else {
        u
    };
    match find_char(path, '/') {
        Some(i) => {
            let owner = path.subrange(0, i);
            let rest = path.subrange(i + 1, path.len() as int);
            let repo = if has_suffix(rest, "/"@) {
                rest.drop_last()
            } else {
                rest
            };
            if is_name(owner) && is_name(repo) {
                Some((owner, strip_git(repo)))
            } else {
                None
            }
        },
        None => None,
    }
}

/// The canonical HTTPS URL of a repository.
pub open spec fn canonical_url(owner: Seq<char>, repo: Seq<char>) -> Seq<char> {
    github_https() + owner + "/"@ + repo
}

/// The SSH URL that a repository is cloned from.
pub open spec fn ssh_url(owner: Seq<char>, repo: Seq<char>) -> Seq<char> {
    "git@github.com:"@ + owner + "/"@ + repo + ".git"@
}

/// What `http_to_ssh_repo` gives for a URL: an SSH URL is kept, with `.git` added when it is
/// missing; anything else is parsed as a repository URL and rewritten to the SSH form.
pub open spec fn ssh_form(url: Seq<char>) -> Option<Seq<char>> {
    let t = trim_ws(url);
    if has_prefix(t, "git@github.com"@) {
        if has_suffix(t, ".git"@) {
            Some(t)
        } else {
            Some(t + ".git"@)
        }
    } else {
        match parse_repo_url(t) {
            Some((o, r)) => Some(ssh_url(o, r)),
            None => None,
        }
    }
}

/// Whether `info` is what the URL `u` (already trimmed) describes.
pub open spec fn describes(info: RepoInfo, u: Seq<char>) -> bool {
    match parse_repo_url(u) {
        Some((o, r)) => {
            &&& info.owner@ == o
            &&& info.repo_name@ == r
            &&& info.url@ == canonical_url(o, r)
            &&& info.main_branch is None
        },
        None => false,
    }
}

fn name_char(c: char) -> (r: bool)
    ensures
        r == is_name_char(c),
{
    ('A' <= c && c <= 'Z') || ('a' <= c && c <= 'z') || ('0' <= c && c <= '9') || c == '.' || c
        == '_' || c == '-'
}

/// Whether `s` is a non-empty run of name characters.
pub fn is_name_exec(s: &str) -> (r: bool)
    ensures
        r == is_name(s@),
{
    let n = s.unicode_len();
    if n == 0 {
        return false;
    }
    let mut i: usize = 0;
    while i < n
        invariant
            n == s@.len(),
            i <= n,
            forall|j: int| 0 <= j < i ==> is_name_char(#[trigger] s@[j]),
        decreases n - i,
    {
        if !name_char(s.get_char(i)) {
            return false;
        }
        i += 1;
    }
    true
}

fn repo_info_from_trimmed(u: &str) -> (r: Result<RepoInfo, GitError>)
    ensures
        r is Ok <==> parse_repo_url(u@) is Some,
        r matches Ok(info) ==> describes(info, u@),
        r matches Err(e) ==> e matches GitError::InvalidRepository(s) && s@ == u@,
{
    proof {
        reveal_strlit("/");
        reveal_strlit(".git");
        reveal_strlit("https://github.com/");
    }
    let path = match strip_prefix(u, "https://github.com/") {
        Some(p) => p,
        None => u,
    };
    match find_char_exec(path, '/') {
        Some(i) => {
            let n = path.unicode_len();
            let owner = path.substring_char(0, i);
            let rest = path.substring_char(i + 1, n);
            let repo = match strip_suffix(rest, "/") {
                Some(r) => r,
                None => rest,
            };
            proof {
                if has_suffix(rest@, "/"@) {
                    assert(rest@.subrange(0, rest@.len() - 1) =~= rest@.drop_last());
            }
            if is_name(owner@) && is_name(repo@) {
                if has_suffix(repo@, ".git"@) {
                    assert(repo@.subrange(0, repo@.len() - 4) == strip_git(repo@));
                }
                }
            }
            if is_name_exec(owner) && is_name_exec(repo) {
                let name = match strip_suffix(repo, ".git") {
                    Some(r) => r,
                    None => repo,
                };
                let mut url = cat3("https://github.com/", owner, "/");
                url.append(name);
                Ok(RepoInfo { repo_name: owned(name), owner: owned(owner), url, main_branch: None })
            } else {
                Err(GitError::InvalidRepository(owned(u)))
            }
        },
        None => Err(GitError::InvalidRepository(owned(u))),
    }
}

/// Parse the owner and repository name from a GitHub repository URL. The URL is trimmed, may
/// start with `https://github.com/`, and may end with `.git` and `/`; anything else is an
/// invalid repository.
pub fn get_repo_info_from_url(url: &str) -> (r: Result<RepoInfo, GitError>)
    ensures
        r is Ok <==> parse_repo_url(trim_ws(url@)) is Some,
        r matches Ok(info) ==> describes(info, trim_ws(url@)),
        r matches Err(e) ==> e matches GitError::InvalidRepository(s) && s@ == trim_ws(url@),
{
    let t = trim(url);
    repo_info_from_trimmed(t)
}

/// Convert an HTTPS GitHub URL to a clonable SSH URL, needed for cloning a repository in order
/// to be able to push to it. An SSH URL is kept as it is, with `.git` added when it is missing.
pub fn http_to_ssh_repo(url: &str) -> (r: Result<String, GitError>)
    ensures
        r is Ok <==> ssh_form(url@) is Some,
        r matches Ok(s) ==> ssh_form(url@) == Some(s@),
        r matches Err(e) ==> e matches GitError::InvalidRepository(s) && s@ == trim_ws(url@),
{
    let t = trim(url);
    if starts_with(t, "git@github.com") {
        if ends_with(t, ".git") {
            return Ok(owned(t));
        }
        return Ok(cat(t, ".git"));
    }
    let info = repo_info_from_trimmed(t)?;
    let mut s = cat3("git@github.com:", info.owner.as_str(), "/");
    s.append(info.repo_name.as_str());
    s.append(".git");
    Ok(s)
}

// ---------------------------------------------------------------------------------------------
// Laws
// ---------------------------------------------------------------------------------------------

/// The canonical URL of a repository, with or without `.git`, parses back to its owner and
/// name, for every owner and name that GitHub allows (a name ending in `.git` loses it).
pub proof fn lemma_repo_url_round_trip(owner: Seq<char>, repo: Seq<char>)
    requires
        is_name(owner),
        is_name(repo),
        !has_suffix(repo, ".git"@),
    ensures
        parse_repo_url(canonical_url(owner, repo)) == Some((owner, repo)),
        parse_repo_url(canonical_url(owner, repo) + ".git"@) == Some((owner, repo)),
{
    reveal_strlit("/");
    reveal_strlit(".git");
    reveal_strlit("https://github.com/");
    reveal_strlit("");
    assert(canonical_url(owner, repo) + ""@ =~= canonical_url(owner, repo));
    lemma_parse_path(owner, repo, ""@);
    lemma_parse_path(owner, repo, ".git"@);
}

proof fn lemma_parse_path(owner: Seq<char>, repo: Seq<char>, suffix: Seq<char>)
    requires
        is_name(owner),
        is_name(repo),
        !has_suffix(repo, ".git"@),
        suffix == ""@ || suffix == ".git"@,
    ensures
        parse_repo_url(canonical_url(owner, repo) + suffix) == Some((owner, repo)),
{
    reveal_strlit("");
    reveal_strlit("/");
    reveal_strlit(".git");
    reveal_strlit("https://github.com/");
    let u = canonical_url(owner, repo) + suffix;
    let h = github_https();
    let path = owner + "/"@ + repo + suffix;
    assert(u.subrange(0, h.len() as int) =~= h);
    assert(u.subrange(h.len() as int, u.len() as int) =~= path);
    assert forall|j: int| 0 <= j < owner.len() implies #[trigger] path[j] != '/' by {
        assert(path[j] == owner[j]);
    }
    lemma_find_char_at(path, '/', owner.len() as int);
    let rest = repo + suffix;
    assert(path.subrange(owner.len() + 1int, path.len() as int) =~= rest);
    assert(path.subrange(0, owner.len() as int) =~= owner);
    if has_suffix(rest, "/"@) {
        assert(rest.subrange(rest.len() - 1, rest.len() as int)[0] == rest.last());
        if suffix.len() == 0 {
            assert(rest.last() == repo.last());
        }
    }
    assert(is_name(rest)) by {
        assert forall|i: int| 0 <= i < rest.len() implies is_name_char(#[trigger] rest[i]) by {
            if i < repo.len() {
                assert(rest[i] == repo[i]);
            } else {
                assert(rest[i] == suffix[i - repo.len()]);
            }
        }
    }
    if suffix.len() > 0 {
        assert(rest.subrange(rest.len() - 4, rest.len() as int) =~= ".git"@);
        assert(rest.subrange(0, rest.len() - 4) =~= repo);
    } else {
        assert(rest =~= repo);
    }
}

/// Converting to the SSH form is a fixed point: the SSH form of an SSH form is itself.
pub proof fn lemma_ssh_form_fixed_point(url: Seq<char>)
    requires
        ssh_form(url) is Some,
    ensures
        ssh_form(ssh_form(url)->0) == ssh_form(url),
{
    reveal_strlit(".git");
    reveal_strlit("/");
    reveal_strlit("git@github.com");
    reveal_strlit("git@github.com:");
    let t = trim_ws(url);
    let s = ssh_form(url)->0;
    if has_prefix(t, "git@github.com"@) {
        assert(s[0] == t[0]);
        assert(t.subrange(0, 14)[0] == t[0]);
        if has_suffix(t, ".git"@) {
            assert(t.subrange(t.len() - 4, t.len() as int)[3] == t.last());
        } else {
            assert(s.subrange(s.len() - 4, s.len() as int) =~= ".git"@);
            assert(s.subrange(0, 14) =~= t.subrange(0, 14));
        }
    } else {
        let (o, r) = parse_repo_url(t)->0;
        assert(s.subrange(0, 14) =~= "git@github.com"@);
        assert(s.subrange(0, 14)[0] == s[0]);
        assert(s.subrange(s.len() - 4, s.len() as int) =~= ".git"@);
    }
    lemma_trim_ws_plain(s);
}

/// The SSH form of a repository's HTTPS URL, with or without `.git`, is exactly
/// `git@github.com:owner/repo.git`, for every owner and name that GitHub allows: `.git` is
/// written once whichever form was given.
pub proof fn lemma_ssh_form_of_https(owner: Seq<char>, repo: Seq<char>)
    requires
        is_name(owner),
        is_name(repo),
        !has_suffix(repo, ".git"@),
    ensures
        ssh_form("https://github.com/"@ + owner + "/"@ + repo) == Some(
            "git@github.com:"@ + owner + "/"@ + repo + ".git"@,
        ),
        ssh_form("https://github.com/"@ + owner + "/"@ + repo + ".git"@) == Some(
            "git@github.com:"@ + owner + "/"@ + repo + ".git"@,
        ),
{
    reveal_strlit("/");
    reveal_strlit(".git");
    reveal_strlit("https://github.com/");
    reveal_strlit("git@github.com");
    reveal_strlit("git@github.com:");
    lemma_repo_url_round_trip(owner, repo);
    let u = canonical_url(owner, repo);
    let v = canonical_url(owner, repo) + ".git"@;
    assert(u[0] == 'h');
    assert(v[0] == 'h');
    assert(u.last() == repo.last());
    assert(is_name_char(repo[repo.len() - 1]));
    assert(v.last() == 't');
    lemma_trim_ws_plain(u);
    lemma_trim_ws_plain(v);
    assert(u.subrange(0, 14)[0] == 'h');
    assert(v.subrange(0, 14)[0] == 'h');
    assert(!has_prefix(u, "git@github.com"@));
    assert(!has_prefix(v, "git@github.com"@));
}

} // verus!
