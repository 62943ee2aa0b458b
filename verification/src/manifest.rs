//! Component manifests, and the validated Git reference plans that are derived from them.
//!
//! A manifest names, for each component of a build, the repository, branch and exact commit
//! that the build used. A plan says which branch or tag to create, in which repository and at
//! which commit, when a release is cut from such a build.
use vstd::prelude::*;
use crate::error::GitError;
use crate::utils::repo::{is_name, is_name_char, is_name_exec};
use crate::text::{
    after_char, after_char_exec, before_char, before_char_exec, char_pred, concat_all, contains,
    contains_seq, eq_ignore_ascii_case, eq_ignore_ascii_case_exec, ends_with, find_seq, has_prefix,
    has_suffix, lemma_find_from_none, lemma_find_from_some, lemma_find_seq, lemma_lex_lt_asymmetric,
    lemma_lex_lt_irreflexive, lemma_lex_lt_total, lemma_lex_lt_transitive, lemma_trim_end_at,
    lemma_trim_start_at, lex_lt, lex_lt_exec, occurs_at, owned, replace_first, replacen_once,
    second_piece, starts_with, str_eq, strip_prefix, strip_suffix, trim, trim_char,
    trim_end_char, trim_end_matches_char, trim_matches_char, trim_ws, white_pred, find_char,
};

verus! {

/// One component entry in a component manifest.
#[derive(Debug)]
pub struct ManifestRepository {
    /// GitHub repository URL.
    pub url: String,
    /// Source branch used by the build.
    pub branch: String,
    /// Exact commit used by the build.
    pub sha: String,
}

/// The text of a manifest entry: its URL, branch and commit.
pub type EntryView = (Seq<char>, Seq<char>, Seq<char>);

impl View for ManifestRepository {
    type V = EntryView;

    open spec fn view(&self) -> EntryView {
        (self.url@, self.branch@, self.sha@)
    }
}

/// A build's component manifest. Its repositories are kept ordered by component name, each
/// name once, as in a sorted map.
#[derive(Debug)]
pub struct ComponentManifest {
    /// Build artifact directory represented by this manifest.
    pub build_artifact_path: Option<String>,
    /// Release version represented by this manifest.
    pub release_version: Option<String>,
    /// Repositories and exact revisions used by the build, by component name.
    pub repos: Vec<(String, ManifestRepository)>,
}

/// One validated reference creation operation.
#[derive(Debug)]
pub struct ManifestRefPlan {
    /// Manifest component name.
    pub component: String,
    /// Normalized HTTPS GitHub repository URL.
    pub repository: String,
    /// Source branch recorded in the manifest.
    pub source_branch: String,
    /// Branch or tag that will be created.
    pub target_ref: String,
    /// Exact commit for the new reference.
    pub sha: String,
}

/// The text of a plan operation: component, repository, source branch, target reference, commit.
pub type PlanView = (Seq<char>, Seq<char>, Seq<char>, Seq<char>, Seq<char>);

impl View for ManifestRefPlan {
    type V = PlanView;

    open spec fn view(&self) -> PlanView {
        (self.component@, self.repository@, self.source_branch@, self.target_ref@, self.sha@)
    }
}

/// Why a plan could not be built: an error with a message, or a repository URL that is not a
/// GitHub repository.
pub enum PlanFault {
    Message(Seq<char>),
    InvalidRepository(Seq<char>),
}

/// The plan fault that an error reports.
pub open spec fn fault_of(e: GitError) -> PlanFault {
    match e {
        GitError::InvalidRepository(u) => PlanFault::InvalidRepository(u@),
        GitError::Other(m) => PlanFault::Message(m@),
        _ => PlanFault::Message(seq![]),
    }
}

// ---------------------------------------------------------------------------------------------
// The manifest as a sorted map
// ---------------------------------------------------------------------------------------------

/// The manifest's entries, in order, by their text.
pub open spec fn entries_view(repos: Seq<(String, ManifestRepository)>) -> Seq<(Seq<char>, EntryView)> {
    repos.map_values(|e: (String, ManifestRepository)| (e.0@, e.1@))
}

/// Component names strictly increase along the entries.
pub open spec fn names_sorted(entries: Seq<(Seq<char>, EntryView)>) -> bool {
    forall|i: int, j: int| 0 <= i < j < entries.len() ==> lex_lt(#[trigger] entries[i].0, #[trigger] entries[j].0)
}

/// The entries as a map from component name to entry.
pub open spec fn entries_map(entries: Seq<(Seq<char>, EntryView)>) -> Map<Seq<char>, EntryView>
    decreases entries.len(),
{
    if entries.len() == 0 {
        Map::empty()
    } else {
        entries_map(entries.drop_last()).insert(entries.last().0, entries.last().1)
    }
}

impl ComponentManifest {
    /// Component names are strictly increasing, so each occurs once.
    pub open spec fn well_formed(&self) -> bool {
        names_sorted(entries_view(self.repos@))
    }

    /// The repositories as a map from component name to entry.
    pub open spec fn repo_map(&self) -> Map<Seq<char>, EntryView> {
        entries_map(entries_view(self.repos@))
    }

    /// A manifest with the given paths and no repositories.
    pub fn new(build_artifact_path: Option<String>, release_version: Option<String>) -> (r: Self)
        ensures
            r.well_formed(),
            r.repos@.len() == 0,
            r.repo_map() == Map::<Seq<char>, EntryView>::empty(),
            r.build_artifact_path == build_artifact_path,
            r.release_version == release_version,
    {
        ComponentManifest { build_artifact_path, release_version, repos: Vec::new() }
    }

    /// Records `repository` under `component`, in its place by name; an entry already recorded
    /// under that name is replaced.
    pub fn insert(&mut self, component: String, repository: ManifestRepository)
        requires
            old(self).well_formed(),
        ensures
            final(self).well_formed(),
            final(self).repo_map() == old(self).repo_map().insert(component@, repository@),
            final(self).build_artifact_path == old(self).build_artifact_path,
            final(self).release_version == old(self).release_version,
    {
        let ghost old_entries = entries_view(self.repos@);
        let n = self.repos.len();
        let mut i: usize = 0;
        while i < n && lex_lt_exec(self.repos[i].0.as_str(), component.as_str())
            invariant
                n == self.repos@.len(),
                i <= n,
                entries_view(self.repos@) == old_entries,
                names_sorted(old_entries),
                forall|j: int| 0 <= j < i ==> lex_lt(#[trigger] old_entries[j].0, component@),
            decreases n - i,
        {
            i += 1;
        }
        let ghost key = component@;
        let ghost value = repository@;
        if i < n && str_eq(self.repos[i].0.as_str(), component.as_str()) {
            self.repos.set(i, (component, repository));
            proof {
                let e = entries_view(self.repos@);
                assert(e =~= old_entries.update(i as int, (key, value)));
                lemma_map_update(old_entries, i as int, value);
            }
        } else {
            self.repos.insert(i, (component, repository));
            proof {
                let e = entries_view(self.repos@);
                assert(e =~= old_entries.insert(i as int, (key, value)));
                assert forall|j: int| i <= j < old_entries.len() implies lex_lt(
                    key,
                    #[trigger] old_entries[j].0,
                ) by {
                    lemma_lex_lt_total(old_entries[i as int].0, key);
                    if j > i {
                        lemma_lex_lt_transitive(key, old_entries[i as int].0, old_entries[j].0);
                    }
                }
                assert forall|a: int, b: int| 0 <= a < b < e.len() implies lex_lt(
                    #[trigger] e[a].0,
                    #[trigger] e[b].0,
                ) by {
                    if b < i {
                    } else if a < i && b == i {
                    } else if a < i {
                        assert(e[b] == old_entries[b - 1]);
                        assert(lex_lt(key, old_entries[b - 1].0));
                        lemma_lex_lt_transitive(e[a].0, key, e[b].0);
                    } else if a == i {
                        assert(e[b] == old_entries[b - 1]);
                    } else {
                        assert(e[a] == old_entries[a - 1]);
                        assert(e[b] == old_entries[b - 1]);
                    }
                }
                assert forall|j: int| 0 <= j < old_entries.len() implies #[trigger] old_entries[j].0
                    != key by {
                    lemma_lex_lt_irreflexive(key);
                }
                lemma_map_insert(old_entries, i as int, key, value);
            }
        }
    }

    /// The entry recorded under `component`, if there is one.
    pub fn repository(&self, component: &str) -> (r: Option<&ManifestRepository>)
        requires
            self.well_formed(),
        ensures
            r is Some <==> self.repo_map().contains_key(component@),
            r matches Some(e) ==> self.repo_map()[component@] == e@,
    {
        let ghost entries = entries_view(self.repos@);
        let n = self.repos.len();
        let mut i: usize = 0;
        while i < n
            invariant
                n == self.repos@.len(),
                i <= n,
                entries == entries_view(self.repos@),
                names_sorted(entries),
                forall|j: int| 0 <= j < i ==> #[trigger] entries[j].0 != component@,
            decreases n - i,
        {
            if str_eq(self.repos[i].0.as_str(), component) {
                proof {
                    lemma_map_lookup(entries, i as int);
                }
                return Some(&self.repos[i].1);
            }
            i += 1;
        }
        proof {
            lemma_map_absent(entries, component@);
        }
        None
    }
}

/// A name that does not occur among the entries is not a key of their map.
proof fn lemma_map_absent(entries: Seq<(Seq<char>, EntryView)>, k: Seq<char>)
    requires
        forall|j: int| 0 <= j < entries.len() ==> #[trigger] entries[j].0 != k,
    ensures
        !entries_map(entries).contains_key(k),
    decreases entries.len(),
{
    if entries.len() > 0 {
        let rest = entries.drop_last();
        assert forall|j: int| 0 <= j < rest.len() implies #[trigger] rest[j].0 != k by {
            assert(rest[j] == entries[j]);
        }
        lemma_map_absent(rest, k);
    }
}

/// In sorted entries, the entry at `i` is what the map holds under its name.
proof fn lemma_map_lookup(entries: Seq<(Seq<char>, EntryView)>, i: int)
    requires
        names_sorted(entries),
        0 <= i < entries.len(),
    ensures
        entries_map(entries).contains_key(entries[i].0),
        entries_map(entries)[entries[i].0] == entries[i].1,
    decreases entries.len(),
{
    let rest = entries.drop_last();
    if i < entries.len() - 1 {
        assert(rest[i] == entries[i]);
        assert forall|a: int, b: int| 0 <= a < b < rest.len() implies lex_lt(
            #[trigger] rest[a].0,
            #[trigger] rest[b].0,
        ) by {
            assert(rest[a] == entries[a] && rest[b] == entries[b]);
        }
        lemma_map_lookup(rest, i);
        assert(lex_lt(entries[i].0, entries.last().0));
        lemma_lex_lt_irreflexive(entries[i].0);
    }
}

/// Replacing the entry at `i` by one under the same name updates the map at that name.
proof fn lemma_map_update(entries: Seq<(Seq<char>, EntryView)>, i: int, v: EntryView)
    requires
        names_sorted(entries),
        0 <= i < entries.len(),
    ensures
        entries_map(entries.update(i, (entries[i].0, v))) == entries_map(entries).insert(
            entries[i].0,
            v,
        ),
    decreases entries.len(),
{
    let k = entries[i].0;
    let u = entries.update(i, (k, v));
    let rest = entries.drop_last();
    assert forall|a: int, b: int| 0 <= a < b < rest.len() implies lex_lt(
        #[trigger] rest[a].0,
        #[trigger] rest[b].0,
    ) by {
        assert(rest[a] == entries[a] && rest[b] == entries[b]);
    }
    if i == entries.len() - 1 {
        assert(u.drop_last() =~= rest);
        assert(entries_map(u) =~= entries_map(entries).insert(k, v));
    } else {
        assert(u.drop_last() =~= rest.update(i, (k, v)));
        lemma_map_update(rest, i, v);
        assert(lex_lt(k, entries.last().0));
        lemma_lex_lt_irreflexive(k);
        assert(entries_map(u) =~= entries_map(entries).insert(k, v));
    }
}

/// Inserting an entry under a new name at its sorted place adds that name to the map.
proof fn lemma_map_insert(entries: Seq<(Seq<char>, EntryView)>, i: int, k: Seq<char>, v: EntryView)
    requires
        0 <= i <= entries.len(),
        forall|j: int| 0 <= j < entries.len() ==> #[trigger] entries[j].0 != k,
    ensures
        entries_map(entries.insert(i, (k, v))) == entries_map(entries).insert(k, v),
    decreases entries.len(),
{
    let e = entries.insert(i, (k, v));
    if i == entries.len() {
        assert(e.drop_last() =~= entries);
    } else {
        let rest = entries.drop_last();
        assert(e.drop_last() =~= rest.insert(i, (k, v)));
        assert forall|j: int| 0 <= j < rest.len() implies #[trigger] rest[j].0 != k by {
            assert(rest[j] == entries[j]);
        }
        lemma_map_insert(rest, i, k, v);
        assert(e.last() == entries.last());
        assert(entries_map(e) =~= entries_map(entries).insert(k, v));
    }
}

// ---------------------------------------------------------------------------------------------
// Repository URLs
// ---------------------------------------------------------------------------------------------

/// The URL without the scheme and host of the SSH and HTTPS forms that GitHub accepts.
pub open spec fn without_host(s: Seq<char>) -> Seq<char> {
    if has_prefix(s, "git@github.com:"@) {
        s.subrange("git@github.com:"@.len() as int, s.len() as int)
    } else if has_prefix(s, "ssh://git@github.com/"@) {
        s.subrange("ssh://git@github.com/"@.len() as int, s.len() as int)
    } else if has_prefix(s, "https://github.com/"@) {
        s.subrange("https://github.com/"@.len() as int, s.len() as int)
    } else if has_prefix(s, "http://github.com/"@) {
        s.subrange("http://github.com/"@.len() as int, s.len() as int)
    } else {
        s
    }
}

/// The `owner/repository` path of a URL: trimmed, without trailing slashes, host and `.git`.
pub open spec fn url_path(url: Seq<char>) -> Seq<char> {
    let p = without_host(trim_end_char(trim_ws(url), '/'));
    if has_suffix(p, ".git"@) {
        p.subrange(0, p.len() - ".git"@.len())
    } else {
        p
    }
}

/// The repository piece of a path: what follows the first slash, up to the next one.
pub open spec fn repo_piece(p: Seq<char>) -> Seq<char> {
    match second_piece(p, '/') {
        Some(r) => r,
        None => seq![],
    }
}

/// Whether a path has more than two slash-separated pieces.
pub open spec fn has_third_piece(p: Seq<char>) -> bool {
    match after_char(p, '/') {
        Some(rest) => after_char(rest, '/') is Some,
        None => false,
    }
}

/// The HTTPS URL that a GitHub URL or `owner/repository` names, if it names one.
pub open spec fn normalized_url(url: Seq<char>) -> Option<Seq<char>> {
    let p = url_path(url);
    let owner = before_char(p, '/');
    let repo = repo_piece(p);
    if is_name(owner) && is_name(repo) && !has_third_piece(p) {
        Some("https://github.com/"@ + owner + "/"@ + repo)
    } else {
        None
    }
}

/// Normalize GitHub HTTPS, SSH, or owner/repository syntax to an HTTPS URL. Anything else is
/// [`GitError::InvalidRepository`] with the URL as given.
pub fn normalize_github_url(url: &str) -> (r: Result<String, GitError>)
    ensures
        normalized_url(url@) matches Some(n) ==> (r matches Ok(v) && v@ == n),
        normalized_url(url@) is None ==> (r matches Err(GitError::InvalidRepository(u)) && u@
            == url@),
{
    let trimmed = trim_end_matches_char(trim(url), '/');
    let path = if let Some(p) = strip_prefix(trimmed, "git@github.com:") {
        p
    } else if let Some(p) = strip_prefix(trimmed, "ssh://git@github.com/") {
        p
    } else if let Some(p) = strip_prefix(trimmed, "https://github.com/") {
        p
    } else if let Some(p) = strip_prefix(trimmed, "http://github.com/") {
        p
    } else {
        trimmed
    };
    let path = match strip_suffix(path, ".git") {
        Some(p) => p,
        None => path,
    };
    let owner = before_char_exec(path, '/');
    let (repo, third) = match after_char_exec(path, '/') {
        Some(rest) => (before_char_exec(rest, '/'), after_char_exec(rest, '/').is_some()),
        None => ("", false),
    };
    proof {
        reveal_strlit("");
    }
    if !is_name_exec(owner) || !is_name_exec(repo) || third {
        return Err(GitError::InvalidRepository(owned(url)));
    }
    let mut out = owned("https://github.com/");
    out.append(owner);
    out.append("/");
    out.append(repo);
    Ok(out)
}

// ---------------------------------------------------------------------------------------------
// Validation of entries and references
// ---------------------------------------------------------------------------------------------

/// An optional value with surrounding whitespace removed.
pub fn trim_optional(value: Option<String>) -> (r: Option<String>)
    ensures
        value is None ==> r is None,
        value matches Some(v) ==> (r matches Some(t) && t@ == trim_ws(v@)),
{
    match value {
        Some(v) => Some(owned(trim(v.as_str()))),
        None => None,
    }
}

/// A required value: trimmed of whitespace and then of slashes at either end.
pub open spec fn required_text(value: Seq<char>) -> Seq<char> {
    trim_char(trim_ws(value), '/')
}

/// The value without surrounding whitespace and slashes; a value left empty is an error that
/// carries `message`.
pub fn required_value<'a>(value: &'a str, message: &str) -> (r: Result<&'a str, GitError>)
    ensures
        required_text(value@).len() == 0 ==> (r matches Err(GitError::Other(m)) && m@
            == message@),
        required_text(value@).len() > 0 ==> (r matches Ok(v) && v@ == required_text(value@)),
{
    let value = trim_matches_char(trim(value), '/');
    if value.unicode_len() == 0 {
        Err(GitError::Other(owned(message)))
    } else {
        Ok(value)
    }
}

/// An ASCII hexadecimal digit.
pub open spec fn is_hex_char(c: char) -> bool {
    ('0' <= c && c <= '9') || ('a' <= c && c <= 'f') || ('A' <= c && c <= 'F')
}

/// A full commit SHA: forty hexadecimal digits.
pub open spec fn valid_sha(s: Seq<char>) -> bool {
    s.len() == 40 && forall|i: int| 0 <= i < s.len() ==> is_hex_char(#[trigger] s[i])
}

/// What is wrong with a manifest entry, if anything: the message of the first problem found.
pub open spec fn entry_fault(component: Seq<char>, e: EntryView) -> Option<Seq<char>> {
    if e.0.len() == 0 {
        Some("Component '"@ + component + "' has an empty repository URL"@)
    } else if e.1.len() == 0 {
        Some("Component '"@ + component + "' has an empty branch"@)
    } else if !valid_sha(e.2) {
        Some("Component '"@ + component + "' has invalid commit SHA '"@ + e.2 + "'"@)
    } else {
        None
    }
}

fn valid_sha_exec(s: &str) -> (r: bool)
    ensures
        r == valid_sha(s@),
{
    let n = s.unicode_len();
    if n != 40 {
        return false;
    }
    let mut i: usize = 0;
    while i < n
        invariant
            n == s@.len(),
            i <= n,
            forall|j: int| 0 <= j < i ==> is_hex_char(#[trigger] s@[j]),
        decreases n - i,
    {
        let c = s.get_char(i);
        if !(('0' <= c && c <= '9') || ('a' <= c && c <= 'f') || ('A' <= c && c <= 'F')) {
            return false;
        }
        i += 1;
    }
    true
}

/// Checks that an entry has a URL, a branch and a full commit SHA.
pub fn validate_entry(component: &str, entry: &ManifestRepository) -> (r: Result<(), GitError>)
    ensures
        entry_fault(component@, entry@) is None ==> r is Ok,
        entry_fault(component@, entry@) matches Some(m) ==> (r matches Err(GitError::Other(e))
            && e@ == m),
{
    if entry.url.unicode_len() == 0 {
        let mut m = owned("Component '");
        m.append(component);
        m.append("' has an empty repository URL");
        return Err(GitError::Other(m));
    }
    if entry.branch.unicode_len() == 0 {
        let mut m = owned("Component '");
        m.append(component);
        m.append("' has an empty branch");
        return Err(GitError::Other(m));
    }
    if !valid_sha_exec(entry.sha.as_str()) {
        let mut m = owned("Component '");
        m.append(component);
        m.append("' has invalid commit SHA '");
        m.append(entry.sha.as_str());
        m.append("'");
        return Err(GitError::Other(m));
    }
    Ok(())
}

/// A control character, as `char::is_control` decides: general category `Cc`.
pub open spec fn is_control_char(c: char) -> bool {
    c <= '\u{1F}' || ('\u{7F}' <= c && c <= '\u{9F}')
}

/// A character that Git does not allow in a reference name.
pub open spec fn is_forbidden_ref_char(c: char) -> bool {
    is_control_char(c) || c == ' ' || c == '~' || c == '^' || c == ':' || c == '?' || c == '*'
        || c == '[' || c == '\\'
}

/// Whether `r` is a reference name that Git accepts.
pub open spec fn valid_ref_name(r: Seq<char>) -> bool {
    &&& forall|i: int| 0 <= i < r.len() ==> !is_forbidden_ref_char(#[trigger] r[i])
    &&& r.len() > 0
    &&& r != "@"@
    &&& !has_prefix(r, "/"@)
    &&& !has_suffix(r, "/"@)
    &&& !has_suffix(r, "."@)
    &&& !has_suffix(r, ".lock"@)
    &&& !contains_seq(r, ".."@)
    &&& !contains_seq(r, "//"@)
    &&& !contains_seq(r, "@{"@)
}

/// The message of a reference that Git would refuse.
pub open spec fn invalid_ref_message(component: Seq<char>, reference: Seq<char>) -> Seq<char> {
    "Component '"@ + component + "' produced invalid Git reference '"@ + reference + "'"@
}

/// Checks that `reference` is a name that Git accepts for a branch or tag.
pub fn validate_ref_name(component: &str, reference: &str) -> (r: Result<(), GitError>)
    ensures
        valid_ref_name(reference@) ==> r is Ok,
        !valid_ref_name(reference@) ==> (r matches Err(GitError::Other(m)) && m@
            == invalid_ref_message(component@, reference@)),
{
    let n = reference.unicode_len();
    let mut bad_char = false;
    let mut i: usize = 0;
    while i < n
        invariant
            n == reference@.len(),
            i <= n,
            bad_char == exists|j: int| 0 <= j < i && is_forbidden_ref_char(#[trigger] reference@[j]),
        decreases n - i,
    {
        let c = reference.get_char(i);
        if c <= '\u{1F}' || ('\u{7F}' <= c && c <= '\u{9F}') || c == ' ' || c == '~' || c == '^'
            || c == ':' || c == '?' || c == '*' || c == '[' || c == '\\' {
            bad_char = true;
        }
        i += 1;
    }
    let bad_shape = n == 0 || str_eq(reference, "@") || starts_with(reference, "/") || ends_with(
        reference,
        "/",
    ) || ends_with(reference, ".") || ends_with(reference, ".lock") || contains(reference, "..")
        || contains(reference, "//") || contains(reference, "@{");
    if bad_char || bad_shape {
        let mut m = owned("Component '");
        m.append(component);
        m.append("' produced invalid Git reference '");
        m.append(reference);
        m.append("'");
        return Err(GitError::Other(m));
    }
    Ok(())
}

// ---------------------------------------------------------------------------------------------
// Plans
// ---------------------------------------------------------------------------------------------

/// The part of a branch after its first slash, or the whole branch if it has none.
pub open spec fn source_body(branch: Seq<char>) -> Seq<char> {
    match after_char(branch, '/') {
        Some(body) => body,
        None => branch,
    }
}

/// The reference derived from a branch body: the first occurrence of the source version
/// replaced by the new version, then put under the branch prefix, or marked as a tag.
pub open spec fn target_ref_of(
    body: Seq<char>,
    source_version: Seq<char>,
    new_version: Seq<char>,
    prefix: Option<Seq<char>>,
) -> Seq<char> {
    let t = replace_first(body, source_version, new_version);
    match prefix {
        Some(p) => p + "/"@ + t,
        None => t + "-tag"@,
    }
}

/// The commit recorded for a repository and target in a plan so far (its latest operation).
pub open spec fn lookup_target(plan: Seq<PlanView>, repository: Seq<char>, target: Seq<char>) -> Option<Seq<char>>
    decreases plan.len(),
{
    if plan.len() == 0 {
        None
    } else if plan.last().1 == repository && plan.last().3 == target {
        Some(plan.last().4)
    } else {
        lookup_target(plan.drop_last(), repository, target)
    }
}

/// Whether a component is the build tooling itself, which no plan touches.
pub open spec fn is_build_tooling(component: Seq<char>) -> bool {
    eq_ignore_ascii_case(component, "accelbuild"@)
}

/// The plan after one more manifest entry.
pub open spec fn plan_step(
    plan: Seq<PlanView>,
    component: Seq<char>,
    e: EntryView,
    source_version: Seq<char>,
    new_version: Seq<char>,
    prefix: Option<Seq<char>>,
) -> Result<Seq<PlanView>, PlanFault> {
    if is_build_tooling(component) {
        Ok(plan)
    } else {
        match entry_fault(component, e) {
            Some(m) => Err(PlanFault::Message(m)),
            None => match normalized_url(e.0) {
                None => Err(PlanFault::InvalidRepository(e.0)),
                Some(repository) => {
                    let body = source_body(e.1);
                    if !contains_seq(body, source_version) {
                        Err(
                            PlanFault::Message(
                                "Component '"@ + component + "' branch '"@ + e.1
                                    + "' does not contain source release version '"@
                                    + source_version + "'"@,
                            ),
                        )
                    } else {
                        let target = target_ref_of(body, source_version, new_version, prefix);
                        if !valid_ref_name(target) {
                            Err(PlanFault::Message(invalid_ref_message(component, target)))
                        } else {
                            match lookup_target(plan, repository, target) {
                                Some(existing) => {
                                    if existing != e.2 {
                                        Err(
                                            PlanFault::Message(
                                                "Manifest target collision for "@ + repository
                                                    + " '"@ + target + "': "@ + existing
                                                    + " and "@ + e.2,
                                            ),
                                        )
                                    } else {
                                        Ok(plan)
                                    }
                                },
                                None => Ok(plan.push((component, repository, e.1, target, e.2))),
                            }
                        }
                    }
                },
            },
        }
    }
}

/// The plan for a sequence of entries, taken in order; the first fault ends it.
pub open spec fn plan_over(
    entries: Seq<(Seq<char>, EntryView)>,
    source_version: Seq<char>,
    new_version: Seq<char>,
    prefix: Option<Seq<char>>,
) -> Result<Seq<PlanView>, PlanFault>
    decreases entries.len(),
{
    if entries.len() == 0 {
        Ok(seq![])
    } else {
        match plan_over(entries.drop_last(), source_version, new_version, prefix) {
            Err(f) => Err(f),
            Ok(plan) => plan_step(
                plan,
                entries.last().0,
                entries.last().1,
                source_version,
                new_version,
                prefix,
            ),
        }
    }
}

/// The plan for a manifest's entries: the versions and the prefix are first made required
/// values, in that order.
pub open spec fn plan_result(
    entries: Seq<(Seq<char>, EntryView)>,
    source_version: Seq<char>,
    new_version: Seq<char>,
    prefix: Option<Seq<char>>,
) -> Result<Seq<PlanView>, PlanFault> {
    let src = required_text(source_version);
    let new = required_text(new_version);
    if src.len() == 0 {
        Err(PlanFault::Message("Source release version must not be empty"@))
    } else if new.len() == 0 {
        Err(PlanFault::Message("New version must not be empty"@))
    } else {
        match prefix {
            Some(p) => {
                if required_text(p).len() == 0 {
                    Err(PlanFault::Message("New branch prefix must not be empty"@))
                } else {
                    plan_over(entries, src, new, Some(required_text(p)))
                }
            },
            None => plan_over(entries, src, new, None),
        }
    }
}

/// The views of the operations of a plan.
pub open spec fn plan_views(plan: Seq<ManifestRefPlan>) -> Seq<PlanView> {
    plan.map_values(|p: ManifestRefPlan| p@)
}

/// The position of the latest operation in `plan` for `repository` and `target`.
fn find_target(plan: &Vec<ManifestRefPlan>, repository: &str, target: &str) -> (r: Option<usize>)
    ensures
        r is None ==> lookup_target(plan_views(plan@), repository@, target@) is None,
        r matches Some(j) ==> (j < plan@.len() && lookup_target(
            plan_views(plan@),
            repository@,
            target@,
        ) == Some(plan@[j as int].sha@)),
{
    let ghost views = plan_views(plan@);
    let mut j: usize = plan.len();
    assert(views.subrange(0, j as int) =~= views);
    while j > 0
        invariant
            j <= plan@.len(),
            views == plan_views(plan@),
            lookup_target(views, repository@, target@) == lookup_target(
                views.subrange(0, j as int),
                repository@,
                target@,
            ),
        decreases j,
    {
        let p = &plan[j - 1];
        assert(views.subrange(0, j as int).last() == p@);
        if str_eq(p.repository.as_str(), repository) && str_eq(p.target_ref.as_str(), target) {
            return Some(j - 1);
        }
        assert(views.subrange(0, j as int).drop_last() =~= views.subrange(0, j - 1));
        j -= 1;
    }
    None
}

/// Once a prefix of the entries gives a fault, so do all the entries.
proof fn lemma_fault_persists(
    entries: Seq<(Seq<char>, EntryView)>,
    k: int,
    source_version: Seq<char>,
    new_version: Seq<char>,
    prefix: Option<Seq<char>>,
)
    requires
        0 <= k <= entries.len(),
        plan_over(entries.subrange(0, k), source_version, new_version, prefix) is Err,
    ensures
        plan_over(entries, source_version, new_version, prefix) == plan_over(
            entries.subrange(0, k),
            source_version,
            new_version,
            prefix,
        ),
    decreases entries.len() - k,
{
    if k == entries.len() {
        assert(entries.subrange(0, k) =~= entries);
    } else {
        assert(entries.drop_last().subrange(0, k) =~= entries.subrange(0, k));
        lemma_fault_persists(entries.drop_last(), k, source_version, new_version, prefix);
    }
}

impl ComponentManifest {
    /// Build and validate branch creation operations for all manifest entries: each branch
    /// body with the source version replaced by the new version, under `new_branch_prefix`.
    pub fn branch_plan(&self, source_release_version: &str, new_version: &str, new_branch_prefix: &str) -> (r: Result<Vec<ManifestRefPlan>, GitError>)
        ensures
            r is Ok <==> plan_result(
                entries_view(self.repos@),
                source_release_version@,
                new_version@,
                Some(new_branch_prefix@),
            ) is Ok,
            r matches Ok(plan) ==> plan_result(
                entries_view(self.repos@),
                source_release_version@,
                new_version@,
                Some(new_branch_prefix@),
            ) == Ok::<Seq<PlanView>, PlanFault>(plan_views(plan@)),
            r matches Err(e) ==> plan_result(
                entries_view(self.repos@),
                source_release_version@,
                new_version@,
                Some(new_branch_prefix@),
            ) == Err::<Seq<PlanView>, PlanFault>(fault_of(e)),
    {
        self.build_plan(source_release_version, new_version, Some(new_branch_prefix))
    }

    /// Build and validate tag creation operations for all manifest entries: each branch body
    /// with the source version replaced by the new version, followed by `-tag`.
    pub fn tag_plan(&self, source_release_version: &str, new_version: &str) -> (r: Result<Vec<ManifestRefPlan>, GitError>)
        ensures
            r is Ok <==> plan_result(
                entries_view(self.repos@),
                source_release_version@,
                new_version@,
                None,
            ) is Ok,
            r matches Ok(plan) ==> plan_result(
                entries_view(self.repos@),
                source_release_version@,
                new_version@,
                None,
            ) == Ok::<Seq<PlanView>, PlanFault>(plan_views(plan@)),
            r matches Err(e) ==> plan_result(
                entries_view(self.repos@),
                source_release_version@,
                new_version@,
                None,
            ) == Err::<Seq<PlanView>, PlanFault>(fault_of(e)),
    {
        self.build_plan(source_release_version, new_version, None)
    }

    fn build_plan(&self, source_release_version: &str, new_version: &str, branch_prefix: Option<&str>) -> (r: Result<Vec<ManifestRefPlan>, GitError>)
        ensures
            r is Ok <==> plan_result(
                entries_view(self.repos@),
                source_release_version@,
                new_version@,
                opt_str_view(branch_prefix),
            ) is Ok,
            r matches Ok(plan) ==> plan_result(
                entries_view(self.repos@),
                source_release_version@,
                new_version@,
                opt_str_view(branch_prefix),
            ) == Ok::<Seq<PlanView>, PlanFault>(plan_views(plan@)),
            r matches Err(e) ==> plan_result(
                entries_view(self.repos@),
                source_release_version@,
                new_version@,
                opt_str_view(branch_prefix),
            ) == Err::<Seq<PlanView>, PlanFault>(fault_of(e)),
    {
        let ghost entries = entries_view(self.repos@);
        let src = required_value(source_release_version, "Source release version must not be empty")?;
        let new = required_value(new_version, "New version must not be empty")?;
        let prefix = match branch_prefix {
            Some(p) => Some(required_value(p, "New branch prefix must not be empty")?),
            None => None,
        };
        let ghost prefix_view = opt_str_view(prefix);
        assert(plan_result(entries, source_release_version@, new_version@, opt_str_view(branch_prefix))
            == plan_over(entries, src@, new@, prefix_view));
        let mut plan: Vec<ManifestRefPlan> = Vec::new();
        let n = self.repos.len();
        let mut i: usize = 0;
        assert(entries.subrange(0, 0) =~= Seq::<(Seq<char>, EntryView)>::empty());
        assert(plan_views(plan@) =~= Seq::<PlanView>::empty());
        while i < n
            invariant
                n == self.repos@.len(),
                i <= n,
                entries == entries_view(self.repos@),
                prefix_view == opt_str_view(prefix),
                plan_result(
                    entries,
                    source_release_version@,
                    new_version@,
                    opt_str_view(branch_prefix),
                ) == plan_over(entries, src@, new@, prefix_view),
                plan_over(entries.subrange(0, i as int), src@, new@, prefix_view) == Ok::<
                    Seq<PlanView>,
                    PlanFault,
                >(plan_views(plan@)),
            decreases n - i,
        {
            let ghost before = plan_views(plan@);
            let ghost prefix_entries = entries.subrange(0, i + 1);
            assert(prefix_entries.drop_last() =~= entries.subrange(0, i as int));
            assert(prefix_entries.last() == entries[i as int]);
            let (component, entry) = &self.repos[i];
            let ghost step = plan_step(before, component@, entry@, src@, new@, prefix_view);
            assert(plan_over(prefix_entries, src@, new@, prefix_view) == step);
            proof {
                reveal_strlit("accelbuild");
            }
            if eq_ignore_ascii_case_exec(component.as_str(), "accelbuild") {
                i += 1;
                continue;
            }
            match validate_entry(component.as_str(), entry) {
                Ok(()) => {},
                Err(e) => {
                    proof {
                        lemma_fault_persists(entries, i + 1, src@, new@, prefix_view);
                    }
                    return Err(e);
                },
            }
            let repository = match normalize_github_url(entry.url.as_str()) {
                Ok(u) => u,
                Err(e) => {
                    proof {
                        lemma_fault_persists(entries, i + 1, src@, new@, prefix_view);
                    }
                    return Err(e);
                },
            };
            let source_body = match after_char_exec(entry.branch.as_str(), '/') {
                Some(body) => body,
                None => entry.branch.as_str(),
            };
            if !contains(source_body, src) {
                let mut m = owned("Component '");
                m.append(component.as_str());
                m.append("' branch '");
                m.append(entry.branch.as_str());
                m.append("' does not contain source release version '");
                m.append(src);
                m.append("'");
                proof {
                    lemma_fault_persists(entries, i + 1, src@, new@, prefix_view);
                }
                return Err(GitError::Other(m));
            }
            let target_body = replacen_once(source_body, src, new);
            let target_ref = match prefix {
                Some(p) => {
                    let mut t = owned(p);
                    t.append("/");
                    t.append(target_body.as_str());
                    t
                },
                None => {
                    let mut t = target_body;
                    t.append("-tag");
                    t
                },
            };
            match validate_ref_name(component.as_str(), target_ref.as_str()) {
                Ok(()) => {},
                Err(e) => {
                    proof {
                        lemma_fault_persists(entries, i + 1, src@, new@, prefix_view);
                    }
                    return Err(e);
                },
            }
            match find_target(&plan, repository.as_str(), target_ref.as_str()) {
                Some(j) => {
                    if !str_eq(plan[j].sha.as_str(), entry.sha.as_str()) {
                        let mut m = owned("Manifest target collision for ");
                        m.append(repository.as_str());
                        m.append(" '");
                        m.append(target_ref.as_str());
                        m.append("': ");
                        m.append(plan[j].sha.as_str());
                        m.append(" and ");
                        m.append(entry.sha.as_str());
                        proof {
                            lemma_fault_persists(entries, i + 1, src@, new@, prefix_view);
                        }
                        return Err(GitError::Other(m));
                    }
                },
                None => {
                    plan.push(
                        ManifestRefPlan {
                            component: owned(component.as_str()),
                            repository,
                            source_branch: owned(entry.branch.as_str()),
                            target_ref,
                            sha: owned(entry.sha.as_str()),
                        },
                    );
                    assert(plan_views(plan@) =~= step->Ok_0);
                },
            }
            i += 1;
        }
        assert(entries.subrange(0, n as int) =~= entries);
        Ok(plan)
    }
}

/// The view of an optional string slice.
pub open spec fn opt_str_view(o: Option<&str>) -> Option<Seq<char>> {
    match o {
        Some(s) => Some(s@),
        None => None,
    }
}

// ---------------------------------------------------------------------------------------------
// Reading manifests
// ---------------------------------------------------------------------------------------------

/// The entries with whitespace trimmed from each URL, branch and commit.
pub open spec fn trimmed_entries(entries: Seq<(Seq<char>, EntryView)>) -> Seq<(Seq<char>, EntryView)> {
    entries.map_values(
        |e: (Seq<char>, EntryView)| (e.0, (trim_ws(e.1.0), trim_ws(e.1.1), trim_ws(e.1.2))),
    )
}

/// The view of an optional string, trimmed.
pub open spec fn trimmed_opt(o: Option<String>) -> Option<Seq<char>> {
    match o {
        Some(s) => Some(trim_ws(s@)),
        None => None,
    }
}

/// The view of an optional string.
pub open spec fn opt_string_view(o: Option<String>) -> Option<Seq<char>> {
    match o {
        Some(s) => Some(s@),
        None => None,
    }
}

impl ComponentManifest {
    /// Checks a manifest just read from YAML and trims its text: a manifest without
    /// repositories is refused; the paths, URLs, branches and commits lose surrounding
    /// whitespace.
    pub fn from_parsed(parsed: ComponentManifest) -> (r: Result<ComponentManifest, GitError>)
        requires
            parsed.well_formed(),
        ensures
            r is Err <==> parsed.repos@.len() == 0,
            r matches Err(e) ==> (e matches GitError::Other(m) && m@
                == "Component manifest contains no repositories"@),
            r matches Ok(m) ==> {
                &&& m.well_formed()
                &&& entries_view(m.repos@) == trimmed_entries(entries_view(parsed.repos@))
                &&& opt_string_view(m.build_artifact_path) == trimmed_opt(
                    parsed.build_artifact_path,
                )
                &&& opt_string_view(m.release_version) == trimmed_opt(parsed.release_version)
            },
    {
        if parsed.repos.len() == 0 {
            return Err(GitError::Other(owned("Component manifest contains no repositories")));
        }
        let ghost before = entries_view(parsed.repos@);
        let ComponentManifest { build_artifact_path, release_version, repos } = parsed;
        let mut out: Vec<(String, ManifestRepository)> = Vec::new();
        let n = repos.len();
        let mut i: usize = 0;
        while i < n
            invariant
                n == repos@.len(),
                i <= n,
                before == entries_view(repos@),
                entries_view(out@) == trimmed_entries(before.subrange(0, i as int)),
            decreases n - i,
        {
            let (name, entry) = &repos[i];
            let ghost old_out = entries_view(out@);
            let ghost item = (name@, (trim_ws(entry.url@), trim_ws(entry.branch@), trim_ws(entry.sha@)));
            assert(before[i as int] == (name@, entry@));
            assert(trimmed_entries(before.subrange(0, i + 1)) =~= trimmed_entries(
                before.subrange(0, i as int),
            ).push(item));
            out.push(
                (
                    owned(name.as_str()),
                    ManifestRepository {
                        url: owned(trim(entry.url.as_str())),
                        branch: owned(trim(entry.branch.as_str())),
                        sha: owned(trim(entry.sha.as_str())),
                    },
                ),
            );
            assert(entries_view(out@) =~= old_out.push(item));
            i += 1;
        }
        assert(before.subrange(0, n as int) =~= before);
        let m = ComponentManifest {
            build_artifact_path: trim_optional(build_artifact_path),
            release_version: trim_optional(release_version),
            repos: out,
        };
        assert forall|a: int, b: int| 0 <= a < b < entries_view(m.repos@).len() implies lex_lt(
            #[trigger] entries_view(m.repos@)[a].0,
            #[trigger] entries_view(m.repos@)[b].0,
        ) by {
            assert(entries_view(m.repos@)[a].0 == before[a].0);
            assert(entries_view(m.repos@)[b].0 == before[b].0);
        }
        Ok(m)
    }
}

/// Where a manifest is read from.
pub enum ManifestSource {
    /// An HTTP(S) URL.
    Url(String),
    /// A local path.
    Path(String),
}

/// Where `source` says to read a manifest from, once trimmed: an `https://` or `http://`
/// address is fetched, anything else is a path; an empty source is an error.
pub fn manifest_source(source: &str) -> (r: Result<ManifestSource, GitError>)
    ensures
        trim_ws(source@).len() == 0 <==> r is Err,
        r matches Err(e) ==> (e matches GitError::Other(m) && m@
            == "Component manifest path or URL must not be empty"@),
        r matches Ok(ManifestSource::Url(u)) ==> u@ == trim_ws(source@) && (has_prefix(
            trim_ws(source@),
            "https://"@,
        ) || has_prefix(trim_ws(source@), "http://"@)),
        r matches Ok(ManifestSource::Path(p)) ==> p@ == trim_ws(source@) && !has_prefix(
            trim_ws(source@),
            "https://"@,
        ) && !has_prefix(trim_ws(source@), "http://"@),
{
    let source = trim(source);
    if source.unicode_len() == 0 {
        return Err(GitError::Other(owned("Component manifest path or URL must not be empty")));
    }
    if starts_with(source, "https://") || starts_with(source, "http://") {
        Ok(ManifestSource::Url(owned(source)))
    } else {
        Ok(ManifestSource::Path(owned(source)))
    }
}

// ---------------------------------------------------------------------------------------------
// Laws of URL normalization
// ---------------------------------------------------------------------------------------------

/// A string that neither begins nor ends with whitespace, nor ends with a slash, is its own
/// trimmed form.
proof fn lemma_plain_ends(s: Seq<char>)
    requires
        s.len() > 0,
        !crate::text::is_white(s[0]),
        !crate::text::is_white(s.last()),
        s.last() != '/',
    ensures
        trim_end_char(trim_ws(s), '/') == s,
{
    lemma_trim_start_at(s, white_pred(), 0);
    assert(s.subrange(0, s.len() as int) =~= s);
    lemma_trim_end_at(s, white_pred(), s.len() as int);
    lemma_trim_end_at(s, char_pred('/'), s.len() as int);
}

/// A string whose `q`-th character differs from that of `p` does not begin with `p`.
proof fn lemma_prefix_differs(s: Seq<char>, p: Seq<char>, q: int)
    requires
        0 <= q < p.len(),
        q < s.len() ==> s[q] != p[q],
    ensures
        !has_prefix(s, p),
{
    if has_prefix(s, p) {
        assert(s.subrange(0, p.len() as int)[q] == s[q]);
    }
}

/// `owner/repo` splits on its slash into the owner and the repository, with nothing after.
proof fn lemma_split_path(o: Seq<char>, r: Seq<char>)
    requires
        is_name(o),
        is_name(r),
    ensures
        before_char(o + "/"@ + r, '/') == o,
        repo_piece(o + "/"@ + r) == r,
        !has_third_piece(o + "/"@ + r),
{
    reveal_strlit("/");
    let p = o + "/"@ + r;
    let slash = seq!['/'];
    assert(p[o.len() as int] == '/');
    assert(occurs_at(p, slash, o.len() as int)) by {
        assert(p.subrange(o.len() as int, o.len() + 1int) =~= slash);
    }
    assert forall|j: int| 0 <= j < o.len() implies !occurs_at(p, slash, j) by {
        assert(p[j] == o[j]);
        if occurs_at(p, slash, j) {
            assert(p.subrange(j, j + 1)[0] == p[j]);
        }
    }
    lemma_find_from_some(p, slash, 0, o.len() as int);
    assert(find_char(p, '/') == Some(o.len() as int));
    assert(p.subrange(0, o.len() as int) =~= o);
    assert(p.subrange(o.len() + 1int, p.len() as int) =~= r);
    assert forall|j: int| 0 <= j implies !occurs_at(r, slash, j) by {
        if occurs_at(r, slash, j) {
            assert(r.subrange(j, j + 1)[0] == r[j]);
        }
    }
    lemma_find_from_none(r, slash, 0);
}

/// The path of `host + owner/repo + suffix`, for the hosts and suffixes that GitHub URLs use.
proof fn lemma_form_path(host: Seq<char>, o: Seq<char>, r: Seq<char>, suffix: Seq<char>)
    requires
        is_name(o),
        is_name(r),
        !has_suffix(r, ".git"@),
        host == ""@ || host == "git@github.com:"@ || host == "ssh://git@github.com/"@ || host
            == "https://github.com/"@ || host == "http://github.com/"@,
        suffix == ""@ || suffix == ".git"@,
    ensures
        url_path(host + o + "/"@ + r + suffix) == o + "/"@ + r,
{
    reveal_strlit("");
    reveal_strlit("/");
    reveal_strlit(".git");
    reveal_strlit("git@github.com:");
    reveal_strlit("ssh://git@github.com/");
    reveal_strlit("https://github.com/");
    reveal_strlit("http://github.com/");
    let p = o + "/"@ + r;
    let ps = p + suffix;
    let s = host + ps;
    assert(host + o + "/"@ + r + suffix =~= s);
    assert(forall|i: int| 0 <= i < ps.len() ==> is_name_char(#[trigger] ps[i]) || ps[i] == '/') by {
        assert forall|i: int| 0 <= i < ps.len() implies is_name_char(#[trigger] ps[i]) || ps[i]
            == '/' by {
            if i < o.len() {
                assert(ps[i] == o[i]);
            } else if i == o.len() {
            } else if i < p.len() {
                assert(ps[i] == r[i - o.len() - 1]);
            } else {
                assert(ps[i] == suffix[i - p.len()]);
            }
        }
    }
    // Trimming leaves the URL as it is.
    if host.len() > 0 {
        assert(s[0] == host[0]);
    } else {
        assert(s[0] == o[0]);
    }
    if suffix.len() > 0 {
        assert(s.last() == 't');
    } else {
        assert(s.last() == r.last());
    }
    lemma_plain_ends(s);
    // The host is removed.
    if host == ""@ {
        assert(s =~= ps);
        lemma_prefix_differs(ps, "git@github.com:"@, 3);
        lemma_prefix_differs(ps, "ssh://git@github.com/"@, 3);
        lemma_prefix_differs(ps, "https://github.com/"@, 5);
        lemma_prefix_differs(ps, "http://github.com/"@, 4);
    } else {
        assert(s.subrange(0, host.len() as int) =~= host);
        assert(s.subrange(host.len() as int, s.len() as int) =~= ps);
        if host == "ssh://git@github.com/"@ {
            lemma_prefix_differs(s, "git@github.com:"@, 0);
        } else if host == "https://github.com/"@ {
            lemma_prefix_differs(s, "git@github.com:"@, 0);
            lemma_prefix_differs(s, "ssh://git@github.com/"@, 0);
        } else if host == "http://github.com/"@ {
            lemma_prefix_differs(s, "git@github.com:"@, 0);
            lemma_prefix_differs(s, "ssh://git@github.com/"@, 0);
            lemma_prefix_differs(s, "https://github.com/"@, 4);
        }
    }
    assert(without_host(s) == ps);
    // The `.git` suffix is removed when present, and only then.
    if suffix == ".git"@ {
        assert(ps.subrange(ps.len() - 4, ps.len() as int) =~= ".git"@);
        assert(ps.subrange(0, ps.len() - 4) =~= p);
    } else {
        assert(ps =~= p);
        if has_suffix(p, ".git"@) {
            let w = p.subrange(p.len() - 4, p.len() as int);
            if r.len() >= 4 {
                assert(r.subrange(r.len() - 4, r.len() as int) =~= w);
            } else {
                let k = o.len() - (p.len() - 4);
                assert(w[k] == '/');
            }
        }
    }
}

/// Normalization accepts the SSH and HTTP(S) forms of a GitHub URL and the bare
/// `owner/repository` form, with or without `.git`, and gives the HTTPS URL of the repository.
pub proof fn lemma_normalize_accepts_github_forms(owner: Seq<char>, repo: Seq<char>)
    requires
        is_name(owner),
        is_name(repo),
        !has_suffix(repo, ".git"@),
    ensures
        forall|host: Seq<char>, suffix: Seq<char>|
            (host == ""@ || host == "git@github.com:"@ || host == "ssh://git@github.com/"@ || host
                == "https://github.com/"@ || host == "http://github.com/"@) && (suffix == ""@
                || suffix == ".git"@) ==> #[trigger] normalized_url(host + owner + "/"@ + repo + suffix)
                == Some("https://github.com/"@ + owner + "/"@ + repo),
{
    assert forall|host: Seq<char>, suffix: Seq<char>|
        (host == ""@ || host == "git@github.com:"@ || host == "ssh://git@github.com/"@ || host
            == "https://github.com/"@ || host == "http://github.com/"@) && (suffix == ""@ || suffix
            == ".git"@) implies #[trigger] normalized_url(host + owner + "/"@ + repo + suffix)
        == Some("https://github.com/"@ + owner + "/"@ + repo) by {
        lemma_form_path(host, owner, repo, suffix);
        lemma_split_path(owner, repo);
    }
}

/// Normalizing a normalized URL gives it back, unless its repository name ends in `.git`
/// (which normalization strips once more).
pub proof fn lemma_normalize_idempotent(url: Seq<char>)
    requires
        normalized_url(url) is Some,
        !has_suffix(normalized_url(url)->0, ".git"@),
    ensures
        normalized_url(normalized_url(url)->0) == normalized_url(url),
{
    reveal_strlit("");
    reveal_strlit("https://github.com/");
    reveal_strlit(".git");
    let n = normalized_url(url)->0;
    let p = url_path(url);
    let o = before_char(p, '/');
    let r = repo_piece(p);
    assert(n == "https://github.com/"@ + o + "/"@ + r);
    if has_suffix(r, ".git"@) {
        assert(n.subrange(n.len() - 4, n.len() as int) =~= r.subrange(r.len() - 4, r.len() as int));
    }
    lemma_form_path("https://github.com/"@, o, r, ""@);
    assert("https://github.com/"@ + o + "/"@ + r + ""@ =~= n);
    lemma_split_path(o, r);
}

// ---------------------------------------------------------------------------------------------
// Laws of plans
// ---------------------------------------------------------------------------------------------

/// What every operation of a plan satisfies: the target is a valid reference name of the
/// requested shape, the commit is a full SHA, and the component is not the build tooling.
pub open spec fn sound_operation(op: PlanView, prefix: Option<Seq<char>>) -> bool {
    &&& valid_ref_name(op.3)
    &&& valid_sha(op.4)
    &&& !is_build_tooling(op.0)
    &&& match prefix {
        Some(p) => has_prefix(op.3, p + "/"@),
        None => has_suffix(op.3, "-tag"@),
    }
}

/// No two operations of a plan create the same reference in the same repository.
pub open spec fn distinct_targets(plan: Seq<PlanView>) -> bool {
    forall|j: int, k: int|
        0 <= j < k < plan.len() ==> !(#[trigger] plan[j].1 == #[trigger] plan[k].1 && plan[j].3
            == plan[k].3)
}

proof fn lemma_lookup_none(plan: Seq<PlanView>, repository: Seq<char>, target: Seq<char>)
    requires
        lookup_target(plan, repository, target) is None,
    ensures
        forall|k: int| 0 <= k < plan.len() ==> !(#[trigger] plan[k].1 == repository && plan[k].3 == target),
    decreases plan.len(),
{
    if plan.len() > 0 {
        lemma_lookup_none(plan.drop_last(), repository, target);
        assert forall|k: int| 0 <= k < plan.len() implies !(#[trigger] plan[k].1 == repository
            && plan[k].3 == target) by {
            if k < plan.len() - 1 {
                assert(plan[k] == plan.drop_last()[k]);
            }
        }
    }
}

proof fn lemma_plan_over_sound(
    entries: Seq<(Seq<char>, EntryView)>,
    source_version: Seq<char>,
    new_version: Seq<char>,
    prefix: Option<Seq<char>>,
)
    requires
        plan_over(entries, source_version, new_version, prefix) is Ok,
    ensures
        forall|k: int|
            0 <= k < plan_over(entries, source_version, new_version, prefix)->Ok_0.len()
                ==> sound_operation(
                #[trigger] plan_over(entries, source_version, new_version, prefix)->Ok_0[k],
                prefix,
            ),
        distinct_targets(plan_over(entries, source_version, new_version, prefix)->Ok_0),
    decreases entries.len(),
{
    reveal_strlit("/");
    reveal_strlit("-tag");
    if entries.len() > 0 {
        let rest = entries.drop_last();
        lemma_plan_over_sound(rest, source_version, new_version, prefix);
        let before = plan_over(rest, source_version, new_version, prefix)->Ok_0;
        let after = plan_over(entries, source_version, new_version, prefix)->Ok_0;
        if after.len() > before.len() {
            let component = entries.last().0;
            let e = entries.last().1;
            let repository = normalized_url(e.0)->0;
            let body = source_body(e.1);
            let target = target_ref_of(body, source_version, new_version, prefix);
            assert(after == before.push((component, repository, e.1, target, e.2)));
            lemma_lookup_none(before, repository, target);
            match prefix {
                Some(p) => {
                    let t = replace_first(body, source_version, new_version);
                    assert(target.subrange(0, (p + "/"@).len() as int) =~= p + "/"@);
                },
                None => {
                    let t = replace_first(body, source_version, new_version);
                    assert(target.subrange(target.len() - 4, target.len() as int) =~= "-tag"@);
                },
            }
            assert forall|k: int| 0 <= k < after.len() implies sound_operation(
                #[trigger] after[k],
                prefix,
            ) by {
                if k < before.len() {
                    assert(after[k] == before[k]);
                }
            }
            assert forall|j: int, k: int| 0 <= j < k < after.len() implies !(#[trigger] after[j].1
                == #[trigger] after[k].1 && after[j].3 == after[k].3) by {
                assert(after[j] == before[j]);
                if k < before.len() {
                    assert(after[k] == before[k]);
                }
            }
        }
    }
}

/// Every operation of a plan built from a manifest creates a valid reference of the requested
/// shape (`prefix/...` for branches, `...-tag` for tags) at a full commit SHA, never for the
/// build tooling, and no two operations create the same reference in the same repository.
pub proof fn lemma_plan_is_sound(
    manifest: ComponentManifest,
    source_version: Seq<char>,
    new_version: Seq<char>,
    prefix: Option<Seq<char>>,
)
    requires
        plan_result(entries_view(manifest.repos@), source_version, new_version, prefix) is Ok,
    ensures
        ({
            let plan = plan_result(
                entries_view(manifest.repos@),
                source_version,
                new_version,
                prefix,
            )->Ok_0;
            let shape = match prefix {
                Some(p) => Some(required_text(p)),
                None => None,
            };
            &&& forall|k: int| 0 <= k < plan.len() ==> sound_operation(#[trigger] plan[k], shape)
            &&& distinct_targets(plan)
        }),
{
    let entries = entries_view(manifest.repos@);
    let src = required_text(source_version);
    let new = required_text(new_version);
    match prefix {
        Some(p) => lemma_plan_over_sound(entries, src, new, Some(required_text(p))),
        None => lemma_plan_over_sound(entries, src, new, None),
    }
}

/// The entries that are not the build tooling, in their order.
pub open spec fn without_build_tooling(entries: Seq<(Seq<char>, EntryView)>) -> Seq<(Seq<char>, EntryView)>
    decreases entries.len(),
{
    if entries.len() == 0 {
        seq![]
    } else if is_build_tooling(entries.last().0) {
        without_build_tooling(entries.drop_last())
    } else {
        without_build_tooling(entries.drop_last()).push(entries.last())
    }
}

proof fn lemma_plan_over_without_tooling(
    entries: Seq<(Seq<char>, EntryView)>,
    source_version: Seq<char>,
    new_version: Seq<char>,
    prefix: Option<Seq<char>>,
)
    ensures
        plan_over(without_build_tooling(entries), source_version, new_version, prefix)
            == plan_over(entries, source_version, new_version, prefix),
    decreases entries.len(),
{
    if entries.len() > 0 {
        lemma_plan_over_without_tooling(entries.drop_last(), source_version, new_version, prefix);
        let w = without_build_tooling(entries);
        if !is_build_tooling(entries.last().0) {
            assert(w.drop_last() =~= without_build_tooling(entries.drop_last()));
            assert(w.last() == entries.last());
        }
    }
}

/// The build tooling's entries play no part in a plan: a manifest without them gives the same
/// plan, or the same fault, as the manifest with them, for branches and for tags alike.
pub proof fn lemma_build_tooling_ignored(
    manifest: ComponentManifest,
    without: ComponentManifest,
    source_version: Seq<char>,
    new_version: Seq<char>,
    prefix: Option<Seq<char>>,
)
    requires
        entries_view(without.repos@) == without_build_tooling(entries_view(manifest.repos@)),
    ensures
        plan_result(entries_view(without.repos@), source_version, new_version, prefix)
            == plan_result(entries_view(manifest.repos@), source_version, new_version, prefix),
{
    let entries = entries_view(manifest.repos@);
    let src = required_text(source_version);
    let new = required_text(new_version);
    match prefix {
        Some(p) => lemma_plan_over_without_tooling(entries, src, new, Some(required_text(p))),
        None => lemma_plan_over_without_tooling(entries, src, new, None),
    }
}

/// A tag reference without its `-tag` ending.
pub open spec fn tag_body(t: Seq<char>) -> Seq<char> {
    t.subrange(0, t.len() - 4)
}

/// A branch plan and a tag plan line up: operation by operation the same component,
/// repository, source branch and commit, the tag a body followed by `-tag` and the branch that
/// body under `prefix`.
pub open spec fn plans_line_up(branches: Seq<PlanView>, tags: Seq<PlanView>, prefix: Seq<char>) -> bool {
    &&& branches.len() == tags.len()
    &&& forall|i: int|
        #![trigger branches[i]]
        #![trigger tags[i]]
        0 <= i < branches.len() ==> {
            &&& branches[i].0 == tags[i].0
            &&& branches[i].1 == tags[i].1
            &&& branches[i].2 == tags[i].2
            &&& branches[i].4 == tags[i].4
            &&& tags[i].3.len() >= 4
            &&& tags[i].3 == tag_body(tags[i].3) + "-tag"@
            &&& branches[i].3 == prefix + "/"@ + tag_body(tags[i].3)
        }
}

proof fn lemma_lookup_lines_up(
    branches: Seq<PlanView>,
    tags: Seq<PlanView>,
    prefix: Seq<char>,
    repository: Seq<char>,
    body: Seq<char>,
)
    requires
        plans_line_up(branches, tags, prefix),
    ensures
        lookup_target(branches, repository, prefix + "/"@ + body) == lookup_target(
            tags,
            repository,
            body + "-tag"@,
        ),
    decreases branches.len(),
{
    reveal_strlit("/");
    reveal_strlit("-tag");
    if branches.len() > 0 {
        let last = branches.len() - 1;
        let b = branches[last];
        let t = tags[last];
        let tb = tag_body(t.3);
        if tb != body {
            let head = prefix + "/"@;
            assert((head + tb).subrange(head.len() as int, (head + tb).len() as int) =~= tb);
            assert((head + body).subrange(head.len() as int, (head + body).len() as int) =~= body);
            assert(prefix + "/"@ + tb != prefix + "/"@ + body);
            assert((tb + "-tag"@).subrange(0, tb.len() as int) =~= tb);
            assert((body + "-tag"@).subrange(0, body.len() as int) =~= body);
            assert(tb + "-tag"@ != body + "-tag"@);
        } else {
            assert(t.3 == body + "-tag"@);
        }
        assert(branches.last() == b && tags.last() == t);
        assert(plans_line_up(branches.drop_last(), tags.drop_last(), prefix)) by {
            assert forall|i: int| 0 <= i < branches.drop_last().len() implies branches.drop_last()[i]
                == branches[i] && tags.drop_last()[i] == tags[i] by {}
        }
        lemma_lookup_lines_up(branches.drop_last(), tags.drop_last(), prefix, repository, body);
    }
}

proof fn lemma_plans_over_line_up(
    entries: Seq<(Seq<char>, EntryView)>,
    source_version: Seq<char>,
    new_version: Seq<char>,
    prefix: Seq<char>,
)
    requires
        plan_over(entries, source_version, new_version, Some(prefix)) is Ok,
        plan_over(entries, source_version, new_version, None) is Ok,
    ensures
        plans_line_up(
            plan_over(entries, source_version, new_version, Some(prefix))->Ok_0,
            plan_over(entries, source_version, new_version, None)->Ok_0,
            prefix,
        ),
    decreases entries.len(),
{
    reveal_strlit("/");
    reveal_strlit("-tag");
    if entries.len() > 0 {
        let rest = entries.drop_last();
        lemma_plans_over_line_up(rest, source_version, new_version, prefix);
        let b = plan_over(rest, source_version, new_version, Some(prefix))->Ok_0;
        let t = plan_over(rest, source_version, new_version, None)->Ok_0;
        let b2 = plan_over(entries, source_version, new_version, Some(prefix))->Ok_0;
        let t2 = plan_over(entries, source_version, new_version, None)->Ok_0;
        let component = entries.last().0;
        let e = entries.last().1;
        if !is_build_tooling(component) {
            let repository = normalized_url(e.0)->0;
            let body = replace_first(source_body(e.1), source_version, new_version);
            lemma_lookup_lines_up(b, t, prefix, repository, body);
            if lookup_target(t, repository, body + "-tag"@) is None {
                let x = body + "-tag"@;
                assert(x.subrange(0, x.len() - 4) =~= body);
                assert(x.subrange(0, x.len() - 4) + "-tag"@ =~= x);
                assert(b2 == b.push((component, repository, e.1, prefix + "/"@ + body, e.2)));
                assert(t2 == t.push((component, repository, e.1, x, e.2)));
                assert forall|i: int| 0 <= i < b2.len() implies ({
                    &&& b2[i].0 == t2[i].0
                    &&& b2[i].1 == t2[i].1
                    &&& b2[i].2 == t2[i].2
                    &&& b2[i].4 == t2[i].4
                    &&& t2[i].3.len() >= 4
                    &&& t2[i].3 == tag_body(t2[i].3) + "-tag"@
                    &&& b2[i].3 == prefix + "/"@ + tag_body(t2[i].3)
                }) by {
                    if i < b.len() {
                        assert(b2[i] == b[i] && t2[i] == t[i]);
                    }
                }
            }
        }
    }
}

/// When a manifest gives both a branch plan under `prefix` and a tag plan, the two line up
/// operation by operation: the same components, repositories, source branches and commits, each
/// tag `body-tag` matched by the branch `prefix/body`, with the prefix as it is taken (without
/// surrounding whitespace and slashes).
pub proof fn lemma_branch_and_tag_plans_line_up(
    manifest: ComponentManifest,
    source_version: Seq<char>,
    new_version: Seq<char>,
    prefix: Seq<char>,
)
    requires
        plan_result(entries_view(manifest.repos@), source_version, new_version, Some(prefix)) is Ok,
        plan_result(entries_view(manifest.repos@), source_version, new_version, None) is Ok,
    ensures
        plans_line_up(
            plan_result(entries_view(manifest.repos@), source_version, new_version, Some(prefix))->Ok_0,
            plan_result(entries_view(manifest.repos@), source_version, new_version, None)->Ok_0,
            required_text(prefix),
        ),
{
    lemma_plans_over_line_up(
        entries_view(manifest.repos@),
        required_text(source_version),
        required_text(new_version),
        required_text(prefix),
    );
}

} // verus!
