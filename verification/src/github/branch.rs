//! Branches: the commit message of a text change, what a push reported, and the versions that
//! a version change of the distribution's build files touches.
use vstd::prelude::*;
use crate::error::{describe, ApiErrorKind, ApiFailure, GitError};
use crate::text::{
    before_char, before_char_exec, cat, contains, contains_seq, has_prefix, join_with, owned,
    replace_all, replace_all_exec, replace_char, replace_char_exec, second_piece, split_on, str_eq,
    trim, trim_ws, after_char_exec,
};
use crate::utils::filter::{
    escape_regex, get_or_compile, regex_accepts, regex_escape_of, regex_first_captures,
    regex_search, CompiledPattern,
};

verus! {

/// The commit message of a change of `old` to `new`: the one given, or an automated message
/// that says whether a version changed.
pub fn modification_message(message: Option<String>, is_version: bool, old: &str, new: &str) -> (r: String)
    ensures
        message matches Some(m) ==> r@ == m@,
        message is None && is_version ==> r@ == "[Automated] Changed version from '"@ + old@
            + "' to '"@ + new@ + "'"@,
        message is None && !is_version ==> r@ == "[Automated] Changed '"@ + old@ + "' to '"@
            + new@ + "'"@,
{
    match message {
        Some(m) => m,
        None => {
            let mut r = if is_version {
                owned("[Automated] Changed version from '")
            } else {
                owned("[Automated] Changed '")
            };
            r.append(old);
            r.append("' to '");
            r.append(new);
            r.append("'");
            r
        },
    }
}

/// What a push of a modified branch came to.
#[derive(Debug, PartialEq, Eq, Structural)]
pub enum PushOutcome {
    /// There was nothing to push.
    NoChanges,
    /// The changes were pushed.
    Success,
}

/// What a push came to, from its output and exit status: nothing to push when git says that
/// everything is up to date, a push error when it failed otherwise.
pub fn push_outcome(stdout: &str, stderr: &str, success: bool, repo: &str, branch: &str) -> (r: Result<PushOutcome, GitError>)
    ensures
        contains_seq(stdout@, "Everything up-to-date"@) || contains_seq(stderr@, "Everything up-to-date"@)
            ==> r == Ok::<PushOutcome, GitError>(PushOutcome::NoChanges),
        !(contains_seq(stdout@, "Everything up-to-date"@) || contains_seq(stderr@, "Everything up-to-date"@))
            && !success ==> (r matches Err(GitError::GitPushError(m)) && m@ == repo@ + "/"@ + branch@
            + " '"@ + trim_ws(stderr@) + "'"@),
        !(contains_seq(stdout@, "Everything up-to-date"@) || contains_seq(stderr@, "Everything up-to-date"@))
            && success ==> r == Ok::<PushOutcome, GitError>(PushOutcome::Success),
{
    if contains(stdout, "Everything up-to-date") || contains(stderr, "Everything up-to-date") {
        Ok(PushOutcome::NoChanges)
    } else if !success {
        let mut m = owned(repo);
        m.append("/");
        m.append(branch);
        m.append(" '");
        m.append(trim(stderr));
        m.append("'");
        Err(GitError::GitPushError(m))
    } else {
        Ok(PushOutcome::Success)
    }
}

/// Whether a change is a version change of the distribution's build repository, which also
/// touches its build numbers, package file names and Hadoop jar versions.
pub fn is_bigtop_version_change(repo: &str, is_version: bool) -> (r: bool)
    ensures
        r == (repo@ == "odp-bigtop"@ && is_version),
{
    str_eq(repo, "odp-bigtop") && is_version
}

/// The distribution version in a new version: what comes before its first `-`.
pub fn new_odp_version(new: &str) -> (r: &str)
    ensures
        r@ == before_char(new@, '-'),
{
    before_char_exec(new, '-')
}

/// The build number in a new version: what comes after its first `-`, up to the next one; a
/// version without one is an error.
pub fn new_build_number(new: &str) -> (r: Result<&str, GitError>)
    ensures
        second_piece(new@, '-') matches Some(b) ==> (r matches Ok(s) && s@ == b),
        second_piece(new@, '-') is None ==> (r matches Err(GitError::Other(m)) && m@
            == "Could not determine new build number"@),
{
    match after_char_exec(new, '-') {
        Some(rest) => Ok(before_char_exec(rest, '-')),
        None => Err(GitError::Other(owned("Could not determine new build number"))),
    }
}

/// A version with its dots replaced by dashes, as the Debian package files write it.
pub fn dashed_version(version: &str) -> (r: String)
    ensures
        r@ == replace_char(version@, '.', '-'),
{
    replace_char_exec(version, '.', '-')
}

/// The new name of a Debian package file whose name held the old dashed version: the prefix,
/// the new dashed version, then the suffix.
pub fn renamed_package_file(prefix: &str, new_dashed: &str, suffix: &str) -> (r: String)
    ensures
        r@ == prefix@ + "-"@ + new_dashed@ + suffix@,
{
    let mut n = owned(prefix);
    n.append("-");
    n.append(new_dashed);
    n.append(suffix);
    n
}

/// The Hadoop version in a distribution version: its first three dot-separated parts, joined
/// by dots (`splitn(4, '.')`, of which three are taken).
pub open spec fn hadoop_version_of(version: Seq<char>) -> Seq<char> {
    let pieces = split_on(version, '.');
    if pieces.len() <= 3 {
        join_with(pieces, "."@)
    } else {
        join_with(pieces.subrange(0, 3), "."@)
    }
}

/// The Hadoop version in a distribution version.
pub fn hadoop_version(version: &str) -> (r: String)
    ensures
        r@ == hadoop_version_of(version@),
{
    let first = before_char_exec(version, '.');
    let mut out = owned(first);
    let mut rest = after_char_exec(version, '.');
    let mut taken: usize = 1;
    proof {
        reveal_strlit(".");
    }
    let ghost pieces = split_on(version@, '.');
    proof {
        crate::text::lemma_split_on_unfold(version@, '.');
        if rest is Some {
            assert(pieces.subrange(0, 1) =~= seq![first@]);
            assert(pieces =~= pieces.subrange(0, 1) + split_on(rest->0@, '.'));
        }
    }
    while taken < 3
        invariant
            1 <= taken <= 3,
            pieces == split_on(version@, '.'),
            rest is None ==> pieces.len() == taken && out@ == join_with(pieces, "."@),
            rest matches Some(t) ==> taken < pieces.len() && pieces == pieces.subrange(0, taken as int) + split_on(t@, '.')
                && out@ == join_with(pieces.subrange(0, taken as int), "."@),
        ensures
            1 <= taken <= 3,
            rest is None ==> pieces.len() == taken && out@ == join_with(pieces, "."@),
            rest matches Some(t) ==> taken == 3 && taken < pieces.len() && out@ == join_with(pieces.subrange(0, taken as int), "."@),
        decreases 3 - taken,
    {
        match rest {
            None => {
                break;
            },
            Some(t) => {
                proof {
                    crate::text::lemma_split_on_unfold(t@, '.');
                    reveal_strlit(".");
                }
                let piece = before_char_exec(t, '.');
                out.append(".");
                out.append(piece);
                rest = after_char_exec(t, '.');
                proof {
                    let prefix = pieces.subrange(0, taken as int);
                    let next = pieces.subrange(0, taken + 1);
                    assert(pieces[taken as int] == split_on(t@, '.')[0]);
                    assert(next =~= prefix.push(piece@));
                    assert(next.drop_last() =~= prefix);
                    match rest {
                        Some(t2) => {
                            crate::text::lemma_split_on_unfold(t2@, '.');
                            assert(pieces =~= next + split_on(t2@, '.'));
                        },
                        None => {
                            assert(pieces =~= next);
                        },
                    }
                }
                taken += 1;
            },
        }
    }
    proof {
        if rest is Some {
            crate::text::lemma_split_on_unfold(rest->0@, '.');
        }
    }
    out
}


// ---------------------------------------------------------------------------------------------
// The edits of a text change
// ---------------------------------------------------------------------------------------------

/// Finds a distribution version (four numbers) and its build number in a version.
pub const ODP_VERSION_PATTERN: &'static str = "(?P<odp>[0-9]+[.][0-9]+[.][0-9]+[.][0-9]+)-(?P<build_num>[0-9]+|SNAPSHOT)";

/// The start of the expression that finds the lines setting the distribution version, at the
/// start of any line; the escaped version and an optional closing quote follow it.
pub const ODP_LINE_START: &'static str = "(?m)^(?<indent>\\s*)(?<key>version|VERSION|ODP_VERSION|odp_version)(?![A-Za-z0-9_])\\s*=\\s*\\\"?";

/// Finds the lines of the build files that set the build number.
pub const BUILD_NUMBER_PATTERN: &'static str = "(?<indent>\\s*)(?<bn>odp_bn|ODP_BN)\\s*=\\s*\"(?:[0-9]+|SNAPSHOT)\";";

/// A whole distribution release: four numbers and a build number.
pub const ODP_RELEASE_PATTERN: &'static str = "^[0-9]+\\.[0-9]+\\.[0-9]+\\.[0-9]+-([0-9]+|SNAPSHOT)$";

/// Where the Debian packaging lives in the build repository.
pub const DEBIAN_DIRECTORY: &'static str = "bigtop-packages/src/deb";

/// Where the lists of Hadoop jars live in the build repository.
pub const HADOOP_DIRECTORY: &'static str = "bigtop-packages/src/common/hadoop";

/// One replacement in the text files under a directory of a checkout.
#[derive(Debug)]
pub struct TextEdit {
    /// The directory, relative to the checkout, whose files are edited; empty for all of it.
    pub scope: String,
    /// What is replaced.
    pub pattern: CompiledPattern,
    /// What each match becomes, with `$name` and `${name}` standing for a group of the match
    /// and `$$` for a dollar sign.
    pub replacement: String,
}

/// A step of a change of text in a checkout.
#[derive(Debug)]
pub enum EditStep {
    /// Replace matches in the files under a directory.
    Replace(TextEdit),
    /// Rename the files under `scope` whose names `pattern` matches: the first group, a dash,
    /// the new dashed version, then the second group.
    RenameFiles { scope: String, pattern: CompiledPattern, new_dashed: String },
}

/// A step, by its text.
pub enum StepView {
    Replace { scope: Seq<char>, pattern: Seq<char>, replacement: Seq<char> },
    Rename { scope: Seq<char>, pattern: Seq<char>, new_dashed: Seq<char> },
}

/// The text of a step.
pub open spec fn step_view(s: EditStep) -> StepView {
    match s {
        EditStep::Replace(e) => StepView::Replace {
            scope: e.scope@,
            pattern: e.pattern@,
            replacement: e.replacement@,
        },
        EditStep::RenameFiles { scope, pattern, new_dashed } => StepView::Rename {
            scope: scope@,
            pattern: pattern@,
            new_dashed: new_dashed@,
        },
    }
}

/// The text of a list of steps.
pub open spec fn step_views(v: Seq<EditStep>) -> Seq<StepView> {
    v.map_values(|s: EditStep| step_view(s))
}

/// Why the edits could not be worked out.
pub enum EditFault {
    /// A search failed, or an expression built from the versions did not compile.
    Regex,
    /// An error with this message.
    Message(Seq<char>),
    /// An error whose message is this text followed by the expression compiler's complaint.
    MessageFrom(Seq<char>),
}

/// Whether `e` is the error that `f` describes.
pub open spec fn reports(e: GitError, f: EditFault) -> bool {
    match f {
        EditFault::Regex => e is RegexError,
        EditFault::Message(m) => e matches GitError::Other(t) && t@ == m,
        EditFault::MessageFrom(p) => e matches GitError::Other(t) && has_prefix(t@, p),
    }
}

/// Text that a replacement writes as it is: each `$` doubled.
pub open spec fn literal_template(s: Seq<char>) -> Seq<char> {
    replace_all(s, "$"@, "$$"@)
}

/// The replacement of every occurrence of the old text by the new one, in the whole checkout.
pub open spec fn main_step(old: Seq<char>, new: Seq<char>) -> Result<StepView, EditFault> {
    let p = regex_escape_of(old);
    if regex_accepts(p) {
        Ok(StepView::Replace { scope: seq![], pattern: p, replacement: new })
    } else {
        Err(EditFault::Message("Unable to compile regex using '"@ + old + "'"@))
    }
}

/// The expression that finds the lines setting the distribution version `odp`.
pub open spec fn odp_line_pattern(odp: Seq<char>) -> Seq<char> {
    ODP_LINE_START@ + regex_escape_of(odp) + "\"?"@
}

/// When the old text holds a distribution version, the edit that sets the lines assigning it
/// to the new distribution version, in the whole checkout, keeping their indentation and key.
pub open spec fn odp_step(old: Seq<char>, new: Seq<char>) -> Result<Option<StepView>, EditFault> {
    if !regex_accepts(ODP_VERSION_PATTERN@) {
        Err(EditFault::Message("Unable to compile ODP regex"@))
    } else {
        match regex_first_captures(ODP_VERSION_PATTERN@, old) {
            None => Err(EditFault::Regex),
            Some(None) => Ok(None),
            Some(Some(groups)) => if groups.len() > 1 && groups[1] is Some {
                let p = odp_line_pattern(groups[1]->0);
                if regex_accepts(p) {
                    Ok(
                        Some(
                            StepView::Replace {
                                scope: seq![],
                                pattern: p,
                                replacement: "${indent}${key} = \""@ + literal_template(
                                    before_char(new, '-'),
                                ) + "\""@,
                            },
                        ),
                    )
                } else {
                    Err(EditFault::Regex)
                }
            } else {
                Err(EditFault::Message("Some error occurred while determining the ODP VERSION"@))
            },
        }
    }
}

/// The edit that sets the build number settings to the new build number, in the whole
/// checkout.
pub open spec fn build_number_step(new: Seq<char>) -> Result<StepView, EditFault> {
    match second_piece(new, '-') {
        None => Err(EditFault::Message("Could not determine new build number"@)),
        Some(b) => if regex_accepts(BUILD_NUMBER_PATTERN@) {
            Ok(
                StepView::Replace {
                    scope: seq![],
                    pattern: BUILD_NUMBER_PATTERN@,
                    replacement: "${indent}${bn} = \""@ + literal_template(b) + "\";"@,
                },
            )
        } else {
            Err(EditFault::MessageFrom("Unable to compile ODP build number regex: "@))
        },
    }
}

/// The expression that finds the Debian package files named after the old dashed version.
pub open spec fn debian_name_pattern(old_dashed: Seq<char>) -> Seq<char> {
    "^(.*)-"@ + regex_escape_of(old_dashed) + "([.-].*)(.*)"@
}

/// The edits of the Debian packaging: the dashed version replaced in the whole checkout, then
/// the package files renamed.
pub open spec fn debian_steps(old: Seq<char>, new: Seq<char>) -> Result<Seq<StepView>, EditFault> {
    let od = replace_char(old, '.', '-');
    let nd = replace_char(new, '.', '-');
    if !regex_accepts(regex_escape_of(od)) {
        Err(EditFault::MessageFrom("Unable to compile ODP version with dashes regex using '"@ + od + "': "@))
    } else if !regex_accepts(debian_name_pattern(od)) {
        Err(EditFault::MessageFrom("Failed to compile bigtop regex '"@ + debian_name_pattern(od) + "': "@))
    } else {
        Ok(
            seq![
                StepView::Replace { scope: seq![], pattern: regex_escape_of(od), replacement: nd },
                StepView::Rename { scope: DEBIAN_DIRECTORY@, pattern: debian_name_pattern(od), new_dashed: nd },
            ],
        )
    }
}

/// The Hadoop jar version that a distribution release carries: the Hadoop version, a dot,
/// then the release.
pub open spec fn jar_version(version: Seq<char>, release: Seq<char>) -> Seq<char> {
    hadoop_version_of(version) + "."@ + release
}

/// When both versions are whole distribution releases, the edit of the Hadoop jar lists: the
/// jar version of the old Hadoop version, as a whole word, becomes that of the new one.
pub open spec fn hadoop_step(old: Seq<char>, new: Seq<char>) -> Result<Option<StepView>, EditFault> {
    if !regex_accepts(ODP_RELEASE_PATTERN@) {
        Err(EditFault::Regex)
    } else {
        match regex_search(ODP_RELEASE_PATTERN@, old) {
            None => Err(EditFault::Regex),
            Some(false) => Ok(None),
            Some(true) => match regex_search(ODP_RELEASE_PATTERN@, new) {
                None => Err(EditFault::Regex),
                Some(false) => Ok(None),
                Some(true) => {
                    let p = "\\b"@ + regex_escape_of(jar_version(old, new)) + "\\b"@;
                    if regex_accepts(p) {
                        Ok(Some(StepView::Replace { scope: HADOOP_DIRECTORY@, pattern: p, replacement: jar_version(new, new) }))
                    } else {
                        Err(EditFault::MessageFrom("Unable to compile regex for Hadoop JARs using '"@ + old + "': "@))
                    }
                },
            },
        }
    }
}

/// A step that may be absent, as a list.
pub open spec fn optional_step(o: Option<StepView>) -> Seq<StepView> {
    match o {
        Some(s) => seq![s],
        None => seq![],
    }
}

/// The edits of the version and build number settings: the version lines when the old text
/// holds a distribution version, then the build number settings.
pub open spec fn odp_and_bn_steps(old: Seq<char>, new: Seq<char>) -> Result<Seq<StepView>, EditFault> {
    match odp_step(old, new) {
        Err(f) => Err(f),
        Ok(o) => match build_number_step(new) {
            Err(f) => Err(f),
            Ok(b) => Ok(optional_step(o) + seq![b]),
        },
    }
}

/// The steps of changing `old` to `new` in a checkout of `repo`: the text replaced everywhere,
/// and for a version change of the distribution's build repository also its version and build
/// number settings, its Debian packaging and its Hadoop jar lists.
pub open spec fn edit_plan(repo: Seq<char>, old: Seq<char>, new: Seq<char>, is_version: bool) -> Result<Seq<StepView>, EditFault> {
    match main_step(old, new) {
        Err(f) => Err(f),
        Ok(m) => if !(repo == "odp-bigtop"@ && is_version) {
            Ok(seq![m])
        } else {
            match odp_and_bn_steps(old, new) {
                Err(f) => Err(f),
                Ok(a) => match debian_steps(old, new) {
                    Err(f) => Err(f),
                    Ok(d) => match hadoop_step(old, new) {
                        Err(f) => Err(f),
                        Ok(h) => Ok(seq![m] + a + d + optional_step(h)),
                    },
                },
            }
        },
    }
}

/// The complaint that an error carries: the compiler's or searcher's own text for a regular
/// expression error, and the error's description otherwise.
fn complaint(e: &GitError) -> (r: String)
    ensures
        r@ == (match *e {
            GitError::RegexError(f) => f.message@,
            _ => describe(*e),
        }),
{
    match e {
        GitError::RegexError(f) => owned(f.message.as_str()),
        _ => e.message(),
    }
}

/// An error whose message is `prefix` followed by the complaint of `e`.
fn with_complaint(prefix: &str, e: &GitError) -> (r: GitError)
    ensures
        reports(r, EditFault::MessageFrom(prefix@)),
{
    let text = complaint(e);
    let m = cat(prefix, text.as_str());
    assert(m@.subrange(0, prefix@.len() as int) =~= prefix@);
    GitError::Other(m)
}

/// A replacement in the whole checkout.
fn everywhere(pattern: CompiledPattern, replacement: String) -> (r: EditStep)
    ensures
        step_view(r) == (StepView::Replace { scope: seq![], pattern: pattern@, replacement: replacement@ }),
{
    EditStep::Replace(TextEdit { scope: String::new(), pattern, replacement })
}

/// The replacement of every occurrence of `old` by `new` in the whole checkout.
fn main_edit(old: &str, new: &str) -> (r: Result<EditStep, GitError>)
    ensures
        match main_step(old@, new@) {
            Ok(s) => r matches Ok(x) && step_view(x) == s,
            Err(f) => r matches Err(e) && reports(e, f),
        },
{
    let p = escape_regex(old);
    match get_or_compile(p.as_str()) {
        Ok(c) => Ok(everywhere(c, owned(new))),
        Err(_) => {
            let mut m = owned("Unable to compile regex using '");
            m.append(old);
            m.append("'");
            Err(GitError::Other(m))
        },
    }
}

/// `s` with each `$` doubled, so that a replacement writes it as it is.
fn literal(s: &str) -> (r: String)
    ensures
        r@ == literal_template(s@),
{
    proof {
        reveal_strlit("$");
    }
    replace_all_exec(s, "$", "$$")
}

/// The edit of the lines that set the distribution version, when the old text holds one.
fn odp_version_edit(old: &str, new: &str) -> (r: Result<Option<EditStep>, GitError>)
    ensures
        match odp_step(old@, new@) {
            Ok(None) => r matches Ok(None),
            Ok(Some(s)) => r matches Ok(Some(x)) && step_view(x) == s,
            Err(f) => r matches Err(e) && reports(e, f),
        },
{
    let finder = match get_or_compile(ODP_VERSION_PATTERN) {
        Ok(c) => c,
        Err(_) => {
            return Err(GitError::Other(owned("Unable to compile ODP regex")));
        },
    };
    let groups = match finder.captures(old) {
        Err(e) => {
            return Err(e);
        },
        Ok(None) => {
            return Ok(None);
        },
        Ok(Some(g)) => g,
    };
    if groups.len() <= 1 || groups[1].is_none() {
        return Err(GitError::Other(owned("Some error occurred while determining the ODP VERSION")));
    }
    let odp = match &groups[1] {
        Some(v) => v,
        None => {
            return Err(GitError::Other(owned("Some error occurred while determining the ODP VERSION")));
        },
    };
    let mut pattern = owned(ODP_LINE_START);
    let escaped = escape_regex(odp.as_str());
    pattern.append(escaped.as_str());
    pattern.append("\"?");
    let line = match get_or_compile(pattern.as_str()) {
        Ok(c) => c,
        Err(e) => {
            return Err(e);
        },
    };
    let version = literal(new_odp_version(new));
    let mut replacement = owned("${indent}${key} = \"");
    replacement.append(version.as_str());
    replacement.append("\"");
    Ok(Some(everywhere(line, replacement)))
}

/// The edit of the build number settings.
fn build_number_edit(new: &str) -> (r: Result<EditStep, GitError>)
    ensures
        match build_number_step(new@) {
            Ok(s) => r matches Ok(x) && step_view(x) == s,
            Err(f) => r matches Err(e) && reports(e, f),
        },
{
    let number = match new_build_number(new) {
        Ok(b) => b,
        Err(e) => {
            return Err(e);
        },
    };
    let finder = match get_or_compile(BUILD_NUMBER_PATTERN) {
        Ok(c) => c,
        Err(e) => {
            return Err(with_complaint("Unable to compile ODP build number regex: ", &e));
        },
    };
    let value = literal(number);
    let mut replacement = owned("${indent}${bn} = \"");
    replacement.append(value.as_str());
    replacement.append("\";");
    Ok(everywhere(finder, replacement))
}

/// The edits of the version and build number settings of `odp-bigtop`: the lines that set the
/// distribution version, when the old text holds one, then the build number settings.
pub fn replace_odp_and_bn(old: &str, new: &str) -> (r: Result<Vec<EditStep>, GitError>)
    ensures
        match odp_and_bn_steps(old@, new@) {
            Ok(s) => r matches Ok(v) && step_views(v@) == s,
            Err(f) => r matches Err(e) && reports(e, f),
        },
{
    let odp = match odp_version_edit(old, new) {
        Ok(o) => o,
        Err(e) => {
            return Err(e);
        },
    };
    let build = match build_number_edit(new) {
        Ok(b) => b,
        Err(e) => {
            return Err(e);
        },
    };
    let mut steps: Vec<EditStep> = Vec::new();
    if let Some(o) = odp {
        steps.push(o);
    }
    steps.push(build);
    assert(step_views(steps@) =~= odp_and_bn_steps(old@, new@)->Ok_0);
    Ok(steps)
}

/// The edits of the Debian packaging of `odp-bigtop`, whose file names and package names carry
/// the version with dashes: the old dashed version becomes the new one in every file, then the
/// package files named after it are renamed.
pub fn fix_debian_paths(old: &str, new: &str) -> (r: Result<Vec<EditStep>, GitError>)
    ensures
        match debian_steps(old@, new@) {
            Ok(s) => r matches Ok(v) && step_views(v@) == s,
            Err(f) => r matches Err(e) && reports(e, f),
        },
{
    let old_dashed = dashed_version(old);
    let new_dashed = dashed_version(new);
    let escaped = escape_regex(old_dashed.as_str());
    let content = match get_or_compile(escaped.as_str()) {
        Ok(c) => c,
        Err(e) => {
            let mut prefix = owned("Unable to compile ODP version with dashes regex using '");
            prefix.append(old_dashed.as_str());
            prefix.append("': ");
            return Err(with_complaint(prefix.as_str(), &e));
        },
    };
    let mut names_text = owned("^(.*)-");
    names_text.append(escaped.as_str());
    names_text.append("([.-].*)(.*)");
    let names = match get_or_compile(names_text.as_str()) {
        Ok(c) => c,
        Err(e) => {
            let mut prefix = owned("Failed to compile bigtop regex '");
            prefix.append(names_text.as_str());
            prefix.append("': ");
            return Err(with_complaint(prefix.as_str(), &e));
        },
    };
    let mut steps: Vec<EditStep> = Vec::new();
    steps.push(everywhere(content, owned(new_dashed.as_str())));
    steps.push(EditStep::RenameFiles { scope: owned(DEBIAN_DIRECTORY), pattern: names, new_dashed });
    assert(step_views(steps@) =~= debian_steps(old@, new@)->Ok_0);
    Ok(steps)
}

/// The edit of the Hadoop jar lists of `odp-bigtop`, which only applies when both versions are
/// whole distribution releases (`3.3.6.2-1`): the jar version of the old Hadoop version, as a
/// whole word, becomes that of the new one.
pub fn fix_hadoop_jars(old: &str, new: &str) -> (r: Result<Option<EditStep>, GitError>)
    ensures
        match hadoop_step(old@, new@) {
            Ok(None) => r matches Ok(None),
            Ok(Some(s)) => r matches Ok(Some(x)) && step_view(x) == s,
            Err(f) => r matches Err(e) && reports(e, f),
        },
{
    let release = match get_or_compile(ODP_RELEASE_PATTERN) {
        Ok(c) => c,
        Err(e) => {
            return Err(e);
        },
    };
    match release.is_match(old) {
        Err(e) => {
            return Err(e);
        },
        Ok(false) => {
            return Ok(None);
        },
        Ok(true) => {},
    }
    match release.is_match(new) {
        Err(e) => {
            return Err(e);
        },
        Ok(false) => {
            return Ok(None);
        },
        Ok(true) => {},
    }
    let mut old_full = hadoop_version(old);
    old_full.append(".");
    old_full.append(new);
    let mut new_full = hadoop_version(new);
    new_full.append(".");
    new_full.append(new);
    let mut pattern = owned("\\b");
    let escaped = escape_regex(old_full.as_str());
    pattern.append(escaped.as_str());
    pattern.append("\\b");
    match get_or_compile(pattern.as_str()) {
        Ok(c) => Ok(
            Some(EditStep::Replace(TextEdit { scope: owned(HADOOP_DIRECTORY), pattern: c, replacement: new_full })),
        ),
        Err(e) => {
            let mut prefix = owned("Unable to compile regex for Hadoop JARs using '");
            prefix.append(old);
            prefix.append("': ");
            Err(with_complaint(prefix.as_str(), &e))
        },
    }
}

/// The steps of changing `old_text` to `new_text` in a checkout of `repo`: every occurrence
/// replaced, and for a version change of `odp-bigtop` also its version and build number
/// settings, its Debian packaging and its Hadoop jar lists, in that order.
pub fn modification_steps(repo: &str, old_text: &str, new_text: &str, is_version: bool) -> (r: Result<Vec<EditStep>, GitError>)
    ensures
        match edit_plan(repo@, old_text@, new_text@, is_version) {
            Ok(s) => r matches Ok(v) && step_views(v@) == s,
            Err(f) => r matches Err(e) && reports(e, f),
        },
{
    let mut steps: Vec<EditStep> = Vec::new();
    match main_edit(old_text, new_text) {
        Ok(m) => steps.push(m),
        Err(e) => {
            return Err(e);
        },
    }
    if !is_bigtop_version_change(repo, is_version) {
        assert(step_views(steps@) =~= seq![main_step(old_text@, new_text@)->Ok_0]);
        return Ok(steps);
    }
    let mut settings = match replace_odp_and_bn(old_text, new_text) {
        Ok(a) => a,
        Err(e) => {
            return Err(e);
        },
    };
    let mut debian = match fix_debian_paths(old_text, new_text) {
        Ok(d) => d,
        Err(e) => {
            return Err(e);
        },
    };
    let hadoop = match fix_hadoop_jars(old_text, new_text) {
        Ok(h) => h,
        Err(e) => {
            return Err(e);
        },
    };
    let ghost first = step_views(steps@);
    let ghost a = step_views(settings@);
    let ghost d = step_views(debian@);
    steps.append(&mut settings);
    assert(step_views(steps@) =~= first + a);
    let ghost with_settings = step_views(steps@);
    steps.append(&mut debian);
    assert(step_views(steps@) =~= with_settings + d);
    let ghost with_debian = step_views(steps@);
    if let Some(h) = hadoop {
        steps.push(h);
    }
    assert(step_views(steps@) =~= with_debian + optional_step(hadoop_step(old_text@, new_text@)->Ok_0));
    Ok(steps)
}

/// The new name of a file under the Debian packaging, when `pattern` (a package file pattern of
/// [`modification_steps`]) matches its name: the first group, a dash, the new dashed version,
/// then the second group. A failed search is a [`GitError::RegexError`]; a match without both
/// groups is an error naming the file.
pub fn renamed_file_name(pattern: &CompiledPattern, file_name: &str, new_dashed: &str) -> (r: Result<Option<String>, GitError>)
    ensures
        match regex_first_captures(pattern@, file_name@) {
            None => r matches Err(e) && e is RegexError,
            Some(None) => r matches Ok(None),
            Some(Some(g)) => if g.len() > 2 && g[1] is Some && g[2] is Some {
                r matches Ok(Some(n)) && n@ == g[1]->0 + "-"@ + new_dashed@ + g[2]->0
            } else {
                r matches Err(GitError::Other(m)) && m@ == "Could not split the file name '"@ + file_name@ + "'"@
            },
        },
{
    let groups = match pattern.captures(file_name) {
        Err(e) => {
            return Err(e);
        },
        Ok(None) => {
            return Ok(None);
        },
        Ok(Some(g)) => g,
    };
    if groups.len() > 2 {
        match (&groups[1], &groups[2]) {
            (Some(prefix), Some(suffix)) => {
                return Ok(Some(renamed_package_file(prefix.as_str(), new_dashed, suffix.as_str())));
            },
            _ => {},
        }
    }
    let mut m = owned("Could not split the file name '");
    m.append(file_name);
    m.append("'");
    Err(GitError::Other(m))
}

// ---------------------------------------------------------------------------------------------
// What GitHub's answers about branches come to
// ---------------------------------------------------------------------------------------------

/// Whether GitHub refused to delete a branch because it does not exist, which counts as done.
pub fn is_missing_reference(e: &ApiFailure) -> (r: bool)
    ensures
        r == (e.kind == ApiErrorKind::GitHub && contains_seq(e.message@, "Reference does not exist"@)),
{
    e.kind == ApiErrorKind::GitHub && contains(e.message.as_str(), "Reference does not exist")
}

/// The commit that a tag points at, as GitHub gave it; no commit means there is no such tag.
pub fn tag_commit(sha: String, tag: &str) -> (r: Result<String, GitError>)
    ensures
        sha@.len() == 0 ==> (r matches Err(GitError::NoSuchTag(t)) && t@ == tag@),
        sha@.len() > 0 ==> r == Ok::<String, GitError>(sha),
{
    if sha.unicode_len() == 0 {
        Err(GitError::NoSuchTag(owned(tag)))
    } else {
        Ok(sha)
    }
}

/// What a failed creation of a branch from a tag comes to: an answer from GitHub itself is
/// reported and passed over, any other failure stands.
pub fn after_failed_branch_from_tag(e: GitError) -> (r: Result<(), GitError>)
    ensures
        (e matches GitError::GithubApiError(a) && a.kind == ApiErrorKind::GitHub) ==> r is Ok,
        !(e matches GitError::GithubApiError(a) && a.kind == ApiErrorKind::GitHub) ==> r == Err::<(), GitError>(e),
{
    match e {
        GitError::GithubApiError(a) => {
            if a.kind == ApiErrorKind::GitHub {
                Ok(())
            } else {
                Err(GitError::GithubApiError(a))
            }
        },
        other => Err(other),
    }
}

/// The file a branch of `repo` is downloaded to: the branch name with `.tar.gz`, with the
/// repository's name in front when the name begins with the non-empty `prefix`, so that
/// downloads of several repositories do not collide.
pub fn tarball_name(branch: &str, repo: &str, prefix: &str) -> (r: String)
    ensures
        ({
            let base = branch@ + ".tar.gz"@;
            &&& (prefix@.len() > 0 && has_prefix(base, prefix@)) ==> r@ == repo@ + "-"@ + base
            &&& !(prefix@.len() > 0 && has_prefix(base, prefix@)) ==> r@ == base
        }),
{
    let base = cat(branch, ".tar.gz");
    if prefix.unicode_len() > 0 && crate::text::starts_with(base.as_str(), prefix) {
        let mut named = owned(repo);
        named.append("-");
        named.append(base.as_str());
        named
    } else {
        base
    }
}

} // verus!
