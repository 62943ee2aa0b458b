//! Release notes: the first lines of the new commits, sorted into sections by what they
//! mention, under a header named after the repository and the release.
use vstd::prelude::*;
use crate::error::GitError;
use crate::text::{
    ascii_upper, ascii_upper_exec, cat, find_char, find_char_exec, has_prefix, has_suffix,
    join_with, owned, push_char, strip_prefix, strip_suffix,
};
use crate::utils::filter::{get_or_compile, regex_accepts, regex_search};

verus! {

/// What `char::to_uppercase` yields for `c`, as text.
pub uninterp spec fn upper_text(c: char) -> Seq<char>;

/// `char::to_uppercase`, collected into a string. The standard library documents that an ASCII
/// lower-case letter maps to its ASCII upper-case letter.
#[verifier::external_body]
fn char_upper(c: char) -> (r: String)
    ensures
        r@ == upper_text(c),
        'a' <= c && c <= 'z' ==> r@ == seq![crate::text::ascii_upper_char(c)],
{
    c.to_uppercase().collect::<String>()
}

/// Generated release notes: their name and their body.
#[derive(Debug)]
pub struct ReleaseNotes {
    pub name: String,
    pub body: String,
}

/// The first line of a commit message, as `str::lines` gives it: up to the first `\n`, without
/// a `\r` just before it; an empty message has none.
pub open spec fn first_line(message: Seq<char>) -> Option<Seq<char>> {
    if message.len() == 0 {
        None
    } else {
        match find_char(message, '\n') {
            None => Some(message),
            Some(i) => {
                let line = message.subrange(0, i);
                if has_suffix(line, "\r"@) {
                    Some(line.drop_last())
                } else {
                    Some(line)
                }
            },
        }
    }
}

/// The first line of a commit message.
pub fn commit_first_line(message: &str) -> (r: Option<String>)
    ensures
        r is None <==> first_line(message@) is None,
        r matches Some(l) ==> first_line(message@) == Some(l@),
{
    proof {
        reveal_strlit("\r");
    }
    if message.unicode_len() == 0 {
        return None;
    }
    match find_char_exec(message, '\n') {
        None => Some(owned(message)),
        Some(i) => {
            let line = message.substring_char(0, i);
            match strip_suffix(line, "\r") {
                Some(l) => {
                    assert(l@ =~= line@.drop_last());
                    Some(owned(l))
                },
                None => Some(owned(line)),
            }
        },
    }
}

/// The name of a repository with its first character in upper case.
pub open spec fn capitalized(repo: Seq<char>) -> Seq<char> {
    if repo.len() == 0 {
        seq![]
    } else {
        upper_text(repo[0]) + repo.drop_first()
    }
}

/// A repository name with its first character in upper case.
pub fn capitalize(repo: &str) -> (r: String)
    ensures
        r@ == capitalized(repo@),
{
    let n = repo.unicode_len();
    if n == 0 {
        return String::new();
    }
    let mut r = char_upper(repo.get_char(0));
    r.append(repo.substring_char(1, n));
    assert(repo@.subrange(1, n as int) =~= repo@.drop_first());
    r
}

/// The expression that marks a vulnerability fix, matched on the upper-cased line.
pub const CVE_PATTERN: &'static str = "OSV|CVE";

/// The expression that marks a change of the distribution, matched on the upper-cased line.
pub const ODP_PATTERN: &'static str = "ODP-[0-9]*";

/// The expression that marks a change from the component itself: its upper-cased name and an
/// issue number, matched on the line as it is.
pub open spec fn component_pattern(repo: Seq<char>) -> Seq<char> {
    ascii_upper(repo) + "-[0-9]+"@
}

/// The sections of the release notes: distribution changes, vulnerability fixes, changes from
/// the component, and other changes, each in commit order.
pub type Sections = (Seq<Seq<char>>, Seq<Seq<char>>, Seq<Seq<char>>, Seq<Seq<char>>);

/// The sections after sorting the lines in order. A line goes to the vulnerability section when
/// the CVE expression matches it upper-cased, else to the component section when the component
/// expression matches it, else to the distribution section when the ODP expression matches it
/// upper-cased, and else to the other changes. `None` when a search fails.
pub open spec fn sorted_lines(lines: Seq<Seq<char>>, component: Seq<char>) -> Option<Sections>
    decreases lines.len(),
{
    if lines.len() == 0 {
        Some((seq![], seq![], seq![], seq![]))
    } else {
        match sorted_lines(lines.drop_last(), component) {
            None => None,
            Some((odp, cve, comp, other)) => {
                let s = lines.last();
                match regex_search(CVE_PATTERN@, ascii_upper(s)) {
                    None => None,
                    Some(true) => Some((odp, cve.push(s), comp, other)),
                    Some(false) => match regex_search(component, s) {
                        None => None,
                        Some(true) => Some((odp, cve, comp.push(s), other)),
                        Some(false) => match regex_search(ODP_PATTERN@, ascii_upper(s)) {
                            None => None,
                            Some(true) => Some((odp.push(s), cve, comp, other)),
                            Some(false) => Some((odp, cve, comp, other.push(s))),
                        },
                    },
                }
            },
        }
    }
}

/// The version that a release tag names: without a trailing `-tag`, and then without a leading
/// `ODP-`.
pub open spec fn tag_version(tag: Seq<char>) -> Seq<char> {
    let t = if has_suffix(tag, "-tag"@) {
        tag.subrange(0, tag.len() - 4)
    } else {
        tag
    };
    if has_prefix(t, "ODP-"@) {
        t.subrange(4, t.len() as int)
    } else {
        t
    }
}

/// The header of the release notes.
pub open spec fn notes_header(repo: Seq<char>, tag: Seq<char>) -> Seq<char> {
    "# Release Notes for "@ + capitalized(repo) + " "@ + tag_version(tag)
}

/// One section: its title and one bullet per line, or nothing when it has no lines.
pub open spec fn section_lines(title: Seq<char>, lines: Seq<Seq<char>>) -> Seq<Seq<char>> {
    if lines.len() == 0 {
        seq![]
    } else {
        seq![title] + lines.map_values(|l: Seq<char>| "* "@ + l)
    }
}

/// All the lines of the release notes.
pub open spec fn notes_lines(repo: Seq<char>, tag: Seq<char>, s: Sections) -> Seq<Seq<char>> {
    seq![notes_header(repo, tag)] + section_lines("### ODP Changes"@, s.0) + section_lines(
        "### CVE related changes"@,
        s.1,
    ) + section_lines("### Changes from "@ + capitalized(repo), s.2) + section_lines(
        "### Other changes"@,
        s.3,
    )
}

/// The views of a list of strings.
pub open spec fn views(v: Seq<String>) -> Seq<Seq<char>> {
    v.map_values(|s: String| s@)
}

/// What generating release notes for `repo` at `tag` from the commits' first `lines` gives: the
/// name and the body of the notes; `None` when an expression does not compile or a search
/// fails.
pub open spec fn notes_result(repo: Seq<char>, tag: Seq<char>, lines: Seq<Seq<char>>) -> Option<(Seq<char>, Seq<char>)> {
    if !regex_accepts(component_pattern(repo)) || !regex_accepts(CVE_PATTERN@) || !regex_accepts(
        ODP_PATTERN@,
    ) {
        None
    } else {
        match sorted_lines(lines, component_pattern(repo)) {
            None => None,
            Some(s) => Some((notes_header(repo, tag), join_with(notes_lines(repo, tag, s), "\n"@))),
        }
    }
}

/// The strings joined with `sep` between them.
pub fn join_strings(v: &Vec<String>, sep: &str) -> (r: String)
    ensures
        r@ == join_with(views(v@), sep@),
{
    let mut out = String::new();
    let n = v.len();
    let mut i: usize = 0;
    assert(views(v@).subrange(0, 0) =~= Seq::<Seq<char>>::empty());
    while i < n
        invariant
            n == v@.len(),
            i <= n,
            out@ == join_with(views(v@).subrange(0, i as int), sep@),
        decreases n - i,
    {
        let ghost prefix = views(v@).subrange(0, i + 1);
        assert(prefix.drop_last() =~= views(v@).subrange(0, i as int));
        assert(prefix.last() == v@[i as int]@);
        if i > 0 {
            out.append(sep);
        } else {
            assert(out@ =~= Seq::<char>::empty());
        }
        out.append(v[i].as_str());
        i += 1;
    }
    assert(views(v@).subrange(0, n as int) =~= views(v@));
    out
}

/// Appends a section: its title and a bullet per line, when it has lines.
fn push_section(out: &mut Vec<String>, title: &str, lines: &Vec<String>)
    ensures
        views(final(out)@) == views(old(out)@) + section_lines(title@, views(lines@)),
{
    if lines.len() == 0 {
        assert(views(out@) =~= views(out@) + Seq::<Seq<char>>::empty());
        return;
    }
    let ghost start = views(out@);
    out.push(owned(title));
    let mut i: usize = 0;
    while i < lines.len()
        invariant
            i <= lines@.len(),
            views(out@) == start + seq![title@] + views(lines@).subrange(0, i as int).map_values(
                |l: Seq<char>| "* "@ + l,
            ),
        decreases lines@.len() - i,
    {
        let ghost before = views(out@);
        out.push(cat("* ", lines[i].as_str()));
        assert(views(lines@).subrange(0, i + 1) =~= views(lines@).subrange(0, i as int).push(lines@[i as int]@));
        assert(views(out@) =~= before.push("* "@ + lines@[i as int]@));
        assert(views(lines@).subrange(0, i + 1).map_values(|l: Seq<char>| "* "@ + l) =~= views(lines@).subrange(0, i as int).map_values(|l: Seq<char>| "* "@ + l).push("* "@ + lines@[i as int]@));
        i += 1;
    }
    assert(views(lines@).subrange(0, lines@.len() as int) =~= views(lines@));
    assert(views(out@) =~= start + section_lines(title@, views(lines@)));
}

/// Generate release notes for `repo` at `tag` from the first lines of its new commits: the
/// header names the repository and the release, and each line is listed under the section that
/// the expressions choose for it. An expression that does not compile, or a search that fails,
/// is a [`GitError::RegexError`].
pub fn release_notes(repo: &str, tag: &str, lines: &Vec<String>) -> (r: Result<ReleaseNotes, GitError>)
    ensures
        r is Ok <==> notes_result(repo@, tag@, views(lines@)) is Some,
        r matches Ok(n) ==> notes_result(repo@, tag@, views(lines@)) == Some((n.name@, n.body@)),
        r matches Err(e) ==> e is RegexError,
{
    let upper = ascii_upper_exec(repo);
    let pattern = cat(upper.as_str(), "-[0-9]+");
    let component = get_or_compile(pattern.as_str())?;
    let cve = get_or_compile(CVE_PATTERN)?;
    let odp = get_or_compile(ODP_PATTERN)?;
    let ghost comp_pat = component_pattern(repo@);
    let mut odp_changes: Vec<String> = Vec::new();
    let mut vulnerabilities: Vec<String> = Vec::new();
    let mut component_match: Vec<String> = Vec::new();
    let mut other: Vec<String> = Vec::new();
    let n = lines.len();
    let mut i: usize = 0;
    assert(views(lines@).subrange(0, 0) =~= Seq::<Seq<char>>::empty());
    assert(views(odp_changes@) =~= Seq::<Seq<char>>::empty());
    while i < n
        invariant
            n == lines@.len(),
            i <= n,
            component@ == comp_pat,
            cve@ == CVE_PATTERN@,
            odp@ == ODP_PATTERN@,
            comp_pat == component_pattern(repo@),
            regex_accepts(comp_pat),
            regex_accepts(CVE_PATTERN@),
            regex_accepts(ODP_PATTERN@),
            sorted_lines(views(lines@).subrange(0, i as int), comp_pat) == Some((
                views(odp_changes@),
                views(vulnerabilities@),
                views(component_match@),
                views(other@),
            )),
        decreases n - i,
    {
        let line = lines[i].as_str();
        let ghost prefix = views(lines@).subrange(0, i + 1);
        assert(prefix.drop_last() =~= views(lines@).subrange(0, i as int));
        assert(prefix.last() == line@);
        let upper_line = ascii_upper_exec(line);
        let in_cve = cve.is_match(upper_line.as_str());
        let in_cve = match in_cve {
            Ok(b) => b,
            Err(e) => {
                proof {
                    lemma_sorting_fails(views(lines@), i + 1, comp_pat);
                }
                return Err(e);
            },
        };
        if in_cve {
            let ghost before = vulnerabilities@;
            vulnerabilities.push(owned(line));
            assert(views(vulnerabilities@) =~= views(before).push(line@));
        } else {
            let in_component = match component.is_match(line) {
                Ok(b) => b,
                Err(e) => {
                    proof {
                        lemma_sorting_fails(views(lines@), i + 1, comp_pat);
                    }
                    return Err(e);
                },
            };
            if in_component {
                let ghost before = component_match@;
                component_match.push(owned(line));
                assert(views(component_match@) =~= views(before).push(line@));
            } else {
                let in_odp = match odp.is_match(upper_line.as_str()) {
                    Ok(b) => b,
                    Err(e) => {
                        proof {
                            lemma_sorting_fails(views(lines@), i + 1, comp_pat);
                        }
                        return Err(e);
                    },
                };
                if in_odp {
                    let ghost before = odp_changes@;
                    odp_changes.push(owned(line));
                    assert(views(odp_changes@) =~= views(before).push(line@));
                } else {
                    let ghost before = other@;
                    other.push(owned(line));
                    assert(views(other@) =~= views(before).push(line@));
                }
            }
        }
        i += 1;
    }
    assert(views(lines@).subrange(0, n as int) =~= views(lines@));
    proof {
        reveal_strlit("-tag");
        reveal_strlit("ODP-");
    }
    let capital = capitalize(repo);
    let without_tag = match strip_suffix(tag, "-tag") {
        Some(t) => t,
        None => tag,
    };
    let version = match strip_prefix(without_tag, "ODP-") {
        Some(t) => t,
        None => without_tag,
    };
    let mut header = owned("# Release Notes for ");
    header.append(capital.as_str());
    header.append(" ");
    header.append(version);
    let mut body_lines: Vec<String> = Vec::new();
    body_lines.push(owned(header.as_str()));
    assert(views(body_lines@) =~= seq![header@]);
    push_section(&mut body_lines, "### ODP Changes", &odp_changes);
    push_section(&mut body_lines, "### CVE related changes", &vulnerabilities);
    let component_title = cat("### Changes from ", capital.as_str());
    push_section(&mut body_lines, component_title.as_str(), &component_match);
    push_section(&mut body_lines, "### Other changes", &other);
    let body = join_strings(&body_lines, "\n");
    Ok(ReleaseNotes { name: header, body })
}

proof fn lemma_sorting_fails(lines: Seq<Seq<char>>, k: int, component: Seq<char>)
    requires
        0 <= k <= lines.len(),
        sorted_lines(lines.subrange(0, k), component) is None,
    ensures
        sorted_lines(lines, component) is None,
    decreases lines.len() - k,
{
    if k == lines.len() {
        assert(lines.subrange(0, k) =~= lines);
    } else {
        assert(lines.drop_last().subrange(0, k) =~= lines.subrange(0, k));
        lemma_sorting_fails(lines.drop_last(), k, component);
    }
}

/// The notes to release with: the generated ones; when they could not be generated, empty
/// notes named after the current tag if a missing previous tag is to be ignored, and otherwise
/// [`GitError::NoSuchTag`] for the previous tag.
pub fn notes_or_fallback(
    notes: Result<ReleaseNotes, GitError>,
    ignore_previous_tag: bool,
    current_tag: &str,
    previous_tag: &str,
) -> (r: Result<ReleaseNotes, GitError>)
    ensures
        notes is Ok ==> r == notes,
        notes is Err && ignore_previous_tag ==> (r matches Ok(n) && n.name@ == current_tag@
            && n.body@.len() == 0),
        notes is Err && !ignore_previous_tag ==> (r matches Err(GitError::NoSuchTag(t)) && t@
            == previous_tag@),
{
    match notes {
        Ok(n) => Ok(n),
        Err(_) => {
            if ignore_previous_tag {
                Ok(ReleaseNotes { name: owned(current_tag), body: String::new() })
            } else {
                Err(GitError::NoSuchTag(owned(previous_tag)))
            }
        },
    }
}

/// The name of a release: the one asked for, or the current tag.
pub fn release_title(release_name: Option<&str>, current_tag: &str) -> (r: String)
    ensures
        release_name matches Some(n) ==> r@ == n@,
        release_name is None ==> r@ == current_tag@,
{
    match release_name {
        Some(n) => owned(n),
        None => owned(current_tag),
    }
}

/// Lines whose upper-cased text the CVE expression matches: vulnerability fixes.
pub open spec fn cve_line() -> spec_fn(Seq<char>) -> bool {
    |l: Seq<char>| regex_search(CVE_PATTERN@, ascii_upper(l)) == Some(true)
}

/// Lines that are no vulnerability fix and that the component expression matches.
pub open spec fn component_line(component: Seq<char>) -> spec_fn(Seq<char>) -> bool {
    |l: Seq<char>| !cve_line()(l) && regex_search(component, l) == Some(true)
}

/// Lines that are neither of the above and whose upper-cased text the ODP expression matches.
pub open spec fn odp_line(component: Seq<char>) -> spec_fn(Seq<char>) -> bool {
    |l: Seq<char>| !cve_line()(l) && regex_search(component, l) != Some(true)
        && regex_search(ODP_PATTERN@, ascii_upper(l)) == Some(true)
}

/// Lines that no expression matches.
pub open spec fn other_line(component: Seq<char>) -> spec_fn(Seq<char>) -> bool {
    |l: Seq<char>| !cve_line()(l) && regex_search(component, l) != Some(true)
        && regex_search(ODP_PATTERN@, ascii_upper(l)) != Some(true)
}

/// How the lines of release notes are sorted into sections, whenever every search succeeds:
/// the vulnerability section holds, in commit order, exactly the lines on which the CVE
/// expression matches the upper-cased text, whatever the other expressions say of them; the
/// component section the other lines that the component expression matches; the distribution
/// section the remaining lines that the ODP expression matches; and the other changes the rest.
/// No line is lost or listed twice.
pub proof fn lemma_sections_partition_lines(lines: Seq<Seq<char>>, component: Seq<char>)
    requires
        sorted_lines(lines, component) is Some,
    ensures
        ({
            let s = sorted_lines(lines, component)->0;
            &&& s.1 == lines.filter(cve_line())
            &&& s.2 == lines.filter(component_line(component))
            &&& s.0 == lines.filter(odp_line(component))
            &&& s.3 == lines.filter(other_line(component))
            &&& s.0.len() + s.1.len() + s.2.len() + s.3.len() == lines.len()
        }),
    decreases lines.len(),
{
    reveal(Seq::filter);
    if lines.len() > 0 {
        let init = lines.drop_last();
        lemma_sections_partition_lines(init, component);
        let l = lines.last();
        assert(lines.filter(cve_line()) == if cve_line()(l) { init.filter(cve_line()).push(l) } else { init.filter(cve_line()) });
        assert(lines.filter(component_line(component)) == if component_line(component)(l) {
            init.filter(component_line(component)).push(l)
        } else {
            init.filter(component_line(component))
        });
        assert(lines.filter(odp_line(component)) == if odp_line(component)(l) {
            init.filter(odp_line(component)).push(l)
        } else {
            init.filter(odp_line(component))
        });
        assert(lines.filter(other_line(component)) == if other_line(component)(l) {
            init.filter(other_line(component)).push(l)
        } else {
            init.filter(other_line(component))
        });
    }
}

} // verus!
