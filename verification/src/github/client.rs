//! The client's own rules: how output is shown, what the parent of a fork is, and the report
//! that is sent to Slack at the end of a run.
use vstd::prelude::*;
use crate::cache::store::strings_view;
use crate::error::GitError;
use crate::github::release::{commit_first_line, first_line};
use crate::text::{
    lemma_lex_lt_asymmetric, lemma_lex_lt_irreflexive, lemma_lex_lt_total, lemma_lex_lt_transitive,
    lex_le, lex_lt, lex_lt_exec, owned, trim, trim_ws,
};
use crate::utils::repo::RepoInfo;

verus! {

/// How progress is shown.
#[derive(Debug, Clone, Copy, PartialEq, Eq, Structural)]
pub enum OutputMode {
    /// No output
    Silent,
    /// Print output to stdout, for when output is wanted but the console is not interactive.
    Print,
    /// Display a progress bar, for long actions run in an interactive terminal.
    Progress,
}

impl Default for OutputMode {
    fn default() -> (r: Self)
        ensures
            r == OutputMode::Silent,
    {
        OutputMode::Silent
    }
}

/// The Slack webhook to post to: the one chosen, trimmed, or none.
pub fn webhook_url(slack_webhook: Option<String>) -> (r: String)
    ensures
        slack_webhook matches Some(w) ==> r@ == trim_ws(w@),
        slack_webhook is None ==> r@.len() == 0,
{
    match slack_webhook {
        Some(w) => owned(trim(w.as_str())),
        None => String::new(),
    }
}

/// What GitHub says of the parent of a repository.
#[derive(Debug)]
pub struct ParentInfo {
    pub owner_login: Option<String>,
    pub name: String,
    pub html_url: Option<String>,
    pub default_branch: Option<String>,
}

/// The parent of the repository at `url`, from what GitHub says of it: a repository without a
/// parent is not a fork, a parent without an owner has no upstream, and one without a URL is an
/// invalid repository.
pub fn parent_repo_info(url: &str, parent: Option<ParentInfo>) -> (r: Result<RepoInfo, GitError>)
    ensures
        parent is None ==> r == Err::<RepoInfo, GitError>(GitError::NotAFork),
        parent matches Some(p) ==> match (p.owner_login, p.html_url) {
            (None, _) => r matches Err(GitError::NoUpstreamRepo(u)) && u@ == url@,
            (Some(_), None) => r matches Err(GitError::InvalidRepository(u)) && u@ == url@,
            (Some(o), Some(h)) => r == Ok::<RepoInfo, GitError>(RepoInfo { owner: o, repo_name: p.name, url: h, main_branch: p.default_branch }),
        },
{
    match parent {
        None => Err(GitError::NotAFork),
        Some(p) => match p.owner_login {
            None => Err(GitError::NoUpstreamRepo(owned(url))),
            Some(owner) => match p.html_url {
                None => Err(GitError::InvalidRepository(owned(url))),
                Some(html) => Ok(RepoInfo { owner, repo_name: p.name, url: html, main_branch: p.default_branch }),
            },
        },
    }
}

// ---------------------------------------------------------------------------------------------
// The Slack report
// ---------------------------------------------------------------------------------------------

/// In the order of `String`s.
pub open spec fn in_string_order(v: Seq<Seq<char>>) -> bool {
    forall|i: int, j: int| 0 <= i < j < v.len() ==> lex_le(#[trigger] v[i], #[trigger] v[j])
}

/// The strings in the order of `String`s.
pub fn sort_strings(v: Vec<String>) -> (r: Vec<String>)
    ensures
        in_string_order(strings_view(r@)),
        strings_view(r@).to_multiset() == strings_view(v@).to_multiset(),
{
    broadcast use vstd::seq_lib::group_to_multiset_ensures;
    let ghost all = strings_view(v@);
    let mut out: Vec<String> = Vec::new();
    let mut i: usize = 0;
    assert(strings_view(out@) =~= Seq::<Seq<char>>::empty());
    while i < v.len()
        invariant
            i <= v@.len(),
            all == strings_view(v@),
            in_string_order(strings_view(out@)),
            strings_view(out@).to_multiset() == all.subrange(0, i as int).to_multiset(),
        decreases v@.len() - i,
    {
        let x = v[i].as_str();
        let ghost before = strings_view(out@);
        let mut p: usize = 0;
        while p < out.len() && !lex_lt_exec(x, out[p].as_str())
            invariant
                p <= out@.len(),
                strings_view(out@) == before,
                forall|j: int| 0 <= j < p ==> !lex_lt(x@, #[trigger] before[j]),
            decreases out@.len() - p,
        {
            p += 1;
        }
        assert(p < before.len() ==> lex_lt(x@, before[p as int]));
        out.insert(p, owned(x));
        proof {
            let s = before.insert(p as int, x@);
            assert(strings_view(out@) =~= s);
            assert(s.remove(p as int) =~= before);
            s.to_multiset_ensures();
            before.to_multiset_ensures();
            assert(s[p as int] == x@);
            assert(s.to_multiset() =~= before.to_multiset().insert(x@));
            let prev = all.subrange(0, i as int);
            assert(all.subrange(0, i + 1) =~= prev.push(x@));
            prev.to_multiset_ensures();
            assert forall|a: int, b: int| 0 <= a < b < s.len() implies lex_le(#[trigger] s[a], #[trigger] s[b]) by {
                if b < p {
                } else if a < p && b == p {
                    lemma_lex_lt_total(x@, before[a]);
                } else if a < p {
                    assert(s[b] == before[b - 1]);
                    assert(lex_le(before[a], before[b - 1]));
                } else if a == p {
                    assert(s[b] == before[b - 1]);
                    if b - 1 > p {
                        assert(lex_le(before[p as int], before[b - 1]));
                        if before[p as int] != before[b - 1] {
                            lemma_lex_lt_transitive(x@, before[p as int], before[b - 1]);
                        }
                    }
                } else {
                    assert(s[a] == before[a - 1] && s[b] == before[b - 1]);
                }
            }
        }
        i += 1;
    }
    assert(all.subrange(0, v@.len() as int) =~= all);
    out
}

/// One bullet per line, each ended by a newline.
pub open spec fn bullet_lines(lines: Seq<Seq<char>>) -> Seq<char>
    decreases lines.len(),
{
    if lines.len() == 0 {
        seq![]
    } else {
        bullet_lines(lines.drop_last()) + "* "@ + lines.last() + "\n"@
    }
}

/// The first line of each text, or the whole text when it has none (it is empty).
pub open spec fn first_lines(texts: Seq<Seq<char>>) -> Seq<Seq<char>> {
    texts.map_values(|t: Seq<char>| match first_line(t) {
        Some(l) => l,
        None => t,
    })
}

/// The report of a run: when it completed, the messages in order, and the first line of each
/// error in order. Nothing is reported when there is neither a message nor an error.
pub open spec fn run_report(date: Seq<char>, messages: Seq<Seq<char>>, errors: Seq<Seq<char>>) -> Option<Seq<char>> {
    if messages.len() == 0 && errors.len() == 0 {
        None
    } else {
        let head = "---\nRun completed at "@ + date + "\n\n"@;
        let body = bullet_lines(messages);
        let error_part = if errors.len() > 0 {
            (if messages.len() > 0 {
                "\n"@
            } else {
                seq![]
            }) + "*Errors*:\n"@ + bullet_lines(first_lines(errors))
        } else {
            seq![]
        };
        Some(head + body + error_part + "---"@)
    }
}

/// Appends one bullet per string.
fn append_bullets(out: &mut String, lines: &Vec<String>, first_only: bool)
    ensures
        first_only ==> final(out)@ == old(out)@ + bullet_lines(first_lines(strings_view(lines@))),
        !first_only ==> final(out)@ == old(out)@ + bullet_lines(strings_view(lines@)),
{
    let ghost start = out@;
    let ghost all = if first_only {
        first_lines(strings_view(lines@))
    } else {
        strings_view(lines@)
    };
    let mut i: usize = 0;
    while i < lines.len()
        invariant
            i <= lines@.len(),
            all.len() == lines@.len(),
            all == if first_only { first_lines(strings_view(lines@)) } else { strings_view(lines@) },
            out@ == start + bullet_lines(all.subrange(0, i as int)),
        decreases lines@.len() - i,
    {
        let ghost sub = all.subrange(0, i + 1);
        assert(sub.drop_last() =~= all.subrange(0, i as int));
        let text = lines[i].as_str();
        out.append("* ");
        if first_only {
            match commit_first_line(text) {
                Some(l) => out.append(l.as_str()),
                None => out.append(text),
            }
        } else {
            out.append(text);
        }
        out.append("\n");
        i += 1;
    }
    assert(all.subrange(0, lines@.len() as int) =~= all);
}

/// The report of a run that completed at `date`: its messages and the first lines of its
/// errors, each sorted in the order of `String`s; nothing when there is neither.
pub fn slack_report(date: &str, messages: Vec<String>, errors: Vec<String>) -> (r: Option<String>)
    ensures
        (messages@.len() == 0 && errors@.len() == 0) <==> r is None,
        r matches Some(report) ==> exists|m: Seq<Seq<char>>, e: Seq<Seq<char>>| {
            &&& in_string_order(m) && m.to_multiset() == strings_view(messages@).to_multiset()
            &&& in_string_order(e) && e.to_multiset() == strings_view(errors@).to_multiset()
            &&& run_report(date@, m, e) == Some(report@)
        },
{
    if messages.len() == 0 && errors.len() == 0 {
        return None;
    }
    let messages = sort_strings(messages);
    let errors = sort_strings(errors);
    proof {
        broadcast use vstd::seq_lib::group_to_multiset_ensures;
        strings_view(messages@).to_multiset_ensures();
        strings_view(errors@).to_multiset_ensures();
    }
    let mut report = owned("---\nRun completed at ");
    report.append(date);
    report.append("\n\n");
    append_bullets(&mut report, &messages, false);
    if errors.len() > 0 {
        if messages.len() > 0 {
            report.append("\n");
        }
        report.append("*Errors*:\n");
        append_bullets(&mut report, &errors, true);
    }
    report.append("---");
    assert(run_report(date@, strings_view(messages@), strings_view(errors@)) == Some(report@));
    Some(report)
}

} // verus!
