//! Forks: which branches are behind their parent's, and what syncing through git found.
use vstd::prelude::*;
use crate::cache::store::{entry_for, find_key, strings_view};
use crate::error::{ApiErrorKind, ApiFailure, GitError, OutsideFailure};
use crate::github::tag::contains_string;
use crate::text::{
    contains, contains_seq, has_prefix, lines_of, owned, replace_all, replace_all_exec,
    split_lines, starts_with, trim, trim_ws,
};

verus! {

/// The instant, as seconds and nanoseconds since the Unix epoch, that `chrono` reads from
/// `text` as an RFC 3339 date and time.
pub uninterp spec fn rfc3339_instant(text: Seq<char>) -> Option<(i64, u32)>;

/// `chrono::DateTime::parse_from_rfc3339`, taken as the instant it names (seconds and
/// nanoseconds since the Unix epoch); the parser's error as its `Display` and `Debug` texts when
/// it reads none.
#[verifier::external_body]
fn parse_rfc3339(text: &str) -> (r: Result<(i64, u32), (String, String)>)
    ensures
        r is Ok <==> rfc3339_instant(text@) is Some,
        r matches Ok(t) ==> rfc3339_instant(text@) == Some(t),
{
    match chrono::DateTime::parse_from_rfc3339(text) {
        Ok(d) => Ok((d.timestamp(), d.timestamp_subsec_nanos())),
        Err(e) => Err((e.to_string(), format!("{e:?}"))),
    }
}

/// Whether the instant `a` is after the instant `b`.
pub open spec fn after(a: (i64, u32), b: (i64, u32)) -> bool {
    a.0 > b.0 || (a.0 == b.0 && a.1 > b.1)
}

/// Whether a branch of the parent that the fork has too carries a date that does not read.
pub open spec fn unreadable_date(parent: Seq<(String, String)>, fork: Seq<(String, String)>) -> bool {
    exists|i: int| 0 <= i < parent.len() && #[trigger] bad_date(fork, parent[i])
}

/// Whether the fork has the parent's branch `b` too, and one of the two dates does not read.
pub open spec fn bad_date(fork: Seq<(String, String)>, b: (String, String)) -> bool {
    match entry_for(fork, b.0@) {
        Some(d) => rfc3339_instant(b.1@) is None || rfc3339_instant(d@) is None,
        None => false,
    }
}

/// The branches, in the parent's order, that the fork has too and whose last commit in the
/// parent is later than in the fork.
pub open spec fn behind_parent(parent: Seq<(String, String)>, fork: Seq<(String, String)>) -> Seq<Seq<char>>
    decreases parent.len(),
{
    if parent.len() == 0 {
        seq![]
    } else {
        let rest = behind_parent(parent.drop_last(), fork);
        let b = parent.last();
        match entry_for(fork, b.0@) {
            Some(d) => match (rfc3339_instant(b.1@), rfc3339_instant(d@)) {
                (Some(p), Some(f)) => if after(p, f) {
                    rest.push(b.0@)
                } else {
                    rest
                },
                _ => rest,
            },
            None => rest,
        }
    }
}

/// The branches to sync in a fork: those it shares with its parent whose last commit in the
/// parent is later. A date of a shared branch that does not read is a
/// [`GitError::DateParseError`].
pub fn branches_to_sync(parent: &Vec<(String, String)>, fork: &Vec<(String, String)>) -> (r: Result<Vec<String>, GitError>)
    ensures
        r is Err <==> unreadable_date(parent@, fork@),
        r matches Err(e) ==> e is DateParseError,
        r matches Ok(v) ==> strings_view(v@) == behind_parent(parent@, fork@),
{
    let mut out: Vec<String> = Vec::new();
    let n = parent.len();
    let mut i: usize = 0;
    assert(strings_view(out@) =~= Seq::<Seq<char>>::empty());
    while i < n
        invariant
            n == parent@.len(),
            i <= n,
            !unreadable_date(parent@.subrange(0, i as int), fork@),
            strings_view(out@) == behind_parent(parent@.subrange(0, i as int), fork@),
        decreases n - i,
    {
        let (name, parent_date) = &parent[i];
        let ghost prefix = parent@.subrange(0, i + 1);
        assert(prefix.drop_last() =~= parent@.subrange(0, i as int));
        assert(prefix.last() == parent@[i as int]);
        assert forall|j: int| 0 <= j < prefix.len() - 1 implies #[trigger] prefix[j] == parent@.subrange(0, i as int)[j] by {}
        if let Some(k) = find_key(fork, name.as_str()) {
            let fork_date = &fork[k].1;
            match (parse_rfc3339(parent_date.as_str()), parse_rfc3339(fork_date.as_str())) {
                (Ok(p), Ok(f)) => {
                    if p.0 > f.0 || (p.0 == f.0 && p.1 > f.1) {
                        let ghost before = strings_view(out@);
                        out.push(owned(name.as_str()));
                        assert(strings_view(out@) =~= before.push(name@));
                    }
                    proof {
                        assert forall|j: int| 0 <= j < prefix.len() implies !#[trigger] bad_date(fork@, prefix[j]) by {
                            if j < i {
                                assert(prefix[j] == parent@.subrange(0, i as int)[j]);
                            }
                        }
                    }
                },
                (Err((message, debug)), _) | (_, Err((message, debug))) => {
                    assert(parent@[i as int] == (*name, *parent_date));
                    assert(bad_date(fork@, parent@[i as int]));
                    return Err(GitError::DateParseError(OutsideFailure { message, debug, broken_pipe: false }));
                },
            }
        } else {
            proof {
                assert forall|j: int| 0 <= j < prefix.len() implies !#[trigger] bad_date(fork@, prefix[j]) by {
                    if j < i {
                        assert(prefix[j] == parent@.subrange(0, i as int)[j]);
                    }
                }
            }
        }
        i += 1;
    }
    assert(parent@.subrange(0, n as int) =~= parent@);
    Ok(out)
}

// ---------------------------------------------------------------------------------------------
// Syncing through git
// ---------------------------------------------------------------------------------------------

/// The branches of one remote in the lines of `git branch -r`: the trimmed lines that begin
/// with the remote's prefix, with every occurrence of the prefix removed.
pub open spec fn remote_branches(lines: Seq<Seq<char>>, prefix: Seq<char>) -> Seq<Seq<char>>
    decreases lines.len(),
{
    if lines.len() == 0 {
        seq![]
    } else {
        let rest = remote_branches(lines.drop_last(), prefix);
        let t = trim_ws(lines.last());
        if has_prefix(t, prefix) {
            rest.push(replace_all(t, prefix, seq![]))
        } else {
            rest
        }
    }
}

/// The branches of `origin` that `upstream` has too, each once, in `origin`'s order.
pub open spec fn shared(origin: Seq<Seq<char>>, upstream: Seq<Seq<char>>) -> Seq<Seq<char>>
    decreases origin.len(),
{
    if origin.len() == 0 {
        seq![]
    } else {
        let rest = shared(origin.drop_last(), upstream);
        if upstream.contains(origin.last()) && !rest.contains(origin.last()) {
            rest.push(origin.last())
        } else {
            rest
        }
    }
}

fn branches_of_remote(lines: &Vec<String>, prefix: &str) -> (r: Vec<String>)
    requires
        prefix@.len() > 0,
    ensures
        strings_view(r@) == remote_branches(strings_view(lines@), prefix@),
{
    let ghost all = strings_view(lines@);
    let mut out: Vec<String> = Vec::new();
    let mut i: usize = 0;
    proof {
        reveal_strlit("");
    }
    assert(strings_view(out@) =~= Seq::<Seq<char>>::empty());
    while i < lines.len()
        invariant
            i <= lines@.len(),
            prefix@.len() > 0,
            all == strings_view(lines@),
            strings_view(out@) == remote_branches(all.subrange(0, i as int), prefix@),
        decreases lines@.len() - i,
    {
        proof {
            reveal_strlit("");
            assert(""@ =~= Seq::<char>::empty());
        }
        let ghost sub = all.subrange(0, i + 1);
        assert(sub.drop_last() =~= all.subrange(0, i as int));
        assert(sub.last() == lines@[i as int]@);
        let t = trim(lines[i].as_str());
        if starts_with(t, prefix) {
            let ghost before = strings_view(out@);
            out.push(replace_all_exec(t, prefix, ""));
            assert(strings_view(out@) =~= before.push(replace_all(t@, prefix@, seq![])));
        }
        i += 1;
    }
    assert(all.subrange(0, lines@.len() as int) =~= all);
    out
}

/// The branches that a fork's clone and its upstream share, from the output of
/// `git branch -r` with the fork as `origin` and the parent as `upstream`.
pub fn shared_remote_branches(branch_output: &str) -> (r: Vec<String>)
    ensures
        strings_view(r@) == shared(
            remote_branches(lines_of(branch_output@), "origin/"@),
            remote_branches(lines_of(branch_output@), "upstream/"@),
        ),
{
    proof {
        reveal_strlit("origin/");
        reveal_strlit("upstream/");
    }
    let lines = split_lines(branch_output);
    assert(strings_view(lines@) == lines_of(branch_output@));
    let origin = branches_of_remote(&lines, "origin/");
    let upstream = branches_of_remote(&lines, "upstream/");
    let ghost o = strings_view(origin@);
    let ghost u = strings_view(upstream@);
    let mut out: Vec<String> = Vec::new();
    let mut i: usize = 0;
    assert(strings_view(out@) =~= Seq::<Seq<char>>::empty());
    while i < origin.len()
        invariant
            i <= origin@.len(),
            o == strings_view(origin@),
            u == strings_view(upstream@),
            strings_view(out@) == shared(o.subrange(0, i as int), u),
        decreases origin@.len() - i,
    {
        let b = origin[i].as_str();
        let ghost sub = o.subrange(0, i + 1);
        assert(sub.drop_last() =~= o.subrange(0, i as int));
        assert(sub.last() == b@);
        if contains_string(&upstream, b) && !contains_string(&out, b) {
            let ghost before = strings_view(out@);
            out.push(owned(b));
            assert(strings_view(out@) =~= before.push(b@));
        }
        i += 1;
    }
    assert(o.subrange(0, origin@.len() as int) =~= o);
    out
}

/// The number of lines of a fast-forward merge's output that say the branch was already up to
/// date.
pub open spec fn up_to_date_lines(lines: Seq<Seq<char>>) -> nat
    decreases lines.len(),
{
    if lines.len() == 0 {
        0
    } else {
        up_to_date_lines(lines.drop_last()) + if contains_seq(trim_ws(lines.last()), "Already up to date"@) {
            1nat
        } else {
            0nat
        }
    }
}

/// How many lines of a fast-forward merge's output say that the branch was already up to date.
pub fn count_up_to_date(merge_output: &str) -> (r: usize)
    ensures
        r == up_to_date_lines(lines_of(merge_output@)),
{
    let lines = split_lines(merge_output);
    let ghost all = strings_view(lines@);
    assert(all == lines_of(merge_output@));
    let mut count: usize = 0;
    let mut i: usize = 0;
    while i < lines.len()
        invariant
            i <= lines@.len(),
            all == strings_view(lines@),
            count <= i,
            count == up_to_date_lines(all.subrange(0, i as int)),
        decreases lines@.len() - i,
    {
        let ghost sub = all.subrange(0, i + 1);
        assert(sub.drop_last() =~= all.subrange(0, i as int));
        assert(sub.last() == lines@[i as int]@);
        if contains(trim(lines[i].as_str()), "Already up to date") {
            count += 1;
        }
        i += 1;
    }
    assert(all.subrange(0, lines@.len() as int) =~= all);
    count
}

/// What a sync through git comes to: when no shared branch could be fast-forwarded and some
/// could not, the push is reported as failed; otherwise the sync went through.
pub fn upstream_sync_result(successful: usize, failed: usize, ssh_url: &str) -> (r: Result<(), GitError>)
    ensures
        successful == 0 && failed > 0 ==> (r matches Err(GitError::GitPushError(u)) && u@ == ssh_url@),
        !(successful == 0 && failed > 0) ==> r is Ok,
{
    if successful == 0 && failed > 0 {
        Err(GitError::GitPushError(owned(ssh_url)))
    } else {
        Ok(())
    }
}

/// The message of a sync through git: whether every fast-forwarded branch was already up to
/// date.
pub fn upstream_sync_message(url: &str, upstream: &str, successful: usize, up_to_date: usize) -> (r: String)
    ensures
        successful == up_to_date ==> r@ == "All common branches between "@ + url@ + " and "@ + upstream@
            + " are up to date"@,
        successful != up_to_date ==> r@ == "Successfully synced "@ + url@ + " and "@ + upstream@,
{
    if successful == up_to_date {
        let mut m = owned("All common branches between ");
        m.append(url);
        m.append(" and ");
        m.append(upstream);
        m.append(" are up to date");
        m
    } else {
        let mut m = owned("Successfully synced ");
        m.append(url);
        m.append(" and ");
        m.append(upstream);
        m
    }
}

/// The report of a branch of `owner/repo` that could not be synced with its parent, with
/// GitHub's own message when GitHub gave one.
pub fn branch_sync_failure(owner: &str, repo: &str, branch: &str, e: &ApiFailure) -> (r: String)
    ensures
        ({
            let head = "Failed to sync "@ + owner@ + "/"@ + repo@ + " Branch: "@ + branch@
                + " with its parent repository."@;
            &&& e.kind == ApiErrorKind::GitHub ==> r@ == head + " GitHub API error: "@ + e.message@
            &&& e.kind != ApiErrorKind::GitHub ==> r@ == head
        }),
{
    let mut m = owned("Failed to sync ");
    m.append(owner);
    m.append("/");
    m.append(repo);
    m.append(" Branch: ");
    m.append(branch);
    m.append(" with its parent repository.");
    if e.kind == ApiErrorKind::GitHub {
        m.append(" GitHub API error: ");
        m.append(e.message.as_str());
    }
    m
}

/// Whether the fork has the parent's branch `b`, both dates read, and the parent's last commit
/// is strictly later than the fork's.
pub open spec fn parent_is_newer(b: (String, String), fork: Seq<(String, String)>) -> bool {
    match entry_for(fork, b.0@) {
        Some(d) => match (rfc3339_instant(b.1@), rfc3339_instant(d@)) {
            (Some(p), Some(f)) => p.0 > f.0 || (p.0 == f.0 && p.1 > f.1),
            _ => false,
        },
        None => false,
    }
}

/// A branch is picked for syncing exactly when the parent has a branch of that name whose last
/// commit is strictly later than the fork's last commit on it: a fork that is as new as its
/// parent, or newer, is left alone.
pub proof fn lemma_sync_picks_newer_parent_branches(
    parent: Seq<(String, String)>,
    fork: Seq<(String, String)>,
    name: Seq<char>,
)
    ensures
        behind_parent(parent, fork).contains(name) <==> exists|i: int|
            0 <= i < parent.len() && (#[trigger] parent[i]).0@ == name && parent_is_newer(parent[i], fork),
    decreases parent.len(),
{
    if parent.len() > 0 {
        let init = parent.drop_last();
        lemma_sync_picks_newer_parent_branches(init, fork, name);
        let rest = behind_parent(init, fork);
        let b = parent.last();
        let whole = behind_parent(parent, fork);
        let last = parent.len() - 1;
        assert(parent[last] == b);
        if whole.contains(name) {
            let k = choose|k: int| 0 <= k < whole.len() && whole[k] == name;
            if k < rest.len() && (whole == rest || whole == rest.push(b.0@)) {
                assert(whole[k] == rest[k]);
                assert(rest.contains(name));
                let i = choose|i: int| 0 <= i < init.len() && (#[trigger] init[i]).0@ == name && parent_is_newer(init[i], fork);
                assert(parent[i] == init[i]);
            } else {
                assert(parent[last].0@ == name && parent_is_newer(parent[last], fork));
            }
        }
        if exists|i: int| 0 <= i < parent.len() && (#[trigger] parent[i]).0@ == name && parent_is_newer(parent[i], fork) {
            let i = choose|i: int| 0 <= i < parent.len() && (#[trigger] parent[i]).0@ == name && parent_is_newer(parent[i], fork);
            if i < last {
                assert(init[i] == parent[i]);
                assert(rest.contains(name));
                let k = choose|k: int| 0 <= k < rest.len() && rest[k] == name;
                if whole != rest {
                    assert(whole == rest.push(b.0@));
                    assert(whole[k] == rest[k]);
                }
                assert(whole.contains(name));
            } else {
                assert(whole == rest.push(b.0@));
                assert(whole[rest.len() as int] == name);
            }
        }
    }
}

} // verus!
