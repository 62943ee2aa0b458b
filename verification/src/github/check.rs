//! Repository checks: which branches are stale, how the results are shown, and what is
//! reported of them.
use vstd::prelude::*;
use crate::cache::store::{entry_for, find_key, keys_unique, put, strings_view};
use crate::error::{decimal, decimal_string, GitError};
use crate::github::tag::contains_string;
use crate::text::{cat, owned, str_eq};
use crate::utils::filter::{regex_search, CompiledPattern};
use crate::utils::repo::{opt_string_view, LicenseInfo};

verus! {

/// The format of the dates of stale branches.
pub const DATE_FORMAT: &'static str = "%Y-%m-%d";

/// When a commit was made, as `chrono` reads it: seconds and nanoseconds since the Unix epoch,
/// and the date written with [`DATE_FORMAT`].
#[derive(Debug, PartialEq, Eq)]
pub struct CommitTime {
    pub secs: i64,
    pub nanos: u32,
    pub date: String,
}

/// The seconds, nanoseconds and date text of a commit time.
pub type Stamp = (i64, u32, Seq<char>);

impl View for CommitTime {
    type V = Stamp;

    open spec fn view(&self) -> Stamp {
        (self.secs, self.nanos, self.date@)
    }
}

/// What `chrono` reads from `text` as a `DateTime<Utc>`: the instant's seconds and nanoseconds
/// since the Unix epoch, with its date written with `format`; `None` when the text is not a
/// date and time.
pub uninterp spec fn parsed_instant(text: Seq<char>, format: Seq<char>) -> Option<Stamp>;

/// `str::parse::<chrono::DateTime<chrono::Utc>>`, taken as its `timestamp`,
/// `timestamp_subsec_nanos` and its date written with `format` (only the date format of this
/// module is passed: writing with a format string that holds an unknown specifier panics).
#[verifier::external_body]
fn parse_instant(text: &str, format: &str) -> (r: Option<CommitTime>)
    requires
        format@ == DATE_FORMAT@,
    ensures
        r is None <==> parsed_instant(text@, format@) is None,
        r matches Some(t) ==> parsed_instant(text@, format@) == Some(t@),
{
    match text.parse::<chrono::DateTime<chrono::Utc>>() {
        Ok(d) => Some(CommitTime { secs: d.timestamp(), nanos: d.timestamp_subsec_nanos(), date: d.format(format).to_string() }),
        Err(_) => None,
    }
}

/// The instant of a commit time in nanoseconds since the Unix epoch.
pub open spec fn nanos_of(secs: i64, nanos: u32) -> int {
    secs * 1_000_000_000 + nanos
}

/// Whether the commit time `a` is not later than `b`, as `DateTime`s compare.
pub open spec fn not_later(a: Stamp, b: Stamp) -> bool {
    a.0 < b.0 || (a.0 == b.0 && a.1 <= b.1)
}

/// Nanoseconds in a day.
pub const NANOS_PER_DAY: i128 = 86_400_000_000_000;

/// The whole days in a span of `nanos` nanoseconds, rounded toward zero as `TimeDelta::num_days`
/// counts them.
pub open spec fn whole_days(nanos: int) -> int {
    if nanos >= 0 {
        nanos / (NANOS_PER_DAY as int)
    } else {
        -((-nanos) / (NANOS_PER_DAY as int))
    }
}

/// One branch in a page of GitHub's branch listing: its name, and the date of its last commit
/// when the listing gave one.
#[derive(Debug)]
pub struct BranchNode {
    pub name: String,
    pub committed_date: Option<String>,
}

/// Whether a branch name passes the optional filter.
pub open spec fn passes(name: Seq<char>, filter: Option<Seq<char>>) -> bool {
    match filter {
        None => true,
        Some(p) => regex_search(p, name) == Some(true),
    }
}

/// The time of a node's last commit, if its date reads as one.
pub open spec fn node_instant(n: BranchNode) -> Option<Stamp> {
    parsed_instant(
        match n.committed_date {
            Some(d) => d@,
            None => ""@,
        },
        DATE_FORMAT@,
    )
}

/// The stamp of an optional commit time.
pub open spec fn time_of(t: Option<CommitTime>) -> Option<Stamp> {
    match t {
        Some(c) => Some(c@),
        None => None,
    }
}

/// The instant that the last node named `name` which passes the filter and has a readable
/// date gives.
pub open spec fn latest_instant(nodes: Seq<BranchNode>, filter: Option<Seq<char>>, name: Seq<char>) -> Option<Stamp>
    decreases nodes.len(),
{
    if nodes.len() == 0 {
        None
    } else if nodes.last().name@ == name && passes(name, filter) && node_instant(nodes.last()) is Some {
        node_instant(nodes.last())
    } else {
        latest_instant(nodes.drop_last(), filter, name)
    }
}

/// Whether the filter's search fails on some node's name.
pub open spec fn search_fails(nodes: Seq<BranchNode>, filter: Option<Seq<char>>) -> bool {
    filter is Some && exists|i: int| 0 <= i < nodes.len() && regex_search(filter->0, (#[trigger] nodes[i]).name@) is None
}

/// Records the branches of one page of the listing: a branch that the filter rejects, or whose
/// date does not read, is left out, and a later date replaces an earlier one. A search that
/// fails is an error.
pub fn add_branch_page(
    branches: &mut Vec<(String, CommitTime)>,
    nodes: &Vec<BranchNode>,
    filter: Option<&CompiledPattern>,
) -> (r: Result<(), GitError>)
    requires
        keys_unique(old(branches)@),
    ensures
        r is Err <==> search_fails(nodes@, opt_pattern(filter)),
        r matches Err(e) ==> e is RegexError,
        r is Ok ==> keys_unique(final(branches)@),
        r is Ok ==> forall|k: Seq<char>| #[trigger] time_of(entry_for(final(branches)@, k)) == match latest_instant(nodes@, opt_pattern(filter), k) {
            Some(t) => Some(t),
            None => time_of(entry_for(old(branches)@, k)),
        },
{
    let ghost start = branches@;
    let n = nodes.len();
    let mut i: usize = 0;
    while i < n
        invariant
            n == nodes@.len(),
            i <= n,
            keys_unique(branches@),
            !search_fails(nodes@.subrange(0, i as int), opt_pattern(filter)),
            forall|k: Seq<char>| #[trigger] time_of(entry_for(branches@, k)) == match latest_instant(nodes@.subrange(0, i as int), opt_pattern(filter), k) {
                Some(t) => Some(t),
                None => time_of(entry_for(start, k)),
            },
        decreases n - i,
    {
        let node = &nodes[i];
        let ghost prefix = nodes@.subrange(0, i + 1);
        assert(prefix.drop_last() =~= nodes@.subrange(0, i as int));
        assert(prefix.last() == *node);
        let keep = match filter {
            Some(re) => match re.is_match(node.name.as_str()) {
                Ok(found) => found,
                Err(e) => {
                    proof {
                        assert(nodes@[i as int] == *node);
                    }
                    return Err(e);
                },
            },
            None => true,
        };
        proof {
            assert forall|j: int| 0 <= j < prefix.len() && opt_pattern(filter) is Some implies regex_search(opt_pattern(filter)->0, (#[trigger] prefix[j]).name@) is Some by {
                if j < i {
                    assert(prefix[j] == nodes@.subrange(0, i as int)[j]);
                }
            }
        }
        if keep {
            proof {
                reveal_strlit("");
            }
            let text = match &node.committed_date {
                Some(d) => d.as_str(),
                None => "",
            };
            if let Some(t) = parse_instant(text, DATE_FORMAT) {
                let ghost before = branches@;
                put(branches, node.name.as_str(), t);
            }
        }
        i += 1;
    }
    assert(nodes@.subrange(0, n as int) =~= nodes@);
    Ok(())
}

/// The pattern of an optional compiled expression.
pub open spec fn opt_pattern(filter: Option<&CompiledPattern>) -> Option<Seq<char>> {
    match filter {
        Some(c) => Some(c@),
        None => None,
    }
}

// ---------------------------------------------------------------------------------------------
// Stale branches
// ---------------------------------------------------------------------------------------------

/// A branch and the time of its last commit.
pub type DatedBranch = (Seq<char>, Stamp);

/// The text of a list of dated branches.
pub open spec fn dated_view(v: Seq<(String, CommitTime)>) -> Seq<DatedBranch> {
    v.map_values(|b: (String, CommitTime)| (b.0@, b.1@))
}

/// Whether a branch whose last commit was at `committed` is at least `days_ago` whole days old
/// at the instant `now_secs` seconds and `now_nanos` nanoseconds after the Unix epoch.
pub open spec fn is_old(committed: Stamp, now_secs: i64, now_nanos: u32, days_ago: i64) -> bool {
    whole_days(nanos_of(now_secs, now_nanos) - nanos_of(committed.0, committed.1)) >= days_ago
}

/// The branches that are old at `now` and not blacklisted, in their order.
pub open spec fn stale_candidates(
    v: Seq<DatedBranch>,
    now_secs: i64,
    now_nanos: u32,
    days_ago: i64,
    blacklist: Seq<Seq<char>>,
) -> Seq<DatedBranch>
    decreases v.len(),
{
    if v.len() == 0 {
        seq![]
    } else if is_old(v.last().1, now_secs, now_nanos, days_ago) && !blacklist.contains(v.last().0) {
        stale_candidates(v.drop_last(), now_secs, now_nanos, days_ago, blacklist).push(v.last())
    } else {
        stale_candidates(v.drop_last(), now_secs, now_nanos, days_ago, blacklist)
    }
}

/// Oldest first.
pub open spec fn oldest_first(v: Seq<DatedBranch>) -> bool {
    forall|i: int, j: int| 0 <= i <= j < v.len() ==> not_later((#[trigger] v[i]).1, (#[trigger] v[j]).1)
}

/// A time in nanoseconds since the Unix epoch.
fn total_nanos(secs: i64, nanos: u32) -> (r: i128)
    ensures
        r == nanos_of(secs, nanos),
{
    assert(-0x8000_0000_0000_0000 * 1_000_000_000 <= secs * 1_000_000_000 <= 0x7fff_ffff_ffff_ffff * 1_000_000_000) by (nonlinear_arith)
        requires
            -0x8000_0000_0000_0000 <= secs <= 0x7fff_ffff_ffff_ffff,
    ;
    (secs as i128) * 1_000_000_000 + (nanos as i128)
}

/// Whether a branch last committed at `committed` is old at `now`.
fn old_at(committed: &CommitTime, now_secs: i64, now_nanos: u32, days_ago: i64) -> (r: bool)
    ensures
        r == is_old(committed@, now_secs, now_nanos, days_ago),
{
    let span: i128 = total_nanos(now_secs, now_nanos) - total_nanos(committed.secs, committed.nanos);
    let days: i128 = if span >= 0 {
        span / NANOS_PER_DAY
    } else {
        -((-span) / NANOS_PER_DAY)
    };
    days >= days_ago as i128
}

/// Whether commit time `a` is not later than `b`.
fn not_later_than(a: &CommitTime, b: &CommitTime) -> (r: bool)
    ensures
        r == not_later(a@, b@),
{
    a.secs < b.secs || (a.secs == b.secs && a.nanos <= b.nanos)
}

/// A copy of a commit time.
fn copy_time(t: &CommitTime) -> (r: CommitTime)
    ensures
        r@ == t@,
{
    CommitTime { secs: t.secs, nanos: t.nanos, date: owned(t.date.as_str()) }
}

/// The branches that are at least `days_ago` whole days old at the instant `now_secs` seconds
/// and `now_nanos` nanoseconds after the Unix epoch and not on the blacklist, oldest first;
/// branches of the same age keep their order.
pub fn stale_branches(
    branches: &Vec<(String, CommitTime)>,
    now_secs: i64,
    now_nanos: u32,
    days_ago: i64,
    blacklist: &Vec<String>,
) -> (r: Vec<(String, CommitTime)>)
    ensures
        oldest_first(dated_view(r@)),
        dated_view(r@).to_multiset() == stale_candidates(
            dated_view(branches@),
            now_secs,
            now_nanos,
            days_ago,
            strings_view(blacklist@),
        ).to_multiset(),
{
    broadcast use vstd::seq_lib::group_to_multiset_ensures;
    let ghost all = dated_view(branches@);
    let ghost bl = strings_view(blacklist@);
    let mut out: Vec<(String, CommitTime)> = Vec::new();
    let n = branches.len();
    let mut i: usize = 0;
    assert(dated_view(out@) =~= Seq::<DatedBranch>::empty());
    while i < n
        invariant
            n == branches@.len(),
            i <= n,
            all == dated_view(branches@),
            bl == strings_view(blacklist@),
            oldest_first(dated_view(out@)),
            dated_view(out@).to_multiset() == stale_candidates(all.subrange(0, i as int), now_secs, now_nanos, days_ago, bl).to_multiset(),
        decreases n - i,
    {
        let (name, committed) = &branches[i];
        let ghost prefix = all.subrange(0, i + 1);
        assert(prefix.drop_last() =~= all.subrange(0, i as int));
        assert(prefix.last() == (name@, committed@));
        if old_at(committed, now_secs, now_nanos, days_ago) && !contains_string(blacklist, name.as_str()) {
            let ghost before = dated_view(out@);
            let mut p: usize = 0;
            while p < out.len() && not_later_than(&out[p].1, committed)
                invariant
                    p <= out@.len(),
                    forall|j: int| 0 <= j < p ==> not_later((#[trigger] out@[j]).1@, committed@),
                decreases out@.len() - p,
            {
                p += 1;
            }
            let ghost x = (name@, committed@);
            assert(p < before.len() ==> !not_later(before[p as int].1, committed@)) by {
                if p < before.len() {
                    assert(before[p as int] == (out@[p as int].0@, out@[p as int].1@));
                }
            }
            assert forall|j: int| 0 <= j < p implies not_later((#[trigger] before[j]).1, committed@) by {
                assert(before[j].1 == out@[j].1@);
            }
            out.insert(p, (owned(name.as_str()), copy_time(committed)));
            assert(dated_view(out@) =~= before.insert(p as int, x));
            proof {
                let s = before.insert(p as int, x);
                assert(s.remove(p as int) =~= before);
                assert(s[p as int] == x);
                assert(s.contains(x));
                s.to_multiset_ensures();
                before.to_multiset_ensures();
                assert(s.to_multiset().count(x) > 0);
                assert(s.to_multiset() =~= before.to_multiset().insert(x));
                let prev_c = stale_candidates(all.subrange(0, i as int), now_secs, now_nanos, days_ago, bl);
                assert(stale_candidates(prefix, now_secs, now_nanos, days_ago, bl) == prev_c.push(x));
                prev_c.to_multiset_ensures();
                let after = dated_view(out@);
                assert forall|a: int, b: int| 0 <= a <= b < after.len() implies not_later((#[trigger] after[a]).1, (#[trigger] after[b]).1) by {
                    if a < p && b < p {
                        assert(after[a] == before[a] && after[b] == before[b]);
                    } else if a < p && b == p {
                        assert(after[a] == before[a]);
                    } else if a < p {
                        assert(after[a] == before[a] && after[b] == before[b - 1]);
                    } else if a == p && b > p {
                        assert(after[b] == before[b - 1]);
                        assert(not_later(before[p as int].1, before[b - 1].1));
                    } else if a > p {
                        assert(after[a] == before[a - 1] && after[b] == before[b - 1]);
                    }
                }
            }
        }
        i += 1;
    }
    assert(all.subrange(0, n as int) =~= all);
    out
}

// ---------------------------------------------------------------------------------------------
// Showing and reporting the results
// ---------------------------------------------------------------------------------------------

/// The stale branches with their dates written as `YYYY-MM-DD`.
pub fn with_dates(branches: &Vec<(String, CommitTime)>) -> (r: Vec<(String, String)>)
    ensures
        r@.len() == branches@.len(),
        forall|i: int| 0 <= i < r@.len() ==> (#[trigger] r@[i]).0@ == branches@[i].0@ && r@[i].1@
            == branches@[i].1.date@,
{
    let mut out: Vec<(String, String)> = Vec::new();
    let mut i: usize = 0;
    while i < branches.len()
        invariant
            i <= branches@.len(),
            out@.len() == i,
            forall|j: int| 0 <= j < i ==> (#[trigger] out@[j]).0@ == branches@[j].0@ && out@[j].1@
                == branches@[j].1.date@,
        decreases branches@.len() - i,
    {
        out.push((owned(branches[i].0.as_str()), owned(branches[i].1.date.as_str())));
        i += 1;
    }
    out
}

/// The license name as a trailing CSV field: `,name`, or nothing.
pub open spec fn license_field(license: Option<LicenseInfo>) -> Seq<char> {
    match license {
        Some(l) => match l.name {
            Some(n) => ","@ + n@,
            None => seq![],
        },
        None => seq![],
    }
}

/// The cells of a row joined by commas.
pub open spec fn joined_cells(cells: Seq<String>, k: int) -> Seq<char>
    decreases k,
{
    if k <= 0 || k > cells.len() {
        seq![]
    } else if k == 1 {
        cells[0]@
    } else {
        joined_cells(cells, k - 1) + ","@ + cells[k - 1]@
    }
}

/// The CSV line of one row of check results.
pub open spec fn csv_line(repo: Seq<char>, row: Seq<String>, license: Option<LicenseInfo>) -> Seq<char> {
    repo + ","@ + joined_cells(row, row.len() as int) + ","@ + license_field(license)
}

/// The lines that show check results when the output is not a terminal: one per row, as
/// `repo,cells...,license`.
pub fn check_csv_lines(rows: &Vec<Vec<String>>, license: &Option<LicenseInfo>, repo: &str) -> (r: Vec<String>)
    ensures
        r@.len() == rows@.len(),
        forall|i: int| 0 <= i < r@.len() ==> (#[trigger] r@[i])@ == csv_line(repo@, rows@[i]@, *license),
{
    let license_name = match license {
        Some(l) => match &l.name {
            Some(n) => cat(",", n.as_str()),
            None => String::new(),
        },
        None => String::new(),
    };
    let mut out: Vec<String> = Vec::new();
    let mut i: usize = 0;
    while i < rows.len()
        invariant
            i <= rows@.len(),
            out@.len() == i,
            license_name@ == license_field(*license),
            forall|j: int| 0 <= j < i ==> (#[trigger] out@[j])@ == csv_line(repo@, rows@[j]@, *license),
        decreases rows@.len() - i,
    {
        let row = &rows[i];
        let mut line = cat(repo, ",");
        let mut k: usize = 0;
        let ghost head = line@;
        while k < row.len()
            invariant
                k <= row@.len(),
                line@ == head + joined_cells(row@, k as int),
            decreases row@.len() - k,
        {
            if k > 0 {
                line.append(",");
            }
            line.append(row[k].as_str());
            k += 1;
        }
        line.append(",");
        line.append(license_name.as_str());
        out.push(line);
        i += 1;
    }
    out
}

/// The problems of a check to report: a license on the license blacklist, and stale branches
/// that are not on the branch blacklist.
pub fn check_problems(
    repository: &str,
    license: &Option<LicenseInfo>,
    branches: &Vec<(String, String)>,
    branch_blacklist: &Vec<String>,
    license_blacklist: &Vec<String>,
) -> (r: Vec<String>)
    ensures
        ({
            let spdx = match *license {
                Some(l) => opt_string_view(l.spdx_id),
                None => None,
            };
            let blacklisted = spdx is Some && strings_view(license_blacklist@).contains(spdx->0);
            let stale = branches@.filter(|b: (String, String)| !strings_view(branch_blacklist@).contains(b.0@)).len();
            let first = if blacklisted {
                seq!["Blacklisted license "@ + spdx->0 + " used in "@ + repository@]
            } else {
                seq![]
            };
            let second = if stale > 0 {
                seq!["Repository "@ + repository@ + " has "@ + decimal(stale) + " stale branches"@]
            } else {
                seq![]
            };
            strings_view(r@) == first + second
        }),
{
    let mut out: Vec<String> = Vec::new();
    let ghost bl = strings_view(branch_blacklist@);
    if let Some(l) = license {
        if let Some(spdx) = &l.spdx_id {
            if contains_string(license_blacklist, spdx.as_str()) {
                let mut m = owned("Blacklisted license ");
                m.append(spdx.as_str());
                m.append(" used in ");
                m.append(repository);
                out.push(m);
            }
        }
    }
    let ghost first = strings_view(out@);
    let mut count: usize = 0;
    let mut i: usize = 0;
    let ghost pred = |b: (String, String)| !bl.contains(b.0@);
    while i < branches.len()
        invariant
            i <= branches@.len(),
            count <= i,
            bl == strings_view(branch_blacklist@),
            pred == (|b: (String, String)| !bl.contains(b.0@)),
            count == branches@.subrange(0, i as int).filter(pred).len(),
        decreases branches@.len() - i,
    {
        let ghost prefix = branches@.subrange(0, i + 1);
        assert(prefix.drop_last() =~= branches@.subrange(0, i as int));
        reveal_with_fuel(Seq::filter, 1);
        if !contains_string(branch_blacklist, branches[i].0.as_str()) {
            count += 1;
        }
        i += 1;
    }
    assert(branches@.subrange(0, branches@.len() as int) =~= branches@);
    if count > 0 {
        let mut m = owned("Repository ");
        m.append(repository);
        m.append(" has ");
        let c = decimal_string(count as u64);
        m.append(c.as_str());
        m.append(" stale branches");
        let ghost before = strings_view(out@);
        out.push(m);
        assert(strings_view(out@) =~= before.push(m@));
    }
    out
}

/// Whether a dated branch is at least `days_ago` whole days old at the instant `now_secs`
/// seconds and `now_nanos` nanoseconds after the Unix epoch, and its name is not on the
/// blacklist.
pub open spec fn stale_and_allowed(now_secs: i64, now_nanos: u32, days_ago: i64, blacklist: Seq<Seq<char>>) -> spec_fn(DatedBranch) -> bool {
    |b: DatedBranch| whole_days(
        (now_secs * 1_000_000_000 + now_nanos) - (b.1.0 * 1_000_000_000 + b.1.1),
    ) >= days_ago && !blacklist.contains(b.0)
}

/// The stale branches are exactly the branches at least `days_ago` whole days old whose name is
/// nowhere on the blacklist, in their order; so no branch named anywhere on the blacklist is
/// ever reported, and every old branch that is not named there is.
pub proof fn lemma_stale_branches_skip_blacklist(
    v: Seq<DatedBranch>,
    now_secs: i64,
    now_nanos: u32,
    days_ago: i64,
    blacklist: Seq<Seq<char>>,
)
    ensures
        stale_candidates(v, now_secs, now_nanos, days_ago, blacklist) == v.filter(
            stale_and_allowed(now_secs, now_nanos, days_ago, blacklist),
        ),
        forall|k: int|
            0 <= k < stale_candidates(v, now_secs, now_nanos, days_ago, blacklist).len()
                ==> !blacklist.contains(
                (#[trigger] stale_candidates(v, now_secs, now_nanos, days_ago, blacklist)[k]).0,
            ),
    decreases v.len(),
{
    reveal(Seq::filter);
    let pred = stale_and_allowed(now_secs, now_nanos, days_ago, blacklist);
    let sc = stale_candidates(v, now_secs, now_nanos, days_ago, blacklist);
    if v.len() > 0 {
        let init = v.drop_last();
        lemma_stale_branches_skip_blacklist(init, now_secs, now_nanos, days_ago, blacklist);
        let rest = stale_candidates(init, now_secs, now_nanos, days_ago, blacklist);
        assert(v.filter(pred) == if pred(v.last()) { init.filter(pred).push(v.last()) } else { init.filter(pred) });
        assert forall|k: int| 0 <= k < sc.len() implies !blacklist.contains((#[trigger] sc[k]).0) by {
            if k < rest.len() {
                assert(sc[k] == rest[k]);
            }
        }
    }
}

} // verus!
