//! Tags: reading the pages of GitHub's tag listing, comparing a fork's tags with its parent's,
//! and summarizing a sync.
use vstd::prelude::*;
use crate::error::{decimal, decimal_string, GitError};
use crate::text::{cat, contains, contains_seq, lines_of, owned, split_lines, str_eq, trim, trim_ws};
use crate::utils::repo::{opt_string_view, TagInfo, TagType};
use crate::cache::store::{names_unique, strings_view, tag_view, tags_view, TagView};

verus! {

/// The root level response from github
#[derive(Debug)]
pub struct RepoResponse {
    pub data: RepoData,
}

/// Struct to deserialize the repository data into
#[derive(Debug)]
pub struct RepoData {
    pub repository: Repository,
}

/// An actual repository containing its parent if it has one
#[derive(Debug)]
pub struct Repository {
    pub parent: Option<ParentRepo>,
    pub refs: Refs,
}

/// A parent repository
#[derive(Debug)]
pub struct ParentRepo {
    pub url: String,
}

/// The refs in a repository
#[derive(Debug)]
pub struct Refs {
    pub nodes: Vec<TagNode>,
    pub page_info: PageInfo,
}

/// Information about pagination needed for queries
#[derive(Debug)]
pub struct PageInfo {
    pub has_next_page: bool,
    pub end_cursor: Option<String>,
}

/// The actual tag node
#[derive(Debug)]
pub struct TagNode {
    pub name: String,
    pub target: TagTarget,
}

/// Information about the tag, particularly its type (annotated or lightweight)
#[derive(Debug)]
pub struct TagTarget {
    pub typename: String,
    pub oid: String,
    pub target: Option<Box<TagTarget>>,
}

/// The tags of a fork that its parent has and it lacks, and where the tags come from.
#[derive(Debug)]
pub struct Comparison {
    /// The missing tags, in the parent's order.
    pub missing_in_fork: Vec<TagInfo>,
    /// The URLs of the parents of both repositories.
    pub parent_urls: Vec<String>,
}

// ---------------------------------------------------------------------------------------------
// Reading pages of tags
// ---------------------------------------------------------------------------------------------

/// The kind of tag that a GraphQL type name stands for.
pub open spec fn tag_type_of(typename: Seq<char>) -> Option<TagType> {
    if typename == "Tag"@ {
        Some(TagType::Annotated)
    } else if typename == "Commit"@ {
        Some(TagType::Lightweight)
    } else {
        None
    }
}

/// Whether some tag in `v` has the name `name`.
pub open spec fn has_name(v: Seq<TagView>, name: Seq<char>) -> bool {
    exists|i: int| 0 <= i < v.len() && (#[trigger] v[i]).0 == name
}

/// The tag that a node describes, found in the repository at `url`.
pub open spec fn node_tag(node: TagNode, url: Seq<char>) -> TagView {
    (
        node.name@,
        tag_type_of(node.target.typename@)->0,
        node.target.oid@,
        url,
        match node.target.target {
            Some(inner) => Some(inner.oid@),
            None => None,
        },
    )
}

/// The tags after one page of nodes: each node's tag is added unless one of that name is
/// already there. `None` when a node has a type that is neither a tag object nor a commit.
pub open spec fn tags_after_page(tags: Seq<TagView>, nodes: Seq<TagNode>, url: Seq<char>) -> Option<Seq<TagView>>
    decreases nodes.len(),
{
    if nodes.len() == 0 {
        Some(tags)
    } else {
        match tags_after_page(tags, nodes.drop_last(), url) {
            None => None,
            Some(t) => {
                if tag_type_of(nodes.last().target.typename@) is None {
                    None
                } else if has_name(t, nodes.last().name@) {
                    Some(t)
                } else {
                    Some(t.push(node_tag(nodes.last(), url)))
                }
            },
        }
    }
}

/// The first node, if any, whose type is neither a tag object nor a commit.
pub open spec fn first_unknown_type(nodes: Seq<TagNode>) -> Option<Seq<char>>
    decreases nodes.len(),
{
    if nodes.len() == 0 {
        None
    } else {
        match first_unknown_type(nodes.drop_last()) {
            Some(t) => Some(t),
            None => if tag_type_of(nodes.last().target.typename@) is None {
                Some(nodes.last().target.typename@)
            } else {
                None
            },
        }
    }
}

/// Whether some tag in `v` is named `name`.
pub fn contains_tag_name(v: &Vec<TagInfo>, name: &str) -> (r: bool)
    ensures
        r == has_name(tags_view(v@), name@),
{
    let mut i: usize = 0;
    while i < v.len()
        invariant
            i <= v@.len(),
            forall|j: int| 0 <= j < i ==> (#[trigger] v@[j]).name@ != name@,
        decreases v@.len() - i,
    {
        if str_eq(v[i].name.as_str(), name) {
            assert(tags_view(v@)[i as int].0 == name@);
            return true;
        }
        i += 1;
    }
    assert forall|j: int| 0 <= j < tags_view(v@).len() implies (#[trigger] tags_view(v@)[j]).0
        != name@ by {
        assert(tags_view(v@)[j] == tag_view(v@[j]));
    }
    false
}

fn copy_opt(o: &Option<String>) -> (r: Option<String>)
    ensures
        opt_string_view(r) == opt_string_view(*o),
{
    match o {
        Some(s) => Some(owned(s.as_str())),
        None => None,
    }
}

/// Adds the tags of one page of GitHub's tag listing for the repository at `url`: a tag object
/// is an annotated tag and a commit a lightweight one, and a tag already recorded keeps its
/// place. The parent's URL is recorded unless `url` is already among the parent URLs. A node
/// of another type is an error, and the page is then not recorded.
pub fn add_tag_page(
    tags: &mut Vec<TagInfo>,
    parent_urls: &mut Vec<String>,
    url: &str,
    parent_url: Option<&str>,
    nodes: &Vec<TagNode>,
) -> (r: Result<(), GitError>)
    requires
        names_unique(old(tags)@),
    ensures
        first_unknown_type(nodes@) matches Some(t) ==> (r matches Err(GitError::Other(m)) && m@
            == "Unknown tag type '"@ + t + "'"@),
        first_unknown_type(nodes@) is None ==> {
            &&& r is Ok
            &&& tags_after_page(tags_view(old(tags)@), nodes@, url@) == Some(tags_view(final(tags)@))
            &&& names_unique(final(tags)@)
            &&& strings_view(final(parent_urls)@) == if nodes@.len() > 0 && parent_url is Some
                && !strings_view(old(parent_urls)@).contains(url@) && !strings_view(
                old(parent_urls)@,
            ).contains(parent_url->0@) {
                strings_view(old(parent_urls)@).push(parent_url->0@)
            } else {
                strings_view(old(parent_urls)@)
            }
        },
{
    proof {
        reveal_strlit("Tag");
        reveal_strlit("Commit");
    }
    let n = nodes.len();
    let mut i: usize = 0;
    while i < n
        invariant
            n == nodes@.len(),
            i <= n,
            first_unknown_type(nodes@.subrange(0, i as int)) is None,
        decreases n - i,
    {
        let ty = nodes[i].target.typename.as_str();
        let ghost prefix = nodes@.subrange(0, i + 1);
        assert(prefix.drop_last() =~= nodes@.subrange(0, i as int));
        if !str_eq(ty, "Tag") && !str_eq(ty, "Commit") {
            proof {
                lemma_unknown_persists(nodes@, i + 1);
            }
            let mut m = owned("Unknown tag type '");
            m.append(ty);
            m.append("'");
            return Err(GitError::Other(m));
        }
        i += 1;
    }
    assert(nodes@.subrange(0, n as int) =~= nodes@);
    let ghost start = tags_view(tags@);
    let mut i: usize = 0;
    while i < n
        invariant
            n == nodes@.len(),
            i <= n,
            first_unknown_type(nodes@) is None,
            names_unique(tags@),
            tags_after_page(start, nodes@.subrange(0, i as int), url@) == Some(tags_view(tags@)),
        decreases n - i,
    {
        let node = &nodes[i];
        let ghost prefix = nodes@.subrange(0, i + 1);
        assert(prefix.drop_last() =~= nodes@.subrange(0, i as int));
        proof {
            lemma_known_type(nodes@, i as int);
        }
        if !contains_tag_name(tags, node.name.as_str()) {
            let tag_type = if str_eq(node.target.typename.as_str(), "Tag") {
                TagType::Annotated
            } else {
                TagType::Lightweight
            };
            let commit_sha = match &node.target.target {
                Some(inner) => Some(owned(inner.oid.as_str())),
                None => None,
            };
            let ghost before = tags@;
            tags.push(
                TagInfo {
                    name: owned(node.name.as_str()),
                    tag_type,
                    sha: owned(node.target.oid.as_str()),
                    url: owned(url),
                    commit_sha,
                },
            );
            assert(tags_view(tags@) =~= tags_view(before).push(node_tag(*node, url@)));
            assert forall|a: int, b: int| 0 <= a < b < tags@.len() implies (#[trigger] tags@[a]).name@
                != (#[trigger] tags@[b]).name@ by {
                if b == tags@.len() - 1 {
                    assert(tags_view(before)[a] == tag_view(before[a]));
                    assert(before[a] == tags@[a]);
                } else {
                    assert(before[a] == tags@[a] && before[b] == tags@[b]);
                }
            }
        }
        i += 1;
    }
    assert(nodes@.subrange(0, n as int) =~= nodes@);
    if n > 0 {
        if let Some(p) = parent_url {
            let mut known = false;
            let mut j: usize = 0;
            while j < parent_urls.len()
                invariant
                    j <= parent_urls@.len(),
                    known == exists|k: int| 0 <= k < j && (#[trigger] parent_urls@[k])@ == url@,
                decreases parent_urls@.len() - j,
            {
                if str_eq(parent_urls[j].as_str(), url) {
                    known = true;
                }
                j += 1;
            }
            proof {
                if known {
                    let k = choose|k: int| 0 <= k < parent_urls@.len() && (#[trigger] parent_urls@[k])@ == url@;
                    assert(strings_view(parent_urls@)[k] == url@);
                } else {
                    assert forall|k: int| 0 <= k < strings_view(parent_urls@).len() implies strings_view(parent_urls@)[k] != url@ by {
                        assert(strings_view(parent_urls@)[k] == parent_urls@[k]@);
                    }
                }
            }
            if !known && !contains_string(parent_urls, p) {
                let ghost before = parent_urls@;
                parent_urls.push(owned(p));
                assert(strings_view(parent_urls@) =~= strings_view(before).push(p@));
            }
        }
    }
    Ok(())
}

/// Whether `s` is among `v`.
pub fn contains_string(v: &Vec<String>, s: &str) -> (r: bool)
    ensures
        r == strings_view(v@).contains(s@),
{
    let mut i: usize = 0;
    while i < v.len()
        invariant
            i <= v@.len(),
            forall|j: int| 0 <= j < i ==> (#[trigger] v@[j])@ != s@,
        decreases v@.len() - i,
    {
        if str_eq(v[i].as_str(), s) {
            assert(strings_view(v@)[i as int] == s@);
            return true;
        }
        i += 1;
    }
    assert forall|j: int| 0 <= j < strings_view(v@).len() implies strings_view(v@)[j] != s@ by {
        assert(strings_view(v@)[j] == v@[j]@);
    }
    false
}

proof fn lemma_unknown_persists(nodes: Seq<TagNode>, k: int)
    requires
        0 <= k <= nodes.len(),
        first_unknown_type(nodes.subrange(0, k)) is Some,
    ensures
        first_unknown_type(nodes) == first_unknown_type(nodes.subrange(0, k)),
    decreases nodes.len() - k,
{
    if k == nodes.len() {
        assert(nodes.subrange(0, k) =~= nodes);
    } else {
        assert(nodes.drop_last().subrange(0, k) =~= nodes.subrange(0, k));
        lemma_unknown_persists(nodes.drop_last(), k);
    }
}

proof fn lemma_known_type(nodes: Seq<TagNode>, i: int)
    requires
        0 <= i < nodes.len(),
        first_unknown_type(nodes) is None,
    ensures
        tag_type_of(nodes[i].target.typename@) is Some,
    decreases nodes.len(),
{
    if i < nodes.len() - 1 {
        assert(nodes.drop_last()[i] == nodes[i]);
        lemma_known_type(nodes.drop_last(), i);
    }
}

// ---------------------------------------------------------------------------------------------
// Comparing a fork with its parent
// ---------------------------------------------------------------------------------------------

/// The tags of `parent` whose name no tag of `fork` has, in the parent's order.
pub open spec fn missing_from(parent: Seq<TagView>, fork: Seq<TagView>) -> Seq<TagView>
    decreases parent.len(),
{
    if parent.len() == 0 {
        seq![]
    } else if has_name(fork, parent.last().0) {
        missing_from(parent.drop_last(), fork)
    } else {
        missing_from(parent.drop_last(), fork).push(parent.last())
    }
}

/// `a` extended with the strings of `b` that it does not hold yet, in their order.
pub open spec fn extended(a: Seq<Seq<char>>, b: Seq<Seq<char>>) -> Seq<Seq<char>>
    decreases b.len(),
{
    if b.len() == 0 {
        a
    } else if extended(a, b.drop_last()).contains(b.last()) {
        extended(a, b.drop_last())
    } else {
        extended(a, b.drop_last()).push(b.last())
    }
}

/// The tags of the kind `kind`, in their order.
pub open spec fn of_kind(v: Seq<TagView>, kind: TagType) -> Seq<TagView>
    decreases v.len(),
{
    if v.len() == 0 {
        seq![]
    } else if v.last().1 == kind {
        of_kind(v.drop_last(), kind).push(v.last())
    } else {
        of_kind(v.drop_last(), kind)
    }
}

/// Compares the tags of a fork with those of its parent: the parent's tags that the fork lacks,
/// in the parent's order, and the parent URLs of both, each once.
pub fn compare_tags(
    fork_tags: &Vec<TagInfo>,
    fork_parents: Vec<String>,
    parent_tags: &Vec<TagInfo>,
    upstream_parents: &Vec<String>,
) -> (r: Comparison)
    ensures
        tags_view(r.missing_in_fork@) == missing_from(tags_view(parent_tags@), tags_view(fork_tags@)),
        strings_view(r.parent_urls@) == extended(strings_view(fork_parents@), strings_view(upstream_parents@)),
{
    let ghost fork = tags_view(fork_tags@);
    let ghost parent = tags_view(parent_tags@);
    let mut missing: Vec<TagInfo> = Vec::new();
    let n = parent_tags.len();
    let mut i: usize = 0;
    while i < n
        invariant
            n == parent_tags@.len(),
            i <= n,
            fork == tags_view(fork_tags@),
            parent == tags_view(parent_tags@),
            tags_view(missing@) == missing_from(parent.subrange(0, i as int), fork),
        decreases n - i,
    {
        let t = &parent_tags[i];
        assert(parent.subrange(0, i + 1).drop_last() =~= parent.subrange(0, i as int));
        assert(parent.subrange(0, i + 1).last() == tag_view(*t));
        if !contains_tag_name(fork_tags, t.name.as_str()) {
            let ghost before = missing@;
            missing.push(t.duplicate());
            assert(tags_view(missing@) =~= tags_view(before).push(tag_view(*t)));
        }
        i += 1;
    }
    assert(parent.subrange(0, n as int) =~= parent);
    let mut urls = fork_parents;
    let ghost a = strings_view(urls@);
    let ghost b = strings_view(upstream_parents@);
    let m = upstream_parents.len();
    let mut j: usize = 0;
    while j < m
        invariant
            m == upstream_parents@.len(),
            j <= m,
            b == strings_view(upstream_parents@),
            strings_view(urls@) == extended(a, b.subrange(0, j as int)),
        decreases m - j,
    {
        let u = upstream_parents[j].as_str();
        assert(b.subrange(0, j + 1).drop_last() =~= b.subrange(0, j as int));
        assert(b.subrange(0, j + 1).last() == u@);
        if !contains_string(&urls, u) {
            let ghost before = urls@;
            urls.push(owned(u));
            assert(strings_view(urls@) =~= strings_view(before).push(u@));
        }
        j += 1;
    }
    assert(b.subrange(0, m as int) =~= b);
    Comparison { missing_in_fork: missing, parent_urls: urls }
}

/// Splits tags into the lightweight ones and the annotated ones, each in their order.
pub fn partition_tags(tags: &Vec<TagInfo>) -> (r: (Vec<TagInfo>, Vec<TagInfo>))
    ensures
        tags_view(r.0@) == of_kind(tags_view(tags@), TagType::Lightweight),
        tags_view(r.1@) == of_kind(tags_view(tags@), TagType::Annotated),
{
    let ghost all = tags_view(tags@);
    let mut lightweight: Vec<TagInfo> = Vec::new();
    let mut annotated: Vec<TagInfo> = Vec::new();
    let n = tags.len();
    let mut i: usize = 0;
    while i < n
        invariant
            n == tags@.len(),
            i <= n,
            all == tags_view(tags@),
            tags_view(lightweight@) == of_kind(all.subrange(0, i as int), TagType::Lightweight),
            tags_view(annotated@) == of_kind(all.subrange(0, i as int), TagType::Annotated),
        decreases n - i,
    {
        let t = &tags[i];
        assert(all.subrange(0, i + 1).drop_last() =~= all.subrange(0, i as int));
        assert(all.subrange(0, i + 1).last() == tag_view(*t));
        if t.tag_type == TagType::Lightweight {
            let ghost before = lightweight@;
            lightweight.push(t.duplicate());
            assert(tags_view(lightweight@) =~= tags_view(before).push(tag_view(*t)));
        } else {
            let ghost before = annotated@;
            annotated.push(t.duplicate());
            assert(tags_view(annotated@) =~= tags_view(before).push(tag_view(*t)));
        }
        i += 1;
    }
    assert(all.subrange(0, n as int) =~= all);
    (lightweight, annotated)
}

// ---------------------------------------------------------------------------------------------
// Reporting a sync
// ---------------------------------------------------------------------------------------------

/// The bulleted names of the first `k` tags.
pub open spec fn bullets(tags: Seq<TagView>, k: int) -> Seq<char>
    decreases k,
{
    if k <= 0 || k > tags.len() {
        seq![]
    } else {
        bullets(tags, k - 1) + "\t• `"@ + tags[k - 1].0 + "`"@
    }
}

/// The list of tag names in a sync report: at most ten, and a count of the others.
pub open spec fn tag_listing(tags: Seq<TagView>) -> Seq<char> {
    if tags.len() > 10 {
        bullets(tags, 10) + "\t and "@ + decimal((tags.len() - 10) as nat) + " others\n"@
    } else {
        bullets(tags, tags.len() as int)
    }
}

/// The report of a successful sync of `total` tags into `owner/repo`, of which `annotated` and
/// `lightweight` were the two kinds.
pub open spec fn sync_report(
    owner: Seq<char>,
    repo: Seq<char>,
    total: nat,
    process_annotated: bool,
    annotated: Seq<TagView>,
    lightweight: Seq<TagView>,
) -> Seq<char> {
    let head = ":white_check_mark: Synced "@ + decimal(total) + " tags for "@ + owner + "/"@ + repo + "\n"@;
    let annotated_part = if process_annotated && annotated.len() > 0 {
        (if annotated.len() == 1 {
            "Of which 1 is an annotated tag:\n"@
        } else {
            "Of which "@ + decimal(annotated.len()) + " are annotated tags:\n"@
        }) + tag_listing(annotated)
    } else {
        seq![]
    };
    let lightweight_part = if lightweight.len() > 0 {
        (if annotated.len() == 0 {
            "Of which "@ + decimal(lightweight.len()) + " are lightweight tags:\n"@
        } else if annotated.len() == 1 {
            "\nAnd "@ + decimal(lightweight.len()) + " is a lightweight tag:\n"@
        } else {
            "\nAnd "@ + decimal(lightweight.len()) + " are lightweight tags:\n"@
        }) + tag_listing(lightweight)
    } else {
        seq![]
    };
    head + annotated_part + lightweight_part
}

/// The list of tag names in a sync report.
fn listing(tags: &Vec<TagInfo>) -> (r: String)
    ensures
        r@ == tag_listing(tags_view(tags@)),
{
    let ghost v = tags_view(tags@);
    let mut out = String::new();
    let n = tags.len();
    let k: usize = if n > 10 {
        10
    } else {
        n
    };
    let mut i: usize = 0;
    assert(out@ =~= bullets(v, 0));
    while i < k
        invariant
            n == tags@.len(),
            k <= n,
            k <= 10,
            i <= k,
            v == tags_view(tags@),
            out@ == bullets(v, i as int),
        decreases k - i,
    {
        assert(v[i as int].0 == tags@[i as int].name@);
        out.append("\t• `");
        out.append(tags[i].name.as_str());
        out.append("`");
        i += 1;
    }
    if n > 10 {
        out.append("\t and ");
        let count = decimal_string((n - 10) as u64);
        out.append(count.as_str());
        out.append(" others\n");
    }
    out
}

/// The report of a successful sync of `total` tags into `owner/repo`.
pub fn sync_message(
    owner: &str,
    repo: &str,
    total: usize,
    process_annotated: bool,
    annotated: &Vec<TagInfo>,
    lightweight: &Vec<TagInfo>,
) -> (r: String)
    ensures
        r@ == sync_report(
            owner@,
            repo@,
            total as nat,
            process_annotated,
            tags_view(annotated@),
            tags_view(lightweight@),
        ),
{
    let mut m = owned(":white_check_mark: Synced ");
    let count = decimal_string(total as u64);
    m.append(count.as_str());
    m.append(" tags for ");
    m.append(owner);
    m.append("/");
    m.append(repo);
    m.append("\n");
    let ghost head = m@;
    if process_annotated && annotated.len() > 0 {
        if annotated.len() == 1 {
            m.append("Of which 1 is an annotated tag:\n");
        } else {
            m.append("Of which ");
            let c = decimal_string(annotated.len() as u64);
            m.append(c.as_str());
            m.append(" are annotated tags:\n");
        }
        let l = listing(annotated);
        m.append(l.as_str());
    }
    let ghost with_annotated = m@;
    if lightweight.len() > 0 {
        if annotated.len() == 0 {
            m.append("Of which ");
            let c = decimal_string(lightweight.len() as u64);
            m.append(c.as_str());
            m.append(" are lightweight tags:\n");
        } else if annotated.len() == 1 {
            m.append("\nAnd ");
            let c = decimal_string(lightweight.len() as u64);
            m.append(c.as_str());
            m.append(" is a lightweight tag:\n");
        } else {
            m.append("\nAnd ");
            let c = decimal_string(lightweight.len() as u64);
            m.append(c.as_str());
            m.append(" are lightweight tags:\n");
        }
        let l = listing(lightweight);
        m.append(l.as_str());
    }
    m
}

// ---------------------------------------------------------------------------------------------
// Laws
// ---------------------------------------------------------------------------------------------

pub proof fn lemma_push_contains<A>(s: Seq<A>, x: A, t: A)
    ensures
        s.push(x).contains(t) <==> (s.contains(t) || t == x),
{
    if s.push(x).contains(t) {
        let i = choose|i: int| 0 <= i < s.push(x).len() && s.push(x)[i] == t;
        if i < s.len() {
            assert(s[i] == t);
        }
    }
    if s.contains(t) {
        let i = choose|i: int| 0 <= i < s.len() && s[i] == t;
        assert(s.push(x)[i] == t);
    }
    assert(s.push(x)[s.len() as int] == x);
}

/// The tags missing in a fork are exactly the parent's tags whose name the fork lacks.
pub proof fn lemma_missing_tags(parent: Seq<TagView>, fork: Seq<TagView>)
    ensures
        forall|t: TagView| #[trigger] missing_from(parent, fork).contains(t) <==> (parent.contains(t)
            && !has_name(fork, t.0)),
    decreases parent.len(),
{
    if parent.len() > 0 {
        let rest = parent.drop_last();
        let last = parent.last();
        lemma_missing_tags(rest, fork);
        assert(rest.push(last) =~= parent);
        assert forall|t: TagView| #[trigger] missing_from(parent, fork).contains(t) <==> (
        parent.contains(t) && !has_name(fork, t.0)) by {
            lemma_push_contains(rest, last, t);
            lemma_push_contains(missing_from(rest, fork), last, t);
        }
    }
}

/// Splitting tags by kind loses none and adds none: the two parts hold as many tags as there
/// were.
pub proof fn lemma_partition_sizes(tags: Seq<TagView>)
    ensures
        of_kind(tags, TagType::Lightweight).len() + of_kind(tags, TagType::Annotated).len() == tags.len(),
    decreases tags.len(),
{
    if tags.len() > 0 {
        lemma_partition_sizes(tags.drop_last());
    }
}

// ---------------------------------------------------------------------------------------------
// Syncing annotated tags with git
// ---------------------------------------------------------------------------------------------

/// The refspec that fetches the tag `name` into the tag of the same name.
pub fn tag_refspec(name: &str) -> (r: String)
    ensures
        r@ == "refs/tags/"@ + name@ + ":refs/tags/"@ + name@,
{
    let mut r = owned("refs/tags/");
    r.append(name);
    r.append(":refs/tags/");
    r.append(name);
    r
}

/// The trimmed lines of `s`.
pub open spec fn trimmed_lines(lines: Seq<Seq<char>>) -> Seq<Seq<char>> {
    lines.map_values(|l: Seq<char>| trim_ws(l))
}

/// The branches that hold a tag's commit, from the output of `git branch -r --contains`, that
/// the fork may lack: none when a branch of `origin` holds it, and otherwise every line, trimmed.
pub open spec fn branches_lacking_commit(output: Seq<char>) -> Seq<Seq<char>> {
    if contains_seq(output, "origin"@) {
        seq![]
    } else {
        trimmed_lines(lines_of(output))
    }
}

/// The branches that may need to be added to or updated in the fork so that it holds a tag's
/// commit, read from the output of `git branch -r --contains`.
pub fn branches_missing_commit(output: &str) -> (r: Vec<String>)
    ensures
        strings_view(r@) == branches_lacking_commit(output@),
{
    let mut out: Vec<String> = Vec::new();
    if contains(output, "origin") {
        assert(strings_view(out@) =~= Seq::<Seq<char>>::empty());
        return out;
    }
    let lines = split_lines(output);
    let ghost all = lines@.map_values(|l: String| l@);
    let mut i: usize = 0;
    while i < lines.len()
        invariant
            i <= lines@.len(),
            all == lines@.map_values(|l: String| l@),
            all == lines_of(output@),
            strings_view(out@) == trimmed_lines(all.subrange(0, i as int)),
        decreases lines@.len() - i,
    {
        out.push(owned(trim(lines[i].as_str())));
        assert(all.subrange(0, i + 1) =~= all.subrange(0, i as int).push(all[i as int]));
        assert(trimmed_lines(all.subrange(0, i + 1)) =~= trimmed_lines(all.subrange(0, i as int)).push(trim_ws(all[i as int])));
        i += 1;
    }
    assert(all.subrange(0, lines@.len() as int) =~= all);
    out
}

/// The bullets of a list of branches, one line each.
pub open spec fn branch_bullets(branches: Seq<Seq<char>>) -> Seq<char>
    decreases branches.len(),
{
    if branches.len() == 0 {
        seq![]
    } else {
        branch_bullets(branches.drop_last()) + "\t• "@ + branches.last() + "\n"@
    }
}

/// The warning that annotated tags may point at commits the fork lacks, naming the branches
/// that may need to be added or updated; none when there are no such branches.
pub fn missing_commits_warning(branches: &Vec<String>) -> (r: Option<String>)
    ensures
        branches@.len() == 0 ==> r is None,
        branches@.len() > 0 ==> (r matches Some(w) && w@
            == "You are likely missing some commits for the new annotated tags.\nThe following branches may need to be added or updated:\n"@
            + branch_bullets(strings_view(branches@))),
{
    if branches.len() == 0 {
        return None;
    }
    let mut w = owned(
        "You are likely missing some commits for the new annotated tags.\nThe following branches may need to be added or updated:\n",
    );
    let ghost head = w@;
    let mut i: usize = 0;
    while i < branches.len()
        invariant
            i <= branches@.len(),
            w@ == head + branch_bullets(strings_view(branches@).subrange(0, i as int)),
        decreases branches@.len() - i,
    {
        assert(strings_view(branches@).subrange(0, i + 1).drop_last() =~= strings_view(branches@).subrange(0, i as int));
        w.append("\t• ");
        w.append(branches[i].as_str());
        w.append("\n");
        i += 1;
    }
    assert(strings_view(branches@).subrange(0, branches@.len() as int) =~= strings_view(branches@));
    Some(w)
}

/// The arguments of the `git` command that pushes the new annotated tags from the clone in
/// `directory` to `origin`: only those tags, by name, in their order.
pub fn annotated_push_args(directory: &str, tags: &Vec<TagInfo>) -> (r: Vec<String>)
    ensures
        strings_view(r@) == seq!["-C"@, directory@, "push"@, "origin"@] + tags_view(tags@).map_values(|t: TagView| t.0),
{
    let mut args: Vec<String> = Vec::new();
    args.push(owned("-C"));
    args.push(owned(directory));
    args.push(owned("push"));
    args.push(owned("origin"));
    let ghost head = strings_view(args@);
    let ghost names = tags_view(tags@).map_values(|t: TagView| t.0);
    let mut i: usize = 0;
    while i < tags.len()
        invariant
            i <= tags@.len(),
            names == tags_view(tags@).map_values(|t: TagView| t.0),
            strings_view(args@) == head + names.subrange(0, i as int),
        decreases tags@.len() - i,
    {
        let ghost before = strings_view(args@);
        args.push(owned(tags[i].name.as_str()));
        assert(names[i as int] == tags@[i as int].name@);
        assert(strings_view(args@) =~= before.push(tags@[i as int].name@));
        assert(names.subrange(0, i + 1) =~= names.subrange(0, i as int).push(names[i as int]));
        i += 1;
    }
    assert(names.subrange(0, tags@.len() as int) =~= names);
    args
}

/// The reference that a tag named `name` is created under.
pub fn tag_ref(name: &str) -> (r: String)
    ensures
        r@ == "refs/tags/"@ + name@,
{
    cat("refs/tags/", name)
}

/// What deleting a tag came to.
#[derive(Debug, PartialEq, Eq, Structural)]
pub enum TagDeletion {
    /// The tag was deleted.
    Deleted,
    /// There was no such tag, so nothing was deleted.
    Absent,
}

/// What GitHub's answer to the deletion of `tag` comes to, from its status code and the status
/// as text: a success deletes it, 422 means that there was no such tag, and any other status is
/// an error that names the tag and the status.
pub fn tag_deletion(status: u16, status_text: &str, tag: &str) -> (r: Result<TagDeletion, GitError>)
    ensures
        200 <= status <= 299 ==> r == Ok::<TagDeletion, GitError>(TagDeletion::Deleted),
        status == 422 ==> r == Ok::<TagDeletion, GitError>(TagDeletion::Absent),
        !(200 <= status <= 299) && status != 422 ==> (r matches Err(GitError::Other(m)) && m@
            == "Cannot delete "@ + tag@ + ": "@ + status_text@),
{
    if 200 <= status && status <= 299 {
        Ok(TagDeletion::Deleted)
    } else if status == 422 {
        Ok(TagDeletion::Absent)
    } else {
        let mut m = owned("Cannot delete ");
        m.append(tag);
        m.append(": ");
        m.append(status_text);
        Err(GitError::Other(m))
    }
}

} // verus!
