//! The decisions behind the GitHub operations: what to fetch next, what to keep of what was
//! fetched, and what to report. The requests themselves are made by the application.
use vstd::prelude::*;
use crate::cache::store::strings_view;

pub mod tag;
pub mod check;
pub mod release;
pub mod commands;
pub mod pr;
pub mod fork;
pub mod backup;
pub mod client;
pub mod branch;
pub mod outcomes;
pub mod manifest;

verus! {

/// The tags of a fork and of its parent, by name, and the parent's tags that the fork lacks.
#[derive(Debug)]
pub struct ComparisonResult {
    /// All tags found in the forked repository
    pub fork_tags: Vec<String>,
    /// All tags found in the parent repository
    pub parent_tags: Vec<String>,
    /// The tags of the parent that the fork lacks, each once, in the order of `String`s.
    pub missing_in_fork: Vec<String>,
}

/// Compares tag names of a fork and its parent: the names the parent has and the fork lacks,
/// each once, in the order of `String`s.
pub fn compare_tag_names(fork_tags: Vec<String>, parent_tags: Vec<String>) -> (r: ComparisonResult)
    ensures
        r.fork_tags == fork_tags,
        r.parent_tags == parent_tags,
        forall|s: Seq<char>| #[trigger] strings_view(r.missing_in_fork@).contains(s) <==> (strings_view(parent_tags@).contains(s)
            && !strings_view(fork_tags@).contains(s)),
        commands::no_repeats(strings_view(r.missing_in_fork@)),
        client::in_string_order(strings_view(r.missing_in_fork@)),
{
    broadcast use vstd::seq_lib::group_to_multiset_ensures;
    let mut missing: Vec<String> = Vec::new();
    let ghost parents = strings_view(parent_tags@);
    let mut i: usize = 0;
    while i < parent_tags.len()
        invariant
            i <= parent_tags@.len(),
            parents == strings_view(parent_tags@),
            commands::no_repeats(strings_view(missing@)),
            forall|s: Seq<char>| #[trigger] strings_view(missing@).contains(s) <==> (parents.subrange(0, i as int).contains(s)
                && !strings_view(fork_tags@).contains(s)),
        decreases parent_tags@.len() - i,
    {
        let t = parent_tags[i].as_str();
        let ghost before = strings_view(missing@);
        assert(parents.subrange(0, i + 1) =~= parents.subrange(0, i as int).push(t@));
        if !tag::contains_string(&fork_tags, t) && !tag::contains_string(&missing, t) {
            missing.push(crate::text::owned(t));
            assert(strings_view(missing@) =~= before.push(t@));
        }
        assert forall|s: Seq<char>| #[trigger] strings_view(missing@).contains(s) <==> (parents.subrange(0, i + 1).contains(s)
            && !strings_view(fork_tags@).contains(s)) by {
            tag::lemma_push_contains(parents.subrange(0, i as int), t@, s);
            tag::lemma_push_contains(before, t@, s);
        }
        i += 1;
    }
    assert(parents.subrange(0, parent_tags@.len() as int) =~= parents);
    let ghost unsorted = strings_view(missing@);
    let sorted = client::sort_strings(missing);
    proof {
        unsorted.to_multiset_ensures();
        strings_view(sorted@).to_multiset_ensures();
        assert forall|s: Seq<char>| #[trigger] strings_view(sorted@).contains(s) <==> unsorted.contains(s) by {
            assert(strings_view(sorted@).to_multiset().count(s) == unsorted.to_multiset().count(s));
        }
        assert forall|a: int, b: int| 0 <= a < b < strings_view(sorted@).len() implies strings_view(sorted@)[a] != strings_view(sorted@)[b] by {
            let w = strings_view(sorted@);
            let x = w[a];
            if x == w[b] {
                assert(w.remove(a).contains(x)) by {
                    assert(w.remove(a)[b - 1] == x);
                }
                w.to_multiset_ensures();
                w.remove(a).to_multiset_ensures();
                assert(w.remove(a).to_multiset() =~= w.to_multiset().remove(x));
                assert(w.remove(a).to_multiset().count(x) > 0);
                assert(w.to_multiset().count(x) > 0);
                assert(w.to_multiset().count(x) >= 2);
                crate::github::commands::lemma_unique_count(unsorted, x);
            }
        }
    }
    ComparisonResult { fork_tags, parent_tags, missing_in_fork: sorted }
}

} // verus!
