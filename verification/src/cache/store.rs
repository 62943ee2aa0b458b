//! The cache of branches and tags per repository. Entries older than the time to live are
//! never returned and are dropped when the cache is saved.
//!
//! Instants are nanoseconds since the Unix epoch, in UTC; the caller passes the current instant.
use vstd::prelude::*;
use crate::error::OutsideFailure;
use crate::text::{cat3, owned, str_eq};
use crate::utils::repo::{opt_string_view, TagInfo, TagType};

verus! {

/// Why the cache could not be read or written.
#[derive(Debug)]
pub enum CacheError {
    /// The cache file could not be read or written.
    Io(OutsideFailure),
    /// The cache file does not hold a cache.
    Json(OutsideFailure),
    /// The cache is held by a task that failed.
    LockError(String),
}

/// The tags of a repository and the URLs of its parents.
#[derive(Debug)]
pub struct TagData {
    /// The tags, in the order they were found, each name once.
    pub tags: Vec<TagInfo>,
    /// The URLs of the repository's parents, each once.
    pub parent_urls: Vec<String>,
}

/// A value and when it was fetched.
#[derive(Debug)]
pub struct CacheEntry<T> {
    pub data: T,
    /// When the data was fetched, in nanoseconds since the Unix epoch.
    pub fetched_at: i128,
}

/// The branches of a repository, by name, with the date of their last commit.
pub type BranchData = Vec<(String, String)>;

/// What the cache holds, and what is saved to disk: per repository key (`owner/repository`),
/// its branches and its tags. Each key occurs once in each list.
#[derive(Debug)]
pub struct DiskCache {
    pub branches: Vec<(String, CacheEntry<BranchData>)>,
    pub tags: Vec<(String, CacheEntry<TagData>)>,
}

/// The cache of one run.
#[derive(Debug)]
pub struct Cache {
    data: DiskCache,
    path: String,
    ttl_nanos: u128,
    update: bool,
}

// ---------------------------------------------------------------------------------------------
// Specifications
// ---------------------------------------------------------------------------------------------

/// Whether data fetched at `fetched_at` is too old at `now`: it is from the future, or older
/// than the time to live.
pub open spec fn stale_at(fetched_at: int, now: int, ttl: int) -> bool {
    now - fetched_at < 0 || now - fetched_at > ttl
}

/// Each key occurs once.
pub open spec fn keys_unique<V>(v: Seq<(String, V)>) -> bool {
    forall|i: int, j: int| 0 <= i < j < v.len() ==> (#[trigger] v[i]).0@ != (#[trigger] v[j]).0@
}

/// The value recorded under `key`.
pub open spec fn entry_for<V>(v: Seq<(String, V)>, key: Seq<char>) -> Option<V>
    decreases v.len(),
{
    if v.len() == 0 {
        None
    } else if v.last().0@ == key {
        Some(v.last().1)
    } else {
        entry_for(v.drop_last(), key)
    }
}

/// The text of a list of string pairs.
pub open spec fn pairs_view(v: Seq<(String, String)>) -> Seq<(Seq<char>, Seq<char>)> {
    v.map_values(|p: (String, String)| (p.0@, p.1@))
}

/// The text of a list of strings.
pub open spec fn strings_view(v: Seq<String>) -> Seq<Seq<char>> {
    v.map_values(|s: String| s@)
}

/// All there is to a tag.
pub type TagView = (Seq<char>, TagType, Seq<char>, Seq<char>, Option<Seq<char>>);

pub open spec fn tag_view(t: TagInfo) -> TagView {
    (t.name@, t.tag_type, t.sha@, t.url@, opt_string_view(t.commit_sha))
}

/// The text of a list of tags.
pub open spec fn tags_view(v: Seq<TagInfo>) -> Seq<TagView> {
    v.map_values(|t: TagInfo| tag_view(t))
}

/// Each tag name occurs once.
pub open spec fn names_unique(v: Seq<TagInfo>) -> bool {
    forall|i: int, j: int| 0 <= i < j < v.len() ==> (#[trigger] v[i]).name@ != (#[trigger] v[j]).name@
}

/// The key of a repository in the cache.
pub open spec fn repo_key(owner: Seq<char>, repository: Seq<char>) -> Seq<char> {
    owner + "/"@ + repository
}

/// The entries that are still fresh at `now`, in their order.
pub open spec fn fresh_entries<T>(v: Seq<(String, CacheEntry<T>)>, now: int, ttl: int) -> Seq<(String, CacheEntry<T>)> {
    v.filter(|e: (String, CacheEntry<T>)| !stale_at(e.1.fetched_at as int, now, ttl))
}

impl DiskCache {
    /// Each repository key occurs once per list, and within each entry each branch or tag
    /// name occurs once.
    pub open spec fn well_formed(&self) -> bool {
        &&& keys_unique(self.branches@)
        &&& keys_unique(self.tags@)
        &&& forall|k: Seq<char>| #[trigger] entry_for(self.branches@, k) matches Some(e) ==> keys_unique(e.data@)
        &&& forall|k: Seq<char>| #[trigger] entry_for(self.tags@, k) matches Some(e) ==> names_unique(e.data.tags@)
    }

    /// An empty cache.
    pub fn empty() -> (r: Self)
        ensures
            r.well_formed(),
            r.branches@.len() == 0,
            r.tags@.len() == 0,
    {
        DiskCache { branches: Vec::new(), tags: Vec::new() }
    }
}

impl<T> CacheEntry<T> {
    /// Whether this entry is too old at `now` for a time to live of `ttl_nanos`.
    pub fn is_stale(&self, ttl_nanos: u128, now: i128) -> (r: bool)
        ensures
            r == stale_at(self.fetched_at as int, now as int, ttl_nanos as int),
    {
        let fetched = self.fetched_at;
        if now < fetched {
            return true;
        }
        if fetched >= 0 || now < 0 {
            let age: i128 = now - fetched;
            (age as u128) > ttl_nanos
        } else {
            let back: u128 = ((-(fetched + 1)) as u128) + 1;
            let age: u128 = (now as u128) + back;
            age > ttl_nanos
        }
    }
}

// ---------------------------------------------------------------------------------------------
// Lists of pairs
// ---------------------------------------------------------------------------------------------

/// The last position of `key` in the list.
pub(crate) fn find_key<V>(v: &Vec<(String, V)>, key: &str) -> (r: Option<usize>)
    ensures
        r is None ==> entry_for(v@, key@) is None,
        r matches Some(i) ==> (i < v@.len() && v@[i as int].0@ == key@ && entry_for(v@, key@)
            == Some(v@[i as int].1)),
{
    let mut j: usize = v.len();
    assert(v@.subrange(0, j as int) =~= v@);
    while j > 0
        invariant
            j <= v@.len(),
            entry_for(v@, key@) == entry_for(v@.subrange(0, j as int), key@),
        decreases j,
    {
        assert(v@.subrange(0, j as int).last() == v@[j - 1]);
        if str_eq(v[j - 1].0.as_str(), key) {
            return Some(j - 1);
        }
        assert(v@.subrange(0, j as int).drop_last() =~= v@.subrange(0, j - 1));
        j -= 1;
    }
    None
}

proof fn lemma_entry_for_unique<V>(v: Seq<(String, V)>, i: int)
    requires
        keys_unique(v),
        0 <= i < v.len(),
    ensures
        entry_for(v, v[i].0@) == Some(v[i].1),
    decreases v.len(),
{
    if i < v.len() - 1 {
        assert(v.drop_last()[i] == v[i]);
        lemma_entry_for_unique(v.drop_last(), i);
    }
}

proof fn lemma_entry_for_absent<V>(v: Seq<(String, V)>, key: Seq<char>)
    requires
        forall|j: int| 0 <= j < v.len() ==> (#[trigger] v[j]).0@ != key,
    ensures
        entry_for(v, key) is None,
    decreases v.len(),
{
    if v.len() > 0 {
        assert forall|j: int| 0 <= j < v.len() - 1 implies (#[trigger] v.drop_last()[j]).0@
            != key by {
            assert(v.drop_last()[j] == v[j]);
        }
        lemma_entry_for_absent(v.drop_last(), key);
    }
}

proof fn lemma_entry_for_update<V>(v: Seq<(String, V)>, i: int, x: (String, V), key: Seq<char>)
    requires
        keys_unique(v),
        0 <= i < v.len(),
        x.0@ == v[i].0@,
    ensures
        keys_unique(v.update(i, x)),
        entry_for(v.update(i, x), key) == if key == x.0@ {
            Some(x.1)
        } else {
            entry_for(v, key)
        },
    decreases v.len(),
{
    let u = v.update(i, x);
    assert forall|a: int, b: int| 0 <= a < b < u.len() implies (#[trigger] u[a]).0@ != (
    #[trigger] u[b]).0@ by {
        assert(v[a].0@ != v[b].0@);
    }
    if i == v.len() - 1 {
        assert(u.drop_last() =~= v.drop_last());
    } else {
        assert(u.drop_last() =~= v.drop_last().update(i, x));
        assert(keys_unique(v.drop_last())) by {
            assert forall|a: int, b: int| 0 <= a < b < v.drop_last().len() implies (
            #[trigger] v.drop_last()[a]).0@ != (#[trigger] v.drop_last()[b]).0@ by {
                assert(v[a].0@ != v[b].0@);
            }
        }
        lemma_entry_for_update(v.drop_last(), i, x, key);
        assert(u.last() == v.last());
        assert(v.last().0@ != v[i].0@);
    }
}

proof fn lemma_entry_for_push<V>(v: Seq<(String, V)>, x: (String, V), key: Seq<char>)
    requires
        keys_unique(v),
        forall|j: int| 0 <= j < v.len() ==> (#[trigger] v[j]).0@ != x.0@,
    ensures
        keys_unique(v.push(x)),
        entry_for(v.push(x), key) == if key == x.0@ {
            Some(x.1)
        } else {
            entry_for(v, key)
        },
{
    let u = v.push(x);
    assert(u.drop_last() =~= v);
    assert forall|a: int, b: int| 0 <= a < b < u.len() implies (#[trigger] u[a]).0@ != (
    #[trigger] u[b]).0@ by {
        if b < v.len() {
            assert(v[a].0@ != v[b].0@);
        } else {
            assert(u[a] == v[a]);
        }
    }
}

/// Records `value` under `key`, replacing what was recorded under it.
pub(crate) fn put<V>(v: &mut Vec<(String, V)>, key: &str, value: V)
    requires
        keys_unique(old(v)@),
    ensures
        keys_unique(final(v)@),
        forall|k: Seq<char>| #[trigger] entry_for(final(v)@, k) == if k == key@ {
            Some(value)
        } else {
            entry_for(old(v)@, k)
        },
{
    match find_key(v, key) {
        Some(i) => {
            let ghost before = v@;
            v.set(i, (owned(key), value));
            proof {
                assert forall|k: Seq<char>| #[trigger] entry_for(v@, k) == if k == key@ {
                    Some(value)
                } else {
                    entry_for(before, k)
                } by {
                    lemma_entry_for_update(before, i as int, v@[i as int], k);
                    assert(v@ =~= before.update(i as int, v@[i as int]));
                }
            }
        },
        None => {
            let ghost before = v@;
            v.push((owned(key), value));
            proof {
                assert forall|j: int| 0 <= j < before.len() implies (#[trigger] before[j]).0@
                    != key@ by {
                    if before[j].0@ == key@ {
                        lemma_entry_for_unique(before, j);
                    }
                }
                assert forall|k: Seq<char>| #[trigger] entry_for(v@, k) == if k == key@ {
                    Some(value)
                } else {
                    entry_for(before, k)
                } by {
                    lemma_entry_for_push(before, v@.last(), k);
                    assert(v@ =~= before.push(v@.last()));
                }
                lemma_entry_for_push(before, v@.last(), key@);
            }
        },
    }
}

/// A copy of a list of string pairs.
fn copy_pairs(v: &Vec<(String, String)>) -> (r: Vec<(String, String)>)
    ensures
        pairs_view(r@) == pairs_view(v@),
{
    let mut out: Vec<(String, String)> = Vec::new();
    let mut i: usize = 0;
    while i < v.len()
        invariant
            i <= v@.len(),
            pairs_view(out@) == pairs_view(v@.subrange(0, i as int)),
        decreases v@.len() - i,
    {
        out.push((owned(v[i].0.as_str()), owned(v[i].1.as_str())));
        assert(pairs_view(v@.subrange(0, i + 1)) =~= pairs_view(v@.subrange(0, i as int)).push(
            (v@[i as int].0@, v@[i as int].1@),
        ));
        assert(pairs_view(out@) =~= pairs_view(v@.subrange(0, i as int)).push(
            (v@[i as int].0@, v@[i as int].1@),
        ));
        i += 1;
    }
    assert(v@.subrange(0, v@.len() as int) =~= v@);
    out
}

/// A copy of a list of strings.
pub(crate) fn copy_strings(v: &Vec<String>) -> (r: Vec<String>)
    ensures
        strings_view(r@) == strings_view(v@),
{
    let mut out: Vec<String> = Vec::new();
    let mut i: usize = 0;
    while i < v.len()
        invariant
            i <= v@.len(),
            strings_view(out@) == strings_view(v@.subrange(0, i as int)),
        decreases v@.len() - i,
    {
        out.push(owned(v[i].as_str()));
        assert(strings_view(v@.subrange(0, i + 1)) =~= strings_view(v@.subrange(0, i as int)).push(
            v@[i as int]@,
        ));
        assert(strings_view(out@) =~= strings_view(v@.subrange(0, i as int)).push(v@[i as int]@));
        i += 1;
    }
    assert(v@.subrange(0, v@.len() as int) =~= v@);
    out
}

/// A copy of a list of tags.
fn copy_tags(v: &Vec<TagInfo>) -> (r: Vec<TagInfo>)
    ensures
        tags_view(r@) == tags_view(v@),
{
    let mut out: Vec<TagInfo> = Vec::new();
    let mut i: usize = 0;
    while i < v.len()
        invariant
            i <= v@.len(),
            tags_view(out@) == tags_view(v@.subrange(0, i as int)),
        decreases v@.len() - i,
    {
        out.push(v[i].duplicate());
        assert(tags_view(v@.subrange(0, i + 1)) =~= tags_view(v@.subrange(0, i as int)).push(
            tag_view(v@[i as int]),
        ));
        assert(tags_view(out@) =~= tags_view(v@.subrange(0, i as int)).push(tag_view(v@[i as int])));
        i += 1;
    }
    assert(v@.subrange(0, v@.len() as int) =~= v@);
    out
}

/// What a lookup finds: nothing while the cache is being refreshed, and otherwise the entry
/// under `key` if it is still fresh at `now`.
pub open spec fn fresh_entry<T>(v: Seq<(String, CacheEntry<T>)>, key: Seq<char>, now: int, ttl: int, update: bool) -> Option<CacheEntry<T>> {
    if update {
        None
    } else {
        match entry_for(v, key) {
            Some(e) => if stale_at(e.fetched_at as int, now, ttl) {
                None
            } else {
                Some(e)
            },
            None => None,
        }
    }
}

/// The pairs whose key is not `key`.
pub open spec fn without_key(v: Seq<(Seq<char>, Seq<char>)>, key: Seq<char>) -> Seq<(Seq<char>, Seq<char>)>
    decreases v.len(),
{
    if v.len() == 0 {
        v
    } else if v.last().0 == key {
        without_key(v.drop_last(), key)
    } else {
        without_key(v.drop_last(), key).push(v.last())
    }
}

/// The tags whose name is not `name`.
pub open spec fn without_tag(v: Seq<TagView>, name: Seq<char>) -> Seq<TagView>
    decreases v.len(),
{
    if v.len() == 0 {
        v
    } else if v.last().0 == name {
        without_tag(v.drop_last(), name)
    } else {
        without_tag(v.drop_last(), name).push(v.last())
    }
}

impl Cache {
    /// The repositories' branch entries.
    pub closed spec fn branch_entries(&self) -> Seq<(String, CacheEntry<BranchData>)> {
        self.data.branches@
    }

    /// The repositories' tag entries.
    pub closed spec fn tag_entries(&self) -> Seq<(String, CacheEntry<TagData>)> {
        self.data.tags@
    }

    /// How long an entry stays fresh, in nanoseconds.
    pub closed spec fn ttl(&self) -> int {
        self.ttl_nanos as int
    }

    /// Whether this run refreshes the cache, so that nothing is read from it.
    pub closed spec fn updating(&self) -> bool {
        self.update
    }

    /// Where the cache is saved.
    pub closed spec fn location(&self) -> Seq<char> {
        self.path@
    }

    /// The cache's lists are well formed.
    pub closed spec fn well_formed(&self) -> bool {
        self.data.well_formed()
    }

    /// An empty cache that will be saved to `path`.
    pub fn new(path: String, ttl_nanos: u128, update: bool) -> (r: Self)
        ensures
            r.well_formed(),
            r.branch_entries().len() == 0,
            r.tag_entries().len() == 0,
            r.ttl() == ttl_nanos,
            r.updating() == update,
            r.location() == path@,
    {
        Cache { data: DiskCache::empty(), path, ttl_nanos, update }
    }

    /// A cache holding `data`, as read from `path`.
    pub fn from(path: String, ttl_nanos: u128, update: bool, data: DiskCache) -> (r: Self)
        requires
            data.well_formed(),
        ensures
            r.well_formed(),
            r.branch_entries() == data.branches@,
            r.tag_entries() == data.tags@,
            r.ttl() == ttl_nanos,
            r.updating() == update,
            r.location() == path@,
    {
        Cache { data, path, ttl_nanos, update }
    }

    /// Where the cache is saved.
    pub fn path(&self) -> (r: &str)
        ensures
            r@ == self.location(),
    {
        self.path.as_str()
    }

    /// The branches cached for `key`, unless the cache is being refreshed or they are stale.
    pub fn get_branches(&self, key: &str, now: i128) -> (r: Option<BranchData>)
        ensures
            fresh_entry(self.branch_entries(), key@, now as int, self.ttl(), self.updating()) is None
                ==> r is None,
            fresh_entry(self.branch_entries(), key@, now as int, self.ttl(), self.updating()) matches Some(
                e,
            ) ==> (r matches Some(d) && pairs_view(d@) == pairs_view(e.data@)),
    {
        if self.update {
            return None;
        }
        match find_key(&self.data.branches, key) {
            Some(i) => {
                let entry = &self.data.branches[i].1;
                if entry.is_stale(self.ttl_nanos, now) {
                    None
                } else {
                    Some(copy_pairs(&entry.data))
                }
            },
            None => None,
        }
    }

    /// The tags and parent URLs cached for `key`, unless the cache is being refreshed or they
    /// are stale.
    pub fn get_tags(&self, key: &str, now: i128) -> (r: Option<(Vec<TagInfo>, Vec<String>)>)
        ensures
            fresh_entry(self.tag_entries(), key@, now as int, self.ttl(), self.updating()) is None
                ==> r is None,
            fresh_entry(self.tag_entries(), key@, now as int, self.ttl(), self.updating()) matches Some(
                e,
            ) ==> (r matches Some(d) && tags_view(d.0@) == tags_view(e.data.tags@) && strings_view(
                d.1@,
            ) == strings_view(e.data.parent_urls@)),
    {
        if self.update {
            return None;
        }
        match find_key(&self.data.tags, key) {
            Some(i) => {
                let entry = &self.data.tags[i].1;
                if entry.is_stale(self.ttl_nanos, now) {
                    None
                } else {
                    Some((copy_tags(&entry.data.tags), copy_strings(&entry.data.parent_urls)))
                }
            },
            None => None,
        }
    }

    /// Records the branches of `key`, fetched at `now`.
    pub fn set_branches(&mut self, key: &str, data: BranchData, now: i128) -> (r: Result<(), CacheError>)
        requires
            old(self).well_formed(),
            keys_unique(data@),
        ensures
            r is Ok,
            final(self).well_formed(),
            forall|k: Seq<char>| #[trigger] entry_for(final(self).branch_entries(), k) == if k == key@ {
                Some(CacheEntry { data: data, fetched_at: now })
            } else {
                entry_for(old(self).branch_entries(), k)
            },
            final(self).tag_entries() == old(self).tag_entries(),
            final(self).ttl() == old(self).ttl(),
            final(self).updating() == old(self).updating(),
            final(self).location() == old(self).location(),
    {
        let entry = CacheEntry { data, fetched_at: now };
        let ghost before = self.data.branches@;
        put(&mut self.data.branches, key, entry);
        assert forall|k: Seq<char>| #[trigger] entry_for(self.data.branches@, k) is Some implies keys_unique(
            entry_for(self.data.branches@, k)->0.data@,
        ) by {
            if k != key@ {
                assert(entry_for(before, k) == entry_for(self.data.branches@, k));
            }
        }
        Ok(())
    }

    /// Records the tags and parent URLs of `key`, fetched at `now`.
    pub fn set_tags(&mut self, key: &str, data: (Vec<TagInfo>, Vec<String>), now: i128) -> (r: Result<(), CacheError>)
        requires
            old(self).well_formed(),
            names_unique(data.0@),
        ensures
            r is Ok,
            final(self).well_formed(),
            forall|k: Seq<char>| #[trigger] entry_for(final(self).tag_entries(), k) == if k == key@ {
                Some(CacheEntry { data: TagData { tags: data.0, parent_urls: data.1 }, fetched_at: now })
            } else {
                entry_for(old(self).tag_entries(), k)
            },
            final(self).branch_entries() == old(self).branch_entries(),
            final(self).ttl() == old(self).ttl(),
            final(self).updating() == old(self).updating(),
            final(self).location() == old(self).location(),
    {
        let (tags, parent_urls) = data;
        let entry = CacheEntry { data: TagData { tags, parent_urls }, fetched_at: now };
        let ghost before = self.data.tags@;
        put(&mut self.data.tags, key, entry);
        assert forall|k: Seq<char>| #[trigger] entry_for(self.data.tags@, k) is Some implies names_unique(
            entry_for(self.data.tags@, k)->0.data.tags@,
        ) by {
            if k != key@ {
                assert(entry_for(before, k) == entry_for(self.data.tags@, k));
            }
        }
        Ok(())
    }

    /// Forgets `branch` among the cached branches of `owner/repository`, if they are cached.
    pub fn remove_branch(&mut self, owner: &str, repository: &str, branch: &str) -> (r: Result<(), CacheError>)
        requires
            old(self).well_formed(),
        ensures
            r is Ok,
            final(self).well_formed(),
            forall|k: Seq<char>| k != repo_key(owner@, repository@) ==> #[trigger] entry_for(final(self).branch_entries(), k)
                == entry_for(old(self).branch_entries(), k),
            entry_for(old(self).branch_entries(), repo_key(owner@, repository@)) is None ==> entry_for(
                final(self).branch_entries(),
                repo_key(owner@, repository@),
            ) is None,
            entry_for(old(self).branch_entries(), repo_key(owner@, repository@)) matches Some(e) ==> (
            entry_for(final(self).branch_entries(), repo_key(owner@, repository@)) matches Some(n)
                && n.fetched_at == e.fetched_at && pairs_view(n.data@) == without_key(
                pairs_view(e.data@),
                branch@,
            )),
            final(self).tag_entries() == old(self).tag_entries(),
            final(self).ttl() == old(self).ttl(),
            final(self).updating() == old(self).updating(),
            final(self).location() == old(self).location(),
    {
        proof {
            reveal_strlit("/");
        }
        let key = cat3(owner, "/", repository);
        if let Some(i) = find_key(&self.data.branches, key.as_str()) {
            let entry = &self.data.branches[i].1;
            let fetched_at = entry.fetched_at;
            let ghost old_data = entry.data@;
            let mut kept: Vec<(String, String)> = Vec::new();
            let n = entry.data.len();
            let mut j: usize = 0;
            while j < n
                invariant
                    n == old_data.len(),
                    j <= n,
                    old_data == entry.data@,
                    keys_unique(old_data),
                    pairs_view(kept@) == without_key(pairs_view(old_data.subrange(0, j as int)), branch@),
                    forall|a: int| 0 <= a < kept@.len() ==> exists|b: int| 0 <= b < j && (#[trigger] kept@[a]).0@ == old_data[b].0@,
                    keys_unique(kept@),
                decreases n - j,
            {
                let (name, date) = &entry.data[j];
                let ghost prefix = old_data.subrange(0, j + 1);
                assert(prefix.drop_last() =~= old_data.subrange(0, j as int));
                assert(pairs_view(prefix) =~= pairs_view(old_data.subrange(0, j as int)).push(
                    (name@, date@),
                ));
                if !str_eq(name.as_str(), branch) {
                    let ghost before = kept@;
                    kept.push((owned(name.as_str()), owned(date.as_str())));
                    assert(pairs_view(kept@) =~= pairs_view(before).push((name@, date@)));
                    assert forall|a: int, b: int| 0 <= a < b < kept@.len() implies (
                    #[trigger] kept@[a]).0@ != (#[trigger] kept@[b]).0@ by {
                        if b == kept@.len() - 1 {
                            let w = choose|w: int| 0 <= w < j && kept@[a].0@ == old_data[w].0@;
                            assert(old_data[w].0@ != old_data[j as int].0@);
                        } else {
                            assert(before[a] == kept@[a] && before[b] == kept@[b]);
                        }
                    }
                    assert forall|a: int| 0 <= a < kept@.len() implies exists|b: int| 0 <= b < j + 1 && (#[trigger] kept@[a]).0@ == old_data[b].0@ by {
                        if a == kept@.len() - 1 {
                            assert(kept@[a].0@ == old_data[j as int].0@);
                        } else {
                            assert(before[a] == kept@[a]);
                        }
                    }
                }
                assert(pairs_view(prefix).drop_last() =~= pairs_view(old_data.subrange(0, j as int)));
                j += 1;
            }
            assert(old_data.subrange(0, n as int) =~= old_data);
            let ghost before = self.data.branches@;
            proof {
                lemma_entry_for_unique(before, i as int);
            }
            put(&mut self.data.branches, key.as_str(), CacheEntry { data: kept, fetched_at });
            assert forall|k: Seq<char>| #[trigger] entry_for(self.data.branches@, k) is Some implies keys_unique(
            entry_for(self.data.branches@, k)->0.data@,
        ) by {
                if k != key@ {
                    assert(entry_for(before, k) == entry_for(self.data.branches@, k));
                }
            }
        }
        Ok(())
    }
}

/// All there is to a cached branch entry.
pub open spec fn branch_entry_view(e: (String, CacheEntry<BranchData>)) -> (Seq<char>, i128, Seq<(Seq<char>, Seq<char>)>) {
    (e.0@, e.1.fetched_at, pairs_view(e.1.data@))
}

/// All there is to a cached tag entry.
pub open spec fn tag_entry_view(e: (String, CacheEntry<TagData>)) -> (Seq<char>, i128, Seq<TagView>, Seq<Seq<char>>) {
    (e.0@, e.1.fetched_at, tags_view(e.1.data.tags@), strings_view(e.1.data.parent_urls@))
}

/// The branch entries still fresh at `now`, in their order.
pub open spec fn fresh_branch_views(v: Seq<(String, CacheEntry<BranchData>)>, now: int, ttl: int) -> Seq<(Seq<char>, i128, Seq<(Seq<char>, Seq<char>)>)>
    decreases v.len(),
{
    if v.len() == 0 {
        seq![]
    } else if stale_at(v.last().1.fetched_at as int, now, ttl) {
        fresh_branch_views(v.drop_last(), now, ttl)
    } else {
        fresh_branch_views(v.drop_last(), now, ttl).push(branch_entry_view(v.last()))
    }
}

/// The tag entries still fresh at `now`, in their order.
pub open spec fn fresh_tag_views(v: Seq<(String, CacheEntry<TagData>)>, now: int, ttl: int) -> Seq<(Seq<char>, i128, Seq<TagView>, Seq<Seq<char>>)>
    decreases v.len(),
{
    if v.len() == 0 {
        seq![]
    } else if stale_at(v.last().1.fetched_at as int, now, ttl) {
        fresh_tag_views(v.drop_last(), now, ttl)
    } else {
        fresh_tag_views(v.drop_last(), now, ttl).push(tag_entry_view(v.last()))
    }
}

impl Cache {
    /// Forgets the tag named `tag` among the cached tags of `owner/repository`, if they are
    /// cached; the other tags keep their order.
    pub fn remove_tag(&mut self, owner: &str, repository: &str, tag: &str) -> (r: Result<(), CacheError>)
        requires
            old(self).well_formed(),
        ensures
            r is Ok,
            final(self).well_formed(),
            forall|k: Seq<char>| k != repo_key(owner@, repository@) ==> #[trigger] entry_for(final(self).tag_entries(), k)
                == entry_for(old(self).tag_entries(), k),
            entry_for(old(self).tag_entries(), repo_key(owner@, repository@)) is None ==> entry_for(
                final(self).tag_entries(),
                repo_key(owner@, repository@),
            ) is None,
            entry_for(old(self).tag_entries(), repo_key(owner@, repository@)) matches Some(e) ==> (
            entry_for(final(self).tag_entries(), repo_key(owner@, repository@)) matches Some(n)
                && n.fetched_at == e.fetched_at && tags_view(n.data.tags@) == without_tag(
                tags_view(e.data.tags@),
                tag@,
            ) && strings_view(n.data.parent_urls@) == strings_view(e.data.parent_urls@)),
            final(self).branch_entries() == old(self).branch_entries(),
            final(self).ttl() == old(self).ttl(),
            final(self).updating() == old(self).updating(),
            final(self).location() == old(self).location(),
    {
        proof {
            reveal_strlit("/");
        }
        let key = cat3(owner, "/", repository);
        if let Some(i) = find_key(&self.data.tags, key.as_str()) {
            let entry = &self.data.tags[i].1;
            let fetched_at = entry.fetched_at;
            let ghost old_tags = entry.data.tags@;
            let mut kept: Vec<TagInfo> = Vec::new();
            let n = entry.data.tags.len();
            let mut j: usize = 0;
            while j < n
                invariant
                    n == old_tags.len(),
                    j <= n,
                    old_tags == entry.data.tags@,
                    names_unique(old_tags),
                    tags_view(kept@) == without_tag(tags_view(old_tags.subrange(0, j as int)), tag@),
                    forall|a: int| 0 <= a < kept@.len() ==> exists|b: int| 0 <= b < j && (#[trigger] kept@[a]).name@ == old_tags[b].name@,
                    names_unique(kept@),
                decreases n - j,
            {
                let t = &entry.data.tags[j];
                let ghost prefix = old_tags.subrange(0, j + 1);
                assert(prefix.drop_last() =~= old_tags.subrange(0, j as int));
                assert(tags_view(prefix) =~= tags_view(old_tags.subrange(0, j as int)).push(tag_view(*t)));
                assert(tags_view(prefix).drop_last() =~= tags_view(old_tags.subrange(0, j as int)));
                if !str_eq(t.name.as_str(), tag) {
                    let ghost before = kept@;
                    kept.push(t.duplicate());
                    assert(tags_view(kept@) =~= tags_view(before).push(tag_view(*t)));
                    assert forall|a: int, b: int| 0 <= a < b < kept@.len() implies (
                    #[trigger] kept@[a]).name@ != (#[trigger] kept@[b]).name@ by {
                        if b == kept@.len() - 1 {
                            let w = choose|w: int| 0 <= w < j && kept@[a].name@ == old_tags[w].name@;
                            assert(old_tags[w].name@ != old_tags[j as int].name@);
                        } else {
                            assert(before[a] == kept@[a] && before[b] == kept@[b]);
                        }
                    }
                    assert forall|a: int| 0 <= a < kept@.len() implies exists|b: int| 0 <= b < j + 1 && (#[trigger] kept@[a]).name@ == old_tags[b].name@ by {
                        if a == kept@.len() - 1 {
                            assert(kept@[a].name@ == old_tags[j as int].name@);
                        } else {
                            assert(before[a] == kept@[a]);
                        }
                    }
                }
                j += 1;
            }
            assert(old_tags.subrange(0, n as int) =~= old_tags);
            let parent_urls = copy_strings(&entry.data.parent_urls);
            let ghost before = self.data.tags@;
            proof {
                lemma_entry_for_unique(before, i as int);
            }
            put(&mut self.data.tags, key.as_str(), CacheEntry { data: TagData { tags: kept, parent_urls }, fetched_at });
            assert forall|k: Seq<char>| #[trigger] entry_for(self.data.tags@, k) is Some implies names_unique(
                entry_for(self.data.tags@, k)->0.data.tags@,
            ) by {
                if k != key@ {
                    assert(entry_for(before, k) == entry_for(self.data.tags@, k));
                }
            }
        }
        Ok(())
    }

    /// What is saved to disk at `now`: the entries that are still fresh, in their order.
    pub fn pruned(&self, now: i128) -> (r: DiskCache)
        ensures
            r.branches@.map_values(|e: (String, CacheEntry<BranchData>)| branch_entry_view(e))
                == fresh_branch_views(self.branch_entries(), now as int, self.ttl()),
            r.tags@.map_values(|e: (String, CacheEntry<TagData>)| tag_entry_view(e))
                == fresh_tag_views(self.tag_entries(), now as int, self.ttl()),
    {
        let mut branches: Vec<(String, CacheEntry<BranchData>)> = Vec::new();
        let n = self.data.branches.len();
        let mut i: usize = 0;
        while i < n
            invariant
                n == self.data.branches@.len(),
                i <= n,
                branches@.map_values(|e: (String, CacheEntry<BranchData>)| branch_entry_view(e))
                    == fresh_branch_views(self.data.branches@.subrange(0, i as int), now as int, self.ttl_nanos as int),
            decreases n - i,
        {
            let (key, entry) = &self.data.branches[i];
            let ghost prefix = self.data.branches@.subrange(0, i + 1);
            assert(prefix.drop_last() =~= self.data.branches@.subrange(0, i as int));
            if !entry.is_stale(self.ttl_nanos, now) {
                let ghost before = branches@;
                branches.push((owned(key.as_str()), CacheEntry { data: copy_pairs(&entry.data), fetched_at: entry.fetched_at }));
                assert(branches@.map_values(|e: (String, CacheEntry<BranchData>)| branch_entry_view(e)) =~= before.map_values(|e: (String, CacheEntry<BranchData>)| branch_entry_view(e)).push(branch_entry_view(self.data.branches@[i as int])));
            }
            i += 1;
        }
        assert(self.data.branches@.subrange(0, n as int) =~= self.data.branches@);
        let mut tags: Vec<(String, CacheEntry<TagData>)> = Vec::new();
        let n = self.data.tags.len();
        let mut i: usize = 0;
        while i < n
            invariant
                n == self.data.tags@.len(),
                i <= n,
                tags@.map_values(|e: (String, CacheEntry<TagData>)| tag_entry_view(e))
                    == fresh_tag_views(self.data.tags@.subrange(0, i as int), now as int, self.ttl_nanos as int),
            decreases n - i,
        {
            let (key, entry) = &self.data.tags[i];
            let ghost prefix = self.data.tags@.subrange(0, i + 1);
            assert(prefix.drop_last() =~= self.data.tags@.subrange(0, i as int));
            if !entry.is_stale(self.ttl_nanos, now) {
                let ghost before = tags@;
                tags.push((owned(key.as_str()), CacheEntry { data: TagData { tags: copy_tags(&entry.data.tags), parent_urls: copy_strings(&entry.data.parent_urls) }, fetched_at: entry.fetched_at }));
                assert(tags@.map_values(|e: (String, CacheEntry<TagData>)| tag_entry_view(e)) =~= before.map_values(|e: (String, CacheEntry<TagData>)| tag_entry_view(e)).push(tag_entry_view(self.data.tags@[i as int])));
            }
            i += 1;
        }
        assert(self.data.tags@.subrange(0, n as int) =~= self.data.tags@);
        DiskCache { branches, tags }
    }
}

// ---------------------------------------------------------------------------------------------
// Laws
// ---------------------------------------------------------------------------------------------

/// What is read back after a write: the written value under its key while it is fresh and the
/// cache is not being refreshed, and nothing new under the other keys.
pub proof fn lemma_read_after_write<T>(
    before: Seq<(String, CacheEntry<T>)>,
    after: Seq<(String, CacheEntry<T>)>,
    key: Seq<char>,
    written: CacheEntry<T>,
    now: int,
    ttl: int,
    update: bool,
)
    requires
        forall|k: Seq<char>| #[trigger] entry_for(after, k) == if k == key {
            Some(written)
        } else {
            entry_for(before, k)
        },
    ensures
        fresh_entry(after, key, now, ttl, update) == if update || stale_at(
            written.fetched_at as int,
            now,
            ttl,
        ) {
            None::<CacheEntry<T>>
        } else {
            Some(written)
        },
        forall|k: Seq<char>| k != key ==> #[trigger] fresh_entry(after, k, now, ttl, update)
            == fresh_entry(before, k, now, ttl, update),
{
    assert(entry_for(after, key) == Some(written));
    assert forall|k: Seq<char>| k != key implies #[trigger] fresh_entry(after, k, now, ttl, update)
        == fresh_entry(before, k, now, ttl, update) by {
        assert(entry_for(after, k) == entry_for(before, k));
    }
}

/// Removing a tag by name leaves no tag of that name, and removing a name that no tag has
/// changes nothing.
pub proof fn lemma_remove_tag(v: Seq<TagView>, name: Seq<char>)
    ensures
        forall|i: int| 0 <= i < without_tag(v, name).len() ==> (#[trigger] without_tag(v, name)[i]).0 != name,
        (forall|i: int| 0 <= i < v.len() ==> (#[trigger] v[i]).0 != name) ==> without_tag(v, name) == v,
    decreases v.len(),
{
    if v.len() > 0 {
        lemma_remove_tag(v.drop_last(), name);
        let rest = without_tag(v.drop_last(), name);
        if v.last().0 != name {
            assert forall|i: int| 0 <= i < rest.push(v.last()).len() implies (#[trigger] rest.push(v.last())[i]).0 != name by {
                if i < rest.len() {
                    assert(rest.push(v.last())[i] == rest[i]);
                }
            }
        }
        if forall|i: int| 0 <= i < v.len() ==> (#[trigger] v[i]).0 != name {
            assert forall|i: int| 0 <= i < v.drop_last().len() implies (#[trigger] v.drop_last()[i]).0 != name by {
                assert(v.drop_last()[i] == v[i]);
            }
            assert(v.drop_last().push(v.last()) =~= v);
        }
    }
}

/// Removing a branch by name leaves no branch of that name, and removing a name that no branch
/// has changes nothing.
pub proof fn lemma_remove_branch(v: Seq<(Seq<char>, Seq<char>)>, name: Seq<char>)
    ensures
        forall|i: int| 0 <= i < without_key(v, name).len() ==> (#[trigger] without_key(v, name)[i]).0 != name,
        (forall|i: int| 0 <= i < v.len() ==> (#[trigger] v[i]).0 != name) ==> without_key(v, name) == v,
    decreases v.len(),
{
    if v.len() > 0 {
        lemma_remove_branch(v.drop_last(), name);
        let rest = without_key(v.drop_last(), name);
        if v.last().0 != name {
            assert forall|i: int| 0 <= i < rest.push(v.last()).len() implies (#[trigger] rest.push(v.last())[i]).0 != name by {
                if i < rest.len() {
                    assert(rest.push(v.last())[i] == rest[i]);
                }
            }
        }
        if forall|i: int| 0 <= i < v.len() ==> (#[trigger] v[i]).0 != name {
            assert forall|i: int| 0 <= i < v.drop_last().len() implies (#[trigger] v.drop_last()[i]).0 != name by {
                assert(v.drop_last()[i] == v[i]);
            }
            assert(v.drop_last().push(v.last()) =~= v);
        }
    }
}

/// Nothing that is saved is stale at the moment of saving.
pub proof fn lemma_saved_entries_are_fresh(v: Seq<(String, CacheEntry<BranchData>)>, now: int, ttl: int)
    ensures
        forall|i: int| 0 <= i < fresh_branch_views(v, now, ttl).len() ==> !stale_at(
            (#[trigger] fresh_branch_views(v, now, ttl)[i]).1 as int,
            now,
            ttl,
        ),
    decreases v.len(),
{
    if v.len() > 0 {
        lemma_saved_entries_are_fresh(v.drop_last(), now, ttl);
        let rest = fresh_branch_views(v.drop_last(), now, ttl);
        if !stale_at(v.last().1.fetched_at as int, now, ttl) {
            assert forall|i: int| 0 <= i < rest.push(branch_entry_view(v.last())).len() implies !stale_at(
                (#[trigger] rest.push(branch_entry_view(v.last()))[i]).1 as int,
                now,
                ttl,
            ) by {
                if i < rest.len() {
                    assert(rest.push(branch_entry_view(v.last()))[i] == rest[i]);
                }
            }
        }
    }
}

} // verus!
