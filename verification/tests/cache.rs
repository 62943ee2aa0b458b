use git_sync::cache::store::{BranchData, Cache, CacheEntry, DiskCache, TagData};
use git_sync::utils::repo::{TagInfo, TagType};

const SECOND: i128 = 1_000_000_000;
/// An instant to run the tests at, in nanoseconds since the Unix epoch.
const NOW: i128 = 1_700_000_000 * SECOND;

fn make_cache(ttl_secs: u128) -> Cache {
    Cache::new("cache.json".to_string(), ttl_secs * 1_000_000_000, false)
}

fn sample_branches() -> BranchData {
    vec![
        ("main".to_string(), "2024-01-01T00:00:00Z".to_string()),
        ("dev".to_string(), "2024-02-01T00:00:00Z".to_string()),
    ]
}

fn sample_tag(name: &str) -> TagInfo {
    TagInfo {
        name: name.to_string(),
        tag_type: TagType::Lightweight,
        sha: "abc123".to_string(),
        url: String::new(),
        commit_sha: None,
    }
}

fn sample_tag_data() -> TagData {
    TagData { tags: vec![sample_tag("v1.0"), sample_tag("v2.0")], parent_urls: Vec::new() }
}

fn stale_entry<T>(data: T, age_secs: i128) -> CacheEntry<T> {
    CacheEntry { data, fetched_at: NOW - age_secs * SECOND }
}

#[test]
fn branch_entry_is_returned() {
    let mut cache = make_cache(3600);
    cache.set_branches("owner/repo", sample_branches(), NOW).unwrap();
    let result = cache.get_branches("owner/repo", NOW);
    assert!(result.is_some());
    let branches = result.unwrap();
    assert_eq!(branches.len(), 2);
    assert!(branches.iter().any(|(name, _)| name == "main"));
}

#[test]
fn stale_branch_entry_is_not_returned() {
    let mut data = DiskCache::empty();
    data.branches.push(("owner/repo".to_string(), stale_entry(sample_branches(), 7200)));
    let cache = Cache::from("cache.json".to_string(), 3600 * 1_000_000_000, false, data);
    let result = cache.get_branches("owner/repo", NOW);
    assert!(result.is_none(), "Stale entry should not be returned");
}

#[test]
fn missing_branch_key_returns_none() {
    let cache = make_cache(3600);
    assert!(cache.get_branches("owner/nonexistent", NOW).is_none());
}

#[test]
fn tag_entry_returned() {
    let mut cache = make_cache(3600);
    let data = sample_tag_data();
    cache.set_tags("owner/repo", (data.tags, data.parent_urls), NOW).unwrap();
    let result = cache.get_tags("owner/repo", NOW);
    assert!(result.is_some());
    let (tags, _) = result.unwrap();
    assert_eq!(tags.len(), 2);
}

#[test]
fn stale_tag_entry_not_returned() {
    let mut data = DiskCache::empty();
    data.tags.push(("owner/repo".to_string(), stale_entry(sample_tag_data(), 7200)));
    let cache = Cache::from("cache.json".to_string(), 3600 * 1_000_000_000, false, data);
    assert!(cache.get_tags("owner/repo", NOW).is_none(), "Stale entry should not be returned");
}

#[test]
fn remove_tag_removes_specific_tag() {
    let mut cache = make_cache(3600);
    let data = sample_tag_data();
    cache.set_tags("owner/repo", (data.tags, data.parent_urls), NOW).unwrap();

    cache.remove_tag("owner", "repo", "v1.0").unwrap();

    let (tags, _) = cache.get_tags("owner/repo", NOW).unwrap();
    assert!(!tags.iter().any(|t| t.name == "v1.0"), "'v1.0' should be removed");
    assert!(tags.iter().any(|t| t.name == "v2.0"), "'v2.0' should exist");
}

#[test]
fn remove_tag_noop_when_tag_not_in_cache() {
    let mut cache = make_cache(3600);
    let data = sample_tag_data();
    cache.set_tags("owner/repo", (data.tags, data.parent_urls), NOW).unwrap();

    let result = cache.remove_tag("owner", "repo", "v99.0");
    assert!(result.is_ok());

    let (tags, _) = cache.get_tags("owner/repo", NOW).unwrap();
    assert_eq!(tags.len(), 2, "Tag count should be unchanged");
}

#[test]
fn remove_tag_noop_when_repo_not_in_cache() {
    let mut cache = make_cache(3600);
    let result = cache.remove_tag("owner", "missing", "v1.0");
    assert!(result.is_ok());
}

#[test]
fn read_after_write_gives_the_written_branches() {
    let mut cache = make_cache(60);
    cache.set_branches("a/b", vec![("x".to_string(), "d1".to_string())], NOW).unwrap();
    cache.set_branches("a/b", vec![("y".to_string(), "d2".to_string())], NOW).unwrap();
    assert_eq!(cache.get_branches("a/b", NOW + 59 * SECOND).unwrap(), vec![("y".to_string(), "d2".to_string())]);
    assert!(cache.get_branches("a/b", NOW + 61 * SECOND).is_none());
    assert!(cache.get_branches("a/b", NOW - 1).is_none());
}

#[test]
fn update_mode_never_returns_cached_data() {
    let mut cache = Cache::new("c.json".to_string(), 3600 * 1_000_000_000, true);
    cache.set_branches("owner/repo", sample_branches(), NOW).unwrap();
    assert!(cache.get_branches("owner/repo", NOW).is_none());
    assert_eq!(cache.path(), "c.json");
}

#[test]
fn remove_branch_forgets_only_that_branch() {
    let mut cache = make_cache(3600);
    cache.set_branches("owner/repo", sample_branches(), NOW).unwrap();
    cache.remove_branch("owner", "repo", "main").unwrap();
    let branches = cache.get_branches("owner/repo", NOW).unwrap();
    assert_eq!(branches, vec![("dev".to_string(), "2024-02-01T00:00:00Z".to_string())]);
}

#[test]
fn pruned_cache_keeps_only_fresh_entries() {
    let mut data = DiskCache::empty();
    data.branches.push(("old/repo".to_string(), stale_entry(sample_branches(), 7200)));
    data.branches.push(("new/repo".to_string(), stale_entry(sample_branches(), 10)));
    data.tags.push(("old/repo".to_string(), stale_entry(sample_tag_data(), 7200)));
    let cache = Cache::from("cache.json".to_string(), 3600 * 1_000_000_000, false, data);
    let saved = cache.pruned(NOW);
    assert_eq!(saved.branches.len(), 1);
    assert_eq!(saved.branches[0].0, "new/repo");
    assert!(saved.tags.is_empty());
}

#[test]
fn staleness_is_measured_against_the_time_to_live() {
    let e = CacheEntry { data: (), fetched_at: NOW };
    assert!(!e.is_stale(10, NOW + 10));
    assert!(e.is_stale(10, NOW + 11));
    assert!(e.is_stale(10, NOW - 1));
    let early = CacheEntry { data: (), fetched_at: -5 };
    assert!(!early.is_stale(10, 5));
    assert!(early.is_stale(9, 5));
}
