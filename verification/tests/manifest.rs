use git_sync::error::GitError;
use git_sync::manifest::{
    manifest_source, normalize_github_url, trim_optional, validate_ref_name, ComponentManifest,
    ManifestRepository, ManifestSource,
};

fn entry(url: &str, branch: &str, sha: &str) -> ManifestRepository {
    ManifestRepository { url: url.to_string(), branch: branch.to_string(), sha: sha.to_string() }
}

/// An ODP manifest of several components, with the commits of `hadoop` and `hadoop-p1` given.
fn odp_manifest_with(hadoop_sha: &str, hadoop_p1_sha: &str) -> ComponentManifest {
    let mut m = ComponentManifest::new(
        Some("3.3.6.5-1009".to_string()),
        Some("3.3.6.5-1009".to_string()),
    );
    m.insert(
        "hadoop".to_string(),
        entry("git@github.com:acceldata-io/hadoop.git", "nightly/ODP-3.3.6.5", hadoop_sha),
    );
    m.insert(
        "hadoop-p1".to_string(),
        entry("git@github.com:acceldata-io/hadoop.git", " nightly/ODP-3.3.6.5 ", hadoop_p1_sha),
    );
    m.insert(
        "spark3_3_5_1".to_string(),
        entry(
            "https://github.com/acceldata-io/spark3.git",
            "nightly/ODP-3.5.1.3.3.6.5",
            "e646270c889c18d24f4801a7c8617bf5e84527d9",
        ),
    );
    m.insert(
        "accelbuild".to_string(),
        entry(
            "git@github.com:acceldata-io/accelbuild.git",
            "main",
            "85eb777852fdae23fafec9d096e28d3842dcc98f",
        ),
    );
    ComponentManifest::from_parsed(m).unwrap()
}

fn odp_manifest() -> ComponentManifest {
    odp_manifest_with(
        "68e511577e6e77e3f47427d05643d076bfe896ca",
        "68e511577e6e77e3f47427d05643d076bfe896ca ",
    )
}

fn ambari_manifest() -> ComponentManifest {
    let mut m = ComponentManifest::new(Some("3.0.0.2-1".to_string()), Some("3.0.0.2-1".to_string()));
    m.insert(
        "ambari-infra".to_string(),
        entry(
            "git@github.com:acceldata-io/odp-ambari-infra.git",
            "rel/ODP-AMBARI-3.0.0.2-1",
            "2f596b80bbf467fedbb608f37d48bb7ebd6719a9",
        ),
    );
    ComponentManifest::from_parsed(m).unwrap()
}

#[test]
fn parses_and_normalizes_odp_manifest() {
    let manifest = odp_manifest();
    assert_eq!(manifest.repos.len(), 4);
    assert_eq!(manifest.repository("hadoop-p1").unwrap().branch, "nightly/ODP-3.3.6.5");
    assert_eq!(
        normalize_github_url(&manifest.repository("hadoop").unwrap().url).unwrap(),
        "https://github.com/acceldata-io/hadoop"
    );
}

#[test]
fn normalizes_supported_github_url_styles() {
    for url in [
        "git@github.com:acceldata-io/hadoop.git",
        "ssh://git@github.com/acceldata-io/hadoop.git",
        "https://github.com/acceldata-io/hadoop.git",
        "acceldata-io/hadoop",
    ] {
        assert_eq!(normalize_github_url(url).unwrap(), "https://github.com/acceldata-io/hadoop");
    }
}

#[test]
fn derives_distinct_odp_branches_and_deduplicates_aliases() {
    let manifest = odp_manifest();
    let plan = manifest.branch_plan("3.3.6.5", "3.3.6.6-1", "rel").unwrap();
    assert_eq!(plan.len(), 2);
    assert_eq!(plan[0].target_ref, "rel/ODP-3.3.6.6-1");
    assert_eq!(plan[1].target_ref, "rel/ODP-3.5.1.3.3.6.6-1");
}

#[test]
fn derives_odp_tags() {
    let manifest = odp_manifest();
    let plan = manifest.tag_plan("3.3.6.5", "3.3.6.6-1").unwrap();
    assert_eq!(plan[0].target_ref, "ODP-3.3.6.6-1-tag");
    assert_eq!(plan[1].target_ref, "ODP-3.5.1.3.3.6.6-1-tag");
}

#[test]
fn derives_ambari_refs() {
    let manifest = ambari_manifest();
    let branch_plan = manifest.branch_plan("3.0.0.2-1", "3.0.0.2-2", "rel").unwrap();
    let tag_plan = manifest.tag_plan("3.0.0.2-1", "3.0.0.2-2").unwrap();
    assert_eq!(branch_plan[0].target_ref, "rel/ODP-AMBARI-3.0.0.2-2");
    assert_eq!(tag_plan[0].target_ref, "ODP-AMBARI-3.0.0.2-2-tag");
}

#[test]
fn skips_accelbuild_even_when_branch_does_not_match() {
    let manifest = odp_manifest();
    let plan = manifest.branch_plan("3.3.6.5", "3.3.6.6-1", "rel").unwrap();
    assert!(plan.iter().all(|operation| operation.component != "accelbuild"));
}

#[test]
fn rejects_unmatched_source_version() {
    let manifest = ambari_manifest();
    let error = manifest.branch_plan("3.3.6.5", "3.3.6.6-1", "rel").unwrap_err();
    assert!(error.message().contains("does not contain"));
}

#[test]
fn rejects_invalid_sha() {
    let manifest = odp_manifest_with("not-a-sha", "not-a-sha ");
    assert!(manifest.branch_plan("3.3.6.5", "3.3.6.6-1", "rel").is_err());
}

#[test]
fn rejects_target_collisions_with_different_shas() {
    let manifest = odp_manifest_with(
        "68e511577e6e77e3f47427d05643d076bfe896ca",
        "1111111111111111111111111111111111111111",
    );
    let error = manifest.branch_plan("3.3.6.5", "3.3.6.6-1", "rel").unwrap_err();
    assert!(error.message().contains("collision"));
}

#[test]
fn plan_entries_keep_component_repository_and_commit() {
    let manifest = odp_manifest();
    let plan = manifest.branch_plan("3.3.6.5", "3.3.6.6-1", "rel").unwrap();
    assert_eq!(plan[0].component, "hadoop");
    assert_eq!(plan[0].repository, "https://github.com/acceldata-io/hadoop");
    assert_eq!(plan[0].source_branch, "nightly/ODP-3.3.6.5");
    assert_eq!(plan[0].sha, "68e511577e6e77e3f47427d05643d076bfe896ca");
    assert_eq!(plan[1].component, "spark3_3_5_1");
    assert_eq!(plan[1].repository, "https://github.com/acceldata-io/spark3");
}

#[test]
fn normalize_is_idempotent_on_accepted_urls() {
    for url in ["git@github.com:a/b.git", "https://github.com/x-y/z_1.git", "o/r"] {
        let once = normalize_github_url(url).unwrap();
        assert_eq!(normalize_github_url(&once).unwrap(), once);
    }
}

#[test]
fn normalize_rejects_other_hosts_and_bad_parts() {
    for url in ["https://gitlab.com/a/b", "a/b/c", "a/", "/b", "a b/c", ""] {
        assert!(matches!(normalize_github_url(url), Err(GitError::InvalidRepository(_))));
    }
}

#[test]
fn empty_manifest_is_refused() {
    let m = ComponentManifest::new(None, None);
    let e = ComponentManifest::from_parsed(m).unwrap_err();
    assert_eq!(e.message(), "Component manifest contains no repositories");
}

#[test]
fn insert_replaces_entry_of_same_component() {
    let mut m = ComponentManifest::new(None, None);
    m.insert("b".to_string(), entry("o/b", "x", "1"));
    m.insert("a".to_string(), entry("o/a", "y", "2"));
    m.insert("b".to_string(), entry("o/b", "z", "3"));
    assert_eq!(m.repos.len(), 2);
    assert_eq!(m.repos[0].0, "a");
    assert_eq!(m.repository("b").unwrap().branch, "z");
    assert!(m.repository("c").is_none());
}

#[test]
fn trim_optional_trims_present_values() {
    assert_eq!(trim_optional(Some("  x ".to_string())), Some("x".to_string()));
    assert_eq!(trim_optional(Some("   ".to_string())), Some(String::new()));
    assert_eq!(trim_optional(None), None);
}

#[test]
fn manifest_source_tells_urls_from_paths() {
    assert!(matches!(manifest_source(" https://example.com/m.yaml "), Ok(ManifestSource::Url(u)) if u == "https://example.com/m.yaml"));
    assert!(matches!(manifest_source("./m.yaml"), Ok(ManifestSource::Path(p)) if p == "./m.yaml"));
    assert!(manifest_source("  ").is_err());
}

#[test]
fn ref_names_are_checked() {
    assert!(validate_ref_name("c", "rel/ODP-3.3.6.6-1").is_ok());
    assert!(validate_ref_name("c", "bad..name").is_err());
    assert!(validate_ref_name("c", "").is_err());
}

fn plan_fields(plan: &[git_sync::manifest::ManifestRefPlan]) -> Vec<(String, String, String, String, String)> {
    plan.iter()
        .map(|p| (p.component.clone(), p.repository.clone(), p.source_branch.clone(), p.target_ref.clone(), p.sha.clone()))
        .collect()
}

#[test]
fn dropping_build_tooling_leaves_plans_unchanged() {
    let with = odp_manifest();
    let mut without = ComponentManifest::new(with.build_artifact_path.clone(), with.release_version.clone());
    for (name, e) in &with.repos {
        if !name.eq_ignore_ascii_case("accelbuild") {
            without.insert(name.clone(), entry(&e.url, &e.branch, &e.sha));
        }
    }
    assert_eq!(without.repos.len(), 3);
    assert_eq!(
        plan_fields(&with.branch_plan("3.3.6.5", "3.3.6.6-1", "rel").unwrap()),
        plan_fields(&without.branch_plan("3.3.6.5", "3.3.6.6-1", "rel").unwrap())
    );
    assert_eq!(
        plan_fields(&with.tag_plan("3.3.6.5", "3.3.6.6-1").unwrap()),
        plan_fields(&without.tag_plan("3.3.6.5", "3.3.6.6-1").unwrap())
    );
    assert_eq!(
        with.branch_plan("9.9", "3.3.6.6-1", "rel").unwrap_err().to_user_error().message,
        without.branch_plan("9.9", "3.3.6.6-1", "rel").unwrap_err().to_user_error().message
    );
}

#[test]
fn branch_and_tag_plans_line_up() {
    let manifest = odp_manifest();
    let branches = plan_fields(&manifest.branch_plan("3.3.6.5", "3.3.6.6-1", " /rel/ ").unwrap());
    let tags = plan_fields(&manifest.tag_plan("3.3.6.5", "3.3.6.6-1").unwrap());
    assert_eq!(branches.len(), tags.len());
    for (b, t) in branches.iter().zip(tags.iter()) {
        assert_eq!((&b.0, &b.1, &b.2, &b.4), (&t.0, &t.1, &t.2, &t.4));
        assert_eq!(b.3, format!("rel/{}", t.3.strip_suffix("-tag").unwrap()));
    }
}
