use git_sync::error::GitError;
use git_sync::github::branch::{
    fix_debian_paths, fix_hadoop_jars, modification_steps, renamed_file_name, replace_odp_and_bn,
    EditStep, DEBIAN_DIRECTORY, HADOOP_DIRECTORY,
};
use git_sync::utils::file_utils::{replace_in_text, skip_file};

/// A checkout held in memory: each file's path, relative to the checkout, and its text.
type Checkout = Vec<(String, String)>;

fn under(path: &str, scope: &str) -> bool {
    scope.is_empty() || path.starts_with(&format!("{scope}/"))
}

fn file_name(path: &str) -> &str {
    path.rsplit('/').next().unwrap()
}

fn extension(path: &str) -> &str {
    let name = file_name(path);
    match name.rfind('.') {
        Some(i) if i > 0 => &name[i + 1..],
        _ => "",
    }
}

/// Carries the steps out on the checkout as the application does on disk.
fn apply(steps: &[EditStep], checkout: &mut Checkout) {
    for step in steps {
        match step {
            EditStep::Replace(edit) => {
                for (path, text) in checkout.iter_mut() {
                    if under(path, &edit.scope) && !skip_file(extension(path)) {
                        let (new_text, _) = replace_in_text(&edit.pattern, text, &edit.replacement).unwrap();
                        *text = new_text;
                    }
                }
            },
            EditStep::RenameFiles { scope, pattern, new_dashed } => {
                for (path, _) in checkout.iter_mut() {
                    if under(path, scope) {
                        if let Some(new_name) = renamed_file_name(pattern, file_name(path), new_dashed).unwrap() {
                            let dir = &path[..path.len() - file_name(path).len()];
                            *path = format!("{dir}{new_name}");
                        }
                    }
                }
            },
        }
    }
}

fn text_of<'a>(checkout: &'a Checkout, path: &str) -> Option<&'a str> {
    checkout.iter().find(|(p, _)| p == path).map(|(_, t)| t.as_str())
}

#[test]
fn replace_odp_and_bn_updates_version_and_build_number() {
    let input = r#"stack {
    'odp' {
        version = "3.3.6.3";
        odp_version = "3.3.6.3";
        odp_bn = "SNAPSHOT";
    }
    'ODP' {
        VERSION = "3.3.6.3";
        ODP_VERSION = "3.3.6.3";
        ODP_BN = "SNAPSHOT";
        ODP_VERSION_AS_NAME = ODP_VERSION.replaceAll("\\.", "-") + "-" + ODP_BN;
    }
}\n\n\n"#;
    let expected_output = r#"stack {
    'odp' {
        version = "3.3.6.4";
        odp_version = "3.3.6.4";
        odp_bn = "1";
    }
    'ODP' {
        VERSION = "3.3.6.4";
        ODP_VERSION = "3.3.6.4";
        ODP_BN = "1";
        ODP_VERSION_AS_NAME = ODP_VERSION.replaceAll("\\.", "-") + "-" + ODP_BN;
    }
}\n\n\n"#;
    let mut checkout: Checkout = vec![("test.txt".to_string(), input.to_string())];
    let steps = replace_odp_and_bn("3.3.6.3-SNAPSHOT", "3.3.6.4-1").unwrap();
    apply(&steps, &mut checkout);
    assert_eq!(text_of(&checkout, "test.txt").unwrap(), expected_output);
}

fn debian_checkout() -> Checkout {
    vec![
        (
            "bigtop-packages/src/deb/kudu/debian/control".to_string(),
            "Package: kudu-3-3-6-3-SNAPSHOT\n".to_string(),
        ),
        ("bigtop-packages/src/deb/kudu/debian/kudu-3-3-6-3-SNAPSHOT.install".to_string(), String::new()),
    ]
}

#[test]
fn fix_debian_paths_updates_content_and_renames_files() {
    let mut checkout = debian_checkout();
    let steps = fix_debian_paths("3.3.6.3-SNAPSHOT", "3.3.6.4-1").unwrap();
    apply(&steps, &mut checkout);
    let control = text_of(&checkout, "bigtop-packages/src/deb/kudu/debian/control").unwrap();
    assert!(control.contains("kudu-3-3-6-4-1"), "control content not updated: {control}");
    assert!(!control.contains("3-3-6-3-SNAPSHOT"), "old version still in control: {control}");
    assert!(
        text_of(&checkout, "bigtop-packages/src/deb/kudu/debian/kudu-3-3-6-3-SNAPSHOT.install").is_none(),
        "old .install file still exists"
    );
    assert!(
        text_of(&checkout, "bigtop-packages/src/deb/kudu/debian/kudu-3-3-6-4-1.install").is_some(),
        "renamed .install file not found"
    );
}

#[test]
fn debian_rename_fails() {
    let mut checkout = debian_checkout();
    let steps = fix_debian_paths("3.3.6.3-101", "3.3.6.4-1").unwrap();
    apply(&steps, &mut checkout);
    let control = text_of(&checkout, "bigtop-packages/src/deb/kudu/debian/control").unwrap();
    assert!(control.contains("3-3-6-3-SNAPSHOT"), "Control content modified: {control}");
    assert!(
        text_of(&checkout, "bigtop-packages/src/deb/kudu/debian/kudu-3-3-6-3-SNAPSHOT.install").is_some(),
        "Original .install file deleted"
    );
}

#[test]
fn fix_hadoop_jar_version() {
    let input = r#"
hadoop-annotations-3.3.6.3.3.7.1-1.jar
hadoop-auth-3.3.6.3.3.7.1-1.jar
hadoop-common-3.3.6.3.3.7.1-1.jar
hadoop-hdfs-client-3.3.6.3.3.7.1-1.jar
hadoop-mapreduce-client-common-3.3.6.3.3.7.1-1.jar
hadoop-mapreduce-client-core-3.3.6.3.3.7.1-1.jar
hadoop-mapreduce-client-jobclient-3.3.6.3.3.7.1-1.jar
hadoop-yarn-api-3.3.6.3.3.7.1-1.jar
hadoop-yarn-client-3.3.6.3.3.7.1-1.jar
hadoop-yarn-common-3.3.6.3.3.7.1-1.jar
"#;
    let expected_output = r#"
hadoop-annotations-3.3.7.3.3.7.1-1.jar
hadoop-auth-3.3.7.3.3.7.1-1.jar
hadoop-common-3.3.7.3.3.7.1-1.jar
hadoop-hdfs-client-3.3.7.3.3.7.1-1.jar
hadoop-mapreduce-client-common-3.3.7.3.3.7.1-1.jar
hadoop-mapreduce-client-core-3.3.7.3.3.7.1-1.jar
hadoop-mapreduce-client-jobclient-3.3.7.3.3.7.1-1.jar
hadoop-yarn-api-3.3.7.3.3.7.1-1.jar
hadoop-yarn-client-3.3.7.3.3.7.1-1.jar
hadoop-yarn-common-3.3.7.3.3.7.1-1.jar
"#;
    let path = format!("{HADOOP_DIRECTORY}/test.txt");
    let mut checkout: Checkout = vec![(path.clone(), input.to_string())];
    let step = fix_hadoop_jars("3.3.6.4-1", "3.3.7.1-1").unwrap().unwrap();
    apply(&[step], &mut checkout);
    assert_eq!(text_of(&checkout, &path).unwrap(), expected_output);
}

#[test]
fn hadoop_jar_versions_no_match() {
    assert!(fix_hadoop_jars("def", "my_new_text").unwrap().is_none());
}

#[test]
fn fix_hadoop_jars_no_partial_match() {
    let input = "hadoop-annotations-13.3.6.3.3.7.1-1.jar\n";
    let path = format!("{HADOOP_DIRECTORY}/hadoop-client.list");
    let mut checkout: Checkout = vec![(path.clone(), input.to_string())];
    let step = fix_hadoop_jars("3.3.6.3-SNAPSHOT", "3.3.7.1-1").unwrap().unwrap();
    apply(&[step], &mut checkout);
    let got = text_of(&checkout, &path).unwrap();
    assert_eq!(got, input, "partial match should not have been replaced: {got}");
}

#[test]
fn plain_change_replaces_the_text_literally_everywhere() {
    let steps = modification_steps("kudu", "1.2+x", "9.9", false).unwrap();
    assert_eq!(steps.len(), 1);
    let mut checkout: Checkout = vec![
        ("a.txt".to_string(), "v=1.2+x; w=1.22x".to_string()),
        ("img/logo.png".to_string(), "1.2+x".to_string()),
    ];
    apply(&steps, &mut checkout);
    assert_eq!(text_of(&checkout, "a.txt").unwrap(), "v=9.9; w=1.22x");
    assert_eq!(text_of(&checkout, "img/logo.png").unwrap(), "1.2+x");
}

#[test]
fn bigtop_version_change_runs_every_step_in_order() {
    let steps = modification_steps("odp-bigtop", "3.3.6.3-SNAPSHOT", "3.3.6.4-1", true).unwrap();
    // the text itself, the version lines, the build numbers, the Debian text and names, and
    // the Hadoop jar lists, since both versions are whole releases
    assert_eq!(steps.len(), 6);
    assert!(matches!(&steps[4], EditStep::RenameFiles { scope, new_dashed, .. } if scope == DEBIAN_DIRECTORY && new_dashed == "3-3-6-4-1"));
    let mut checkout: Checkout = vec![
        ("bigtop.bom".to_string(), "version = \"3.3.6.3\";\nref = \"3.3.6.3-SNAPSHOT\"\n".to_string()),
        ("bigtop-packages/src/deb/kudu/debian/kudu-3-3-6-3-SNAPSHOT.install".to_string(), String::new()),
    ];
    apply(&steps, &mut checkout);
    assert_eq!(text_of(&checkout, "bigtop.bom").unwrap(), "version = \"3.3.6.4\";\nref = \"3.3.6.4-1\"\n");
    assert!(text_of(&checkout, "bigtop-packages/src/deb/kudu/debian/kudu-3-3-6-4-1.install").is_some());
    let with_jars = modification_steps("odp-bigtop", "3.3.6.4-1", "3.3.7.1-1", true).unwrap();
    assert!(matches!(with_jars.last().unwrap(), EditStep::Replace(e) if e.scope == HADOOP_DIRECTORY));
}

#[test]
fn other_repositories_get_only_the_text_replacement() {
    assert_eq!(modification_steps("odp-bigtop", "a", "b", false).unwrap().len(), 1);
    assert_eq!(modification_steps("kudu", "3.3.6.3-1", "3.3.6.4-1", true).unwrap().len(), 1);
}

#[test]
fn new_version_without_build_number_is_refused() {
    match modification_steps("odp-bigtop", "3.3.6.3-1", "3.3.6.4", true) {
        Err(GitError::Other(m)) => assert_eq!(m, "Could not determine new build number"),
        other => panic!("unexpected {other:?}"),
    }
}

#[test]
fn dollar_signs_in_versions_are_written_as_they_are() {
    let steps = replace_odp_and_bn("3.3.6.3-1", "3.3.6.4$1-2$x").unwrap();
    let mut checkout: Checkout = vec![("f".to_string(), "  odp_version = \"3.3.6.3\"\n  odp_bn = \"1\";".to_string())];
    apply(&steps, &mut checkout);
    assert_eq!(text_of(&checkout, "f").unwrap(), "  odp_version = \"3.3.6.4$1\"\n  odp_bn = \"2$x\";");
}
