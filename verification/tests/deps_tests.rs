use cargo_add::{parse_dependencies, AddError, DepOp};

fn tokens(names: &[&str]) -> Vec<String> {
    names.iter().map(|s| (*s).to_owned()).collect()
}

fn shared(vals: &[&str]) -> Option<Vec<String>> {
    Some(vals.iter().map(|s| (*s).to_owned()).collect())
}

#[allow(clippy::too_many_arguments)]
fn build(
    crates: Vec<String>,
    git: Option<&str>,
    rename: Option<&str>,
    features: Option<Vec<String>>,
    default_features: Option<bool>,
    optional: Option<bool>,
    unstable_options: bool,
) -> Result<Vec<DepOp>, AddError> {
    parse_dependencies(
        crates,
        git.map(str::to_owned),
        None,
        None,
        None,
        rename.map(str::to_owned),
        None,
        default_features,
        optional,
        features,
        unstable_options,
    )
}

#[test]
fn one_crate_with_shared_features() {
    let deps = build(tokens(&["serde"]), None, None, shared(&["derive"]), None, None, false)
        .unwrap();
    assert_eq!(deps.len(), 1);
    assert_eq!(deps[0].crate_spec, "serde");
    assert_eq!(deps[0].feature_names(), Some(vec!["derive".to_owned()]));
    assert_eq!(deps[0].default_features, None);
    assert_eq!(deps[0].optional, None);
    assert_eq!(deps[0].rename, None);
    assert_eq!(deps[0].git, None);
}

#[test]
fn attachment_token_mutates_the_preceding_request() {
    let deps = build(
        tokens(&["serde", "+derive", "serde_json"]),
        None,
        None,
        None,
        None,
        None,
        true,
    )
    .unwrap();
    assert_eq!(deps.len(), 2);
    assert_eq!(deps[0].crate_spec, "serde");
    assert_eq!(deps[0].feature_names(), Some(vec!["derive".to_owned()]));
    assert_eq!(deps[1].crate_spec, "serde_json");
    assert_eq!(deps[1].feature_names(), None);
}

#[test]
fn order_of_crates_and_their_attachments_is_kept() {
    let deps = build(
        tokens(&["x", "+f1", "+f2", "y", "+g1"]),
        None,
        None,
        None,
        None,
        None,
        true,
    )
    .unwrap();
    assert_eq!(deps.len(), 2);
    assert_eq!(deps[0].crate_spec, "x");
    assert_eq!(
        deps[0].feature_names(),
        Some(vec!["f1".to_owned(), "f2".to_owned()])
    );
    assert_eq!(deps[1].crate_spec, "y");
    assert_eq!(deps[1].feature_names(), Some(vec!["g1".to_owned()]));
}

#[test]
fn multiple_crates_with_git_is_ambiguous() {
    let err = build(
        tokens(&["a", "b"]),
        Some("https://example.invalid/repo.git"),
        None,
        None,
        None,
        None,
        true,
    )
    .unwrap_err();
    assert_eq!(err, AddError::MultipleCratesWithGit);
    assert_eq!(
        err.message(),
        "cannot specify multiple crates with path or git or vers"
    );
}

#[test]
fn multiple_crates_with_rename_is_ambiguous() {
    let err = build(tokens(&["a", "b"]), None, Some("alias"), None, None, None, true)
        .unwrap_err();
    assert_eq!(err, AddError::MultipleCratesWithRename);
    assert_eq!(err.message(), "cannot specify multiple crates with rename");
}

#[test]
fn multiple_crates_with_shared_features_is_ambiguous() {
    let err = build(tokens(&["a", "b"]), None, None, shared(&["f"]), None, None, true)
        .unwrap_err();
    assert_eq!(err, AddError::MultipleCratesWithFeatures);
    assert_eq!(err.message(), "cannot specify multiple crates with features");
}

#[test]
fn one_crate_with_every_single_dep_modifier_is_fine() {
    let deps = parse_dependencies(
        tokens(&["a"]),
        Some("https://example.invalid/repo.git".to_owned()),
        Some("main".to_owned()),
        None,
        None,
        Some("alias".to_owned()),
        Some("alt-registry".to_owned()),
        Some(false),
        Some(true),
        shared(&["f1,f2"]),
        true,
    )
    .unwrap();
    assert_eq!(deps.len(), 1);
    assert_eq!(deps[0].crate_spec, "a");
    assert_eq!(deps[0].rename.as_deref(), Some("alias"));
    assert_eq!(deps[0].git.as_deref(), Some("https://example.invalid/repo.git"));
    assert_eq!(deps[0].branch.as_deref(), Some("main"));
    assert_eq!(deps[0].registry.as_deref(), Some("alt-registry"));
    assert_eq!(deps[0].default_features, Some(false));
    assert_eq!(deps[0].optional, Some(true));
    assert_eq!(
        deps[0].feature_names(),
        Some(vec!["f1".to_owned(), "f2".to_owned()])
    );
}

#[test]
fn attachments_do_not_count_as_crates_for_ambiguity() {
    let deps = build(
        tokens(&["serde", "+derive"]),
        Some("https://example.invalid/repo.git"),
        Some("alias"),
        shared(&["json"]),
        None,
        None,
        true,
    )
    .unwrap();
    assert_eq!(deps.len(), 1);
    assert_eq!(
        deps[0].feature_names(),
        Some(vec!["json".to_owned(), "derive".to_owned()])
    );
}

#[test]
fn git_without_unstable_options_is_gated() {
    let err = build(
        tokens(&["a"]),
        Some("https://example.invalid/repo.git"),
        None,
        None,
        None,
        None,
        false,
    )
    .unwrap_err();
    assert_eq!(err, AddError::GitUnstable);
}

#[test]
fn attachment_without_unstable_options_is_gated() {
    let err = build(tokens(&["a", "+f"]), None, None, None, None, None, false).unwrap_err();
    assert_eq!(err, AddError::FeatureSyntaxUnstable);
}

#[test]
fn leading_attachment_has_no_crate_to_attach_to() {
    let err = build(tokens(&["+derive"]), None, None, None, None, None, true).unwrap_err();
    assert_eq!(err, AddError::FeatureWithoutCrate);
    assert_eq!(err.message(), "`+<feature>` must be preceded by a pkgid");
}

#[test]
fn attached_features_are_deduplicated_in_first_seen_order() {
    let deps = build(
        tokens(&["serde", "+derive,rc derive", "+rc"]),
        None,
        None,
        None,
        None,
        None,
        true,
    )
    .unwrap();
    assert_eq!(deps.len(), 1);
    assert_eq!(
        deps[0].feature_names(),
        Some(vec!["derive".to_owned(), "rc".to_owned()])
    );
}

#[test]
fn shared_feature_values_are_split_and_deduplicated() {
    let deps = build(
        tokens(&["serde"]),
        None,
        None,
        shared(&["a,b c", "b d"]),
        None,
        None,
        false,
    )
    .unwrap();
    assert_eq!(
        deps[0].feature_names(),
        Some(vec![
            "a".to_owned(),
            "b".to_owned(),
            "c".to_owned(),
            "d".to_owned()
        ])
    );
}

#[test]
fn no_tokens_give_no_requests() {
    let deps = build(Vec::new(), None, None, None, None, None, false).unwrap();
    assert!(deps.is_empty());
}
