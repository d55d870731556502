use cargo_add::resolve_bool_arg;

#[test]
fn resolve_bool_arg_neither_set_is_unspecified() {
    assert_eq!(resolve_bool_arg(false, false), None);
}

#[test]
fn resolve_bool_arg_enable_only_is_true() {
    assert_eq!(resolve_bool_arg(true, false), Some(true));
}

#[test]
fn resolve_bool_arg_disable_only_is_false() {
    assert_eq!(resolve_bool_arg(false, true), Some(false));
}

#[test]
fn resolve_bool_arg_covers_default_features_switch() {
    // --default-features / --no-default-features
    let default_features = resolve_bool_arg(false, true);
    assert_eq!(default_features, Some(false));
}

#[test]
fn resolve_bool_arg_covers_optional_switch() {
    // --optional / --no-optional
    let optional = resolve_bool_arg(true, false);
    assert_eq!(optional, Some(true));
}
