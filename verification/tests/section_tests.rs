use cargo_add::{parse_section, AddError, DepKind};

#[test]
fn no_flags_give_normal_section() {
    let table = parse_section(false, false, None).unwrap();
    assert_eq!(table.kind, DepKind::Normal);
    assert_eq!(table.target, None);
}

#[test]
fn dev_flag_gives_development_section() {
    let table = parse_section(true, false, None).unwrap();
    assert_eq!(table.kind, DepKind::Development);
}

#[test]
fn build_flag_gives_build_section() {
    let table = parse_section(false, true, None).unwrap();
    assert_eq!(table.kind, DepKind::Build);
}

#[test]
fn dev_flag_wins_over_build_flag() {
    let table = parse_section(true, true, None).unwrap();
    assert_eq!(table.kind, DepKind::Development);
}

#[test]
fn nonempty_target_is_kept() {
    let table = parse_section(false, true, Some("wasm32-unknown-unknown".to_owned())).unwrap();
    assert_eq!(table.kind, DepKind::Build);
    assert_eq!(table.target.as_deref(), Some("wasm32-unknown-unknown"));
}

#[test]
fn empty_target_is_rejected() {
    let err = parse_section(false, false, Some(String::new())).unwrap_err();
    assert_eq!(err, AddError::EmptyTarget);
    assert_eq!(err.message(), "target specification may not be empty");
}
