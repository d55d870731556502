use cargo_add::parse_feature;

#[test]
fn splits_on_commas_and_spaces() {
    assert_eq!(parse_feature("a,b c"), vec!["a", "b", "c"]);
}

#[test]
fn empty_input_gives_no_features() {
    assert_eq!(parse_feature(""), Vec::<String>::new());
}

#[test]
fn separators_only_give_no_features() {
    assert_eq!(parse_feature(" , ,, \t ,"), Vec::<String>::new());
}

#[test]
fn single_name_passes_through() {
    assert_eq!(parse_feature("derive"), vec!["derive"]);
}

#[test]
fn splits_on_tabs_and_newlines() {
    assert_eq!(parse_feature("a\tb\nc"), vec!["a", "b", "c"]);
}

#[test]
fn splits_on_unicode_whitespace() {
    assert_eq!(parse_feature("a\u{3000}b\u{a0}c"), vec!["a", "b", "c"]);
}

#[test]
fn collapses_runs_of_separators() {
    assert_eq!(parse_feature("a,,  ,b"), vec!["a", "b"]);
}

#[test]
fn splitting_is_idempotent_on_already_split_input() {
    let first = parse_feature("a,b c");
    assert_eq!(first, vec!["a", "b", "c"]);
    let rejoined = first.join(" ");
    let second = parse_feature(&rejoined);
    assert_eq!(second, first);
}
