use cargo_add::{select_package_index, AddError};

#[test]
fn zero_packages_is_a_selection_error() {
    let err = select_package_index(0).unwrap_err();
    assert_eq!(err, AddError::NoPackageSelected);
    assert_eq!(
        err.message(),
        "no packages selected.  Please specify one with `-p <PKGID>`"
    );
}

#[test]
fn one_package_is_selected() {
    assert_eq!(select_package_index(1), Ok(0));
}

#[test]
fn several_packages_are_a_selection_error() {
    let err = select_package_index(3).unwrap_err();
    assert_eq!(err, AddError::MultiplePackagesSelected { count: 3 });
    assert_eq!(
        err.message(),
        "multiple packages selected.  Please specify one with `-p <PKGID>`"
    );
}

#[test]
fn gating_error_messages_name_the_gate() {
    assert_eq!(
        AddError::GitUnstable.message(),
        "`--git` is unstable and requires `-Z unstable-options`"
    );
    assert_eq!(
        AddError::FeatureSyntaxUnstable.message(),
        "`+<feature>` is unstable and requires `-Z unstable-options`"
    );
}
