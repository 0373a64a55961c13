use treesize::root::{validate_root, RootError};

#[test]
fn existing_directory_is_admitted() {
    assert_eq!(validate_root(true, false, true), Ok(()));
}

#[test]
fn regular_file_root_is_rejected() {
    assert_eq!(validate_root(true, true, false), Err(RootError::NotADirectory));
    assert_eq!(validate_root(true, true, true), Err(RootError::NotADirectory));
}

#[test]
fn missing_root_is_rejected() {
    assert_eq!(validate_root(false, false, false), Err(RootError::Missing));
    assert_eq!(validate_root(false, true, true), Err(RootError::Missing));
}

#[test]
fn root_of_unknown_type_is_rejected() {
    assert_eq!(validate_root(true, false, false), Err(RootError::Unknown));
}
