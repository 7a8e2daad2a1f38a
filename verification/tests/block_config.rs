use regspace::config::{block_dev, readonly_flag, BlockDevError, BlockDevKind};

#[test]
fn readonly_option() {
    assert!(readonly_flag(Some("true")));
    assert!(!readonly_flag(Some("false")));
    assert!(!readonly_flag(None));
    assert!(!readonly_flag(Some("")));
    assert!(!readonly_flag(Some("True")));
    assert!(!readonly_flag(Some("1")));
    assert!(!readonly_flag(Some(" true")));
    assert!(!readonly_flag(Some("yes")));
}

#[test]
fn file_backed_device() {
    assert_eq!(block_dev("file", true, None), Ok(BlockDevKind::File { readonly: false }));
    assert_eq!(block_dev("file", true, Some("true")), Ok(BlockDevKind::File { readonly: true }));
    assert_eq!(block_dev("file", true, Some("false")), Ok(BlockDevKind::File { readonly: false }));
    assert_eq!(block_dev("file", true, Some("maybe")), Ok(BlockDevKind::File { readonly: false }));
}

#[test]
fn file_backed_device_needs_a_path() {
    assert_eq!(block_dev("file", false, None), Err(BlockDevError::MissingPath));
    assert_eq!(block_dev("file", false, Some("true")), Err(BlockDevError::MissingPath));
}

#[test]
fn unknown_device_types() {
    assert_eq!(block_dev("crucible", true, None), Err(BlockDevError::UnknownType));
    assert_eq!(block_dev("", true, None), Err(BlockDevError::UnknownType));
    assert_eq!(block_dev("File", true, None), Err(BlockDevError::UnknownType));
    assert_eq!(block_dev("files", false, Some("true")), Err(BlockDevError::UnknownType));
}
