use proto_sync::store::{
    ignore_marker_content, ignore_marker_name, locate, marker_needs_write, store_directory,
    working_copy,
};

#[test]
fn store_directory_is_fixed() {
    assert_eq!(store_directory(), ".proto-sync");
}

#[test]
fn marker_excludes_everything() {
    assert_eq!(ignore_marker_name(), ".gitignore");
    assert_eq!(ignore_marker_content(), "*\n");
}

#[test]
fn a_missing_marker_is_written() {
    assert!(marker_needs_write(None));
}

#[test]
fn a_current_marker_is_kept() {
    assert!(!marker_needs_write(Some("*\n")));
}

#[test]
fn a_different_marker_is_rewritten() {
    assert!(marker_needs_write(Some("")));
    assert!(marker_needs_write(Some("*")));
    assert!(marker_needs_write(Some("*\n\n")));
    assert!(marker_needs_write(Some("target/\n")));
}

#[test]
fn a_working_copy_lies_in_the_store_under_its_key() {
    assert_eq!(working_copy("abc"), vec![".proto-sync".to_string(), "abc".to_string()]);
}

#[test]
fn a_repository_is_located_by_the_digest_of_its_url() {
    assert_eq!(
        locate("https://example.com/a.git"),
        vec![
            ".proto-sync".to_string(),
            "eaead1850c5866e96e76ad58dabf833723c495451d30bf2e92084dbdd1de3f9a".to_string()
        ]
    );
    assert_eq!(
        locate("hello"),
        vec![
            ".proto-sync".to_string(),
            "2cf24dba5fb0a30e26e83b2ac5b9e29e1b161e5c1fa7425e73043362938b9824".to_string()
        ]
    );
    assert_eq!(locate("hello"), locate("hello"));
}
