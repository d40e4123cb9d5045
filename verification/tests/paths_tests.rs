use bevy_editor::paths::{components_of, join_path, paths_equal};

#[test]
fn joining_paths() {
    assert_eq!(join_path("/p", "assets", '/'), "/p/assets");
    assert_eq!(join_path("/p/", "assets", '/'), "/p/assets");
    assert_eq!(join_path("", "assets", '/'), "assets");
    assert_eq!(join_path("/p", "/etc", '/'), "/etc");
    assert_eq!(join_path("C:\\p", "src", '\\'), "C:\\p\\src");
    assert_eq!(join_path("C:\\p\\", "src", '\\'), "C:\\p\\src");
}

#[test]
fn path_components_skip_empty_and_dot() {
    let c: Vec<String> = components_of("./a//b/./c/", '/').iter().map(|v| v.iter().collect()).collect();
    assert_eq!(c, vec![".", "a", "b", "c"]);
    let r: Vec<String> = components_of("/x/../y", '/').iter().map(|v| v.iter().collect()).collect();
    assert_eq!(r, vec!["x", "..", "y"]);
    assert!(components_of("", '/').is_empty());
    assert!(components_of("/", '/').is_empty());
}

#[test]
fn path_equality() {
    assert!(paths_equal("a/b", "a//b", '/'));
    assert!(paths_equal("a/b", "a/b/", '/'));
    assert!(paths_equal("a/./b", "a/b", '/'));
    assert!(paths_equal("/", "//", '/'));
    assert!(!paths_equal("/a", "a", '/'));
    assert!(!paths_equal("./a", "a", '/'));
    assert!(!paths_equal("a/../b", "b", '/'));
    assert!(!paths_equal("a/B", "a/b", '/'));
}

#[test]
fn path_equality_with_platform_separator() {
    assert!(paths_equal("a\\b", "a/b", '\\'));
    assert!(paths_equal("\\x\\y\\", "/x/y", '\\'));
    assert!(!paths_equal("a\\b", "a/b", '/'));
    let c: Vec<String> = components_of("C:\\a\\.\\b", '\\').iter().map(|v| v.iter().collect()).collect();
    assert_eq!(c, vec!["C:", "a", "b"]);
}
