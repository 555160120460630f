use degu_core::paths::enclosing_directory;
use degu_core::paths::paths_equal;

#[test]
fn paths_are_equal_by_their_components() {
    for (left, right) in [
        ("/a", "/a/"),
        ("/a/b", "//a//b"),
        ("/a/./b", "/a/b"),
        ("a/.", "a"),
        ("/", "//"),
    ] {
        assert!(paths_equal(left.as_bytes(), right.as_bytes()), "{left} {right}");
    }
    for (left, right) in [("/a", "a"), ("./a", "a"), ("/a/../b", "/b"), ("", ".")] {
        assert!(!paths_equal(left.as_bytes(), right.as_bytes()), "{left} {right}");
    }
}

#[test]
fn the_enclosing_directory_is_what_is_left_of_the_last_component() {
    for (path, above) in [
        ("/a/b", Some("/a")),
        ("/a/b/", Some("/a")),
        ("/a//b", Some("/a")),
        ("/a/b/.", Some("/a")),
        ("/a", Some("/")),
        ("a", Some("")),
        ("a/..", Some("a")),
        ("/", None),
        ("", None),
    ] {
        assert_eq!(
            enclosing_directory(path.as_bytes()),
            above.map(|above| above.as_bytes().to_vec()),
            "{path}"
        );
    }
}
