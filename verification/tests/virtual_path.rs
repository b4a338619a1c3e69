use matryoshka_sqlite::util::VirtualPath;

#[test]
fn test_special() {
    assert_eq!(VirtualPath::from("/"), "");
    assert_eq!(VirtualPath::from("."), "");
    assert_eq!(VirtualPath::from(".."), "");
}

#[test]
fn test_multiple() {
    assert_eq!(VirtualPath::from("42"), "42");
    assert_eq!(VirtualPath::from("/42"), "42");
    assert_eq!(VirtualPath::from("42/"), "42");
    assert_eq!(VirtualPath::from("/42/"), "42");
}

#[test]
fn test_multiple_parts() {
    assert_eq!(VirtualPath::from("42/PI"), "42/PI");
    assert_eq!(VirtualPath::from("/42/PI/"), "42/PI");
    assert_eq!(VirtualPath::from("/42/PI"), "42/PI");
}

#[test]
fn test_current_dir() {
    assert_eq!(VirtualPath::from("/42/."), "42");
    assert_eq!(VirtualPath::from("/42/./"), "42");
    assert_eq!(VirtualPath::from("/42/./PI"), "42/PI");
}

#[test]
fn test_parent_dir() {
    assert_eq!(VirtualPath::from("/42/.."), "");
    assert_eq!(VirtualPath::from("42/.."), "");
    assert_eq!(VirtualPath::from("./.."), "");
    assert_eq!(VirtualPath::from("42/../"), "");
    assert_eq!(VirtualPath::from("42/../PI"), "PI");
    assert_eq!(VirtualPath::from("42/./../PI/"), "PI");
    assert_eq!(VirtualPath::from("42/43/../PI/"), "42/PI");
}

#[test]
fn test_parent_resolution() {
    assert_eq!(VirtualPath::from("a/../b"), "b");
    assert_eq!(VirtualPath::from("a/b/../../c"), "c");
    assert_eq!(VirtualPath::from("a/./b"), "a/b");
}

#[test]
fn test_normalize_is_idempotent() {
    for raw in [
        "", "/", ".", "..", "a", "/a/", "a//b", "a/./b/../c", "../../x", "a/b/c/../../..", "...",
        "a/.../b", "ä/ö/../ü", "//a///b//",
    ] {
        let once = VirtualPath::from(raw);
        let twice = VirtualPath::from(once.as_ref());
        assert_eq!(once, twice);
        assert!(!once.as_ref().starts_with('/'));
        assert!(!once.as_ref().ends_with('/'));
    }
}

#[test]
fn test_dots_that_are_names() {
    assert_eq!(VirtualPath::from("..."), "...");
    assert_eq!(VirtualPath::from("a/..b/c"), "a/..b/c");
    assert_eq!(VirtualPath::from(".a/b."), ".a/b.");
}

#[test]
fn test_equal_paths_are_equal() {
    assert_eq!(VirtualPath::from("a/b"), VirtualPath::from("/a/./b/"));
    assert!(VirtualPath::from("a/b") != VirtualPath::from("a/c"));
}

#[test]
fn test_paths_are_ordered_as_their_text() {
    assert!(VirtualPath::from("a/b") < VirtualPath::from("a/c"));
    assert!(VirtualPath::from("/a/") < VirtualPath::from("a/b"));
    assert_eq!(
        VirtualPath::from("b/../a").cmp(&VirtualPath::from("a")),
        std::cmp::Ordering::Equal
    );
}
