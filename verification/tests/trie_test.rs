use dagzet::trie::Trie;

#[test]
fn basic() {
    let mut root = Trie::default();

    root.add_path("a/b/c");

    let res = root.search("b/c").unwrap();

    assert_eq!(&res, "a/b/c");
}

#[test]
fn invalid_key() {
    let mut root = Trie::default();
    root.add_path("a/b/c");
    let res = root.search("d/e");
    assert!(res.is_err());
}

#[test]
fn amibguous() {
    // match
    let mut root = Trie::default();
    root.add_path("a/b/c");
    root.add_path("f/a/b/c");

    root.add_path("d/e");
    root.add_path("f/a/d/e");

    // Ambiguous pattern
    let res = root.search("b/c");
    assert!(res.is_err());

    // Unambiguous pattern
    let res = root.search("a/d/e").unwrap();
    assert_eq!(res, "f/a/d/e");
}
