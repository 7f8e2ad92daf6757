use cargo_merge::line::Line;
use cargo_merge::source::SourceTree;

fn plain(text: &str) -> Vec<Line> {
    vec![Line::Plain(text.to_string())]
}

#[test]
fn a_new_tree_is_empty() {
    let tree = SourceTree::new();
    assert_eq!(tree.len(), 0);
    assert_eq!(tree.find("src/lib.rs"), None);
    assert!(!tree.contains("src/lib.rs"));
    assert_eq!(tree.resolve("src/lib"), None);
}

#[test]
fn a_tree_keeps_the_first_file_of_a_path() {
    let mut tree = SourceTree::new();
    assert!(tree.insert("src/lib.rs", plain("first")));
    assert!(tree.insert("src/foo.rs", plain("foo")));
    assert!(!tree.insert("src/lib.rs", plain("second")));
    assert_eq!(tree.len(), 2);
    assert_eq!(tree.find("src/lib.rs"), Some(0));
    assert_eq!(tree.find("src/foo.rs"), Some(1));
    assert_eq!(tree.file(0).path, "src/lib.rs");
    assert_eq!(tree.file(0).lines, plain("first"));
    assert_eq!(tree.file(1).lines, plain("foo"));
    assert!(tree.contains("src/foo.rs"));
    assert!(!tree.contains("src/foo"));
}

#[test]
fn a_module_is_the_file_of_its_name_or_the_index_of_its_directory() {
    let mut tree = SourceTree::new();
    tree.insert("src/a/mod.rs", plain("index of a"));
    tree.insert("src/b.rs", plain("file of b"));
    tree.insert("src/c/mod.rs", plain("index of c"));
    tree.insert("src/c.rs", plain("file of c"));
    assert_eq!(tree.resolve("src/a"), Some(0));
    assert_eq!(tree.resolve("src/b"), Some(1));
    assert_eq!(tree.resolve("src/c"), Some(3));
    assert_eq!(tree.resolve("src/d"), None);
    assert_eq!(tree.resolve("src/mod"), None);
}
