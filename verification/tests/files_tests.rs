use mdp::files::{FileTree, MarkdownFile};

#[test]
fn test_from_file_splits_path() {
    let tree = FileTree::from_file("/home/docs/guide.md");
    assert_eq!(tree.base_path, "/home/docs");
    assert_eq!(tree.files.len(), 1);
    assert_eq!(tree.files[0].relative_path, "guide.md");
    assert_eq!(tree.files[0].name, "guide");
    assert!(tree.is_single_file());
    assert_eq!(tree.default_file().unwrap().name, "guide");
}

#[test]
fn test_from_files_readme_first() {
    let files = vec![
        MarkdownFile {
            absolute_path: String::from("/d/guide.md"),
            relative_path: String::from("guide.md"),
            name: String::from("guide"),
        },
        MarkdownFile {
            absolute_path: String::from("/d/README.md"),
            relative_path: String::from("README.md"),
            name: String::from("README"),
        },
        MarkdownFile {
            absolute_path: String::from("/d/api.md"),
            relative_path: String::from("api.md"),
            name: String::from("api"),
        },
    ];
    let tree = FileTree::from_files(String::from("/d"), files);
    assert_eq!(tree.files.len(), 3);
    assert_eq!(tree.files[0].name, "README");
    assert_eq!(tree.files[1].relative_path, "api.md");
    assert_eq!(tree.files[2].relative_path, "guide.md");
    assert!(!tree.is_single_file());
}

#[test]
fn test_from_file_with_context_target_first() {
    let files = vec![
        MarkdownFile {
            absolute_path: String::from("/d/README.md"),
            relative_path: String::from("README.md"),
            name: String::from("README"),
        },
        MarkdownFile {
            absolute_path: String::from("/d/guide.md"),
            relative_path: String::from("guide.md"),
            name: String::from("guide"),
        },
    ];
    let tree = FileTree::from_files(String::from("/d"), files);
    let tree = FileTree::from_file_with_context(tree, "guide.md");
    assert_eq!(tree.files[0].relative_path, "guide.md");
    assert_eq!(tree.files[1].name, "README");
}

#[test]
fn test_find_file_normalizes_input() {
    let files = vec![MarkdownFile {
        absolute_path: String::from("/d/docs/a.md"),
        relative_path: String::from("docs/a.md"),
        name: String::from("a"),
    }];
    let tree = FileTree::from_files(String::from("/d"), files);
    assert!(tree.find_file("docs/a.md").is_some());
    assert!(tree.find_file("./docs/a.md").is_some());
    assert!(tree.find_file("docs\\a.md").is_some());
    assert!(tree.find_file("missing.md").is_none());
}
