use gitsite::{list_files, order_by_name, partition_dirs_first, sort_files_by_name, File, FileMode, TreeEntry};

fn entry(name: &str, mode: i32) -> TreeEntry {
    TreeEntry { name: Some(name.to_string()), mode }
}

fn names(files: &[File]) -> Vec<String> {
    files.iter().map(|f| f.name.clone()).collect()
}

#[test]
fn modes_are_decoded() {
    assert_eq!(FileMode::from_mode(0o100644), Some(FileMode::File));
    assert_eq!(FileMode::from_mode(0o100755), Some(FileMode::Exe));
    assert_eq!(FileMode::from_mode(0o040000), Some(FileMode::Dir));
    assert_eq!(FileMode::from_mode(0o120000), None);
    assert_eq!(FileMode::from_mode(0o160000), None);
}

#[test]
fn directories_come_first_then_names_ignoring_case() {
    let entries = vec![entry("b.txt", 0o100644), entry("A", 0o040000), entry("a.txt", 0o100644)];
    let files = list_files(&entries, "");
    assert_eq!(names(&files), vec!["A", "a.txt", "b.txt"]);
    assert_eq!(files[0].mode, FileMode::Dir);
}

#[test]
fn unknown_modes_are_left_out() {
    let entries = vec![
        entry("link", 0o120000),
        entry("lib", 0o040000),
        entry("module", 0o160000),
        entry("run.sh", 0o100755),
        entry("Cargo.toml", 0o100644),
    ];
    let files = list_files(&entries, "");
    assert_eq!(names(&files), vec!["lib", "Cargo.toml", "run.sh"]);
    assert_eq!(files[2].mode, FileMode::Exe);
}

#[test]
fn names_that_are_not_utf8_are_left_out() {
    let entries = vec![TreeEntry { name: None, mode: 0o100644 }, entry("x", 0o100644)];
    assert_eq!(names(&list_files(&entries, "")), vec!["x"]);
}

#[test]
fn paths_are_joined_with_the_directory() {
    let entries = vec![entry("main.rs", 0o100644), entry("bin", 0o040000)];
    let files = list_files(&entries, "src");
    assert_eq!(files[0].path, "src/bin");
    assert_eq!(files[1].path, "src/main.rs");
    let at_root = list_files(&entries, "");
    assert_eq!(at_root[1].path, "main.rs");
}

#[test]
fn sorting_keeps_the_order_of_names_that_fold_alike() {
    let files = vec![
        File { name: "b".to_string(), path: "b".to_string(), mode: FileMode::File },
        File { name: "README".to_string(), path: "1".to_string(), mode: FileMode::File },
        File { name: "readme".to_string(), path: "2".to_string(), mode: FileMode::File },
        File { name: "ReadMe".to_string(), path: "3".to_string(), mode: FileMode::File },
    ];
    let sorted = sort_files_by_name(files);
    let paths: Vec<String> = sorted.iter().map(|f| f.path.clone()).collect();
    assert_eq!(paths, vec!["b", "1", "2", "3"]);
}

#[test]
fn partition_keeps_order_within_groups() {
    let files = vec![
        File { name: "z".to_string(), path: "z".to_string(), mode: FileMode::File },
        File { name: "y".to_string(), path: "y".to_string(), mode: FileMode::Dir },
        File { name: "x".to_string(), path: "x".to_string(), mode: FileMode::Exe },
        File { name: "w".to_string(), path: "w".to_string(), mode: FileMode::Dir },
    ];
    assert_eq!(names(&partition_dirs_first(files)), vec!["y", "w", "z", "x"]);
}

#[test]
fn empty_tree_lists_nothing() {
    assert!(list_files(&Vec::new(), "").is_empty());
}

#[test]
fn index_order_ignores_case() {
    let names: Vec<String> = vec!["zeta".to_string(), "Alpha".to_string(), "beta".to_string(), "alpha2".to_string()];
    let order = order_by_name(&names);
    let sorted: Vec<&str> = order.iter().map(|&i| names[i].as_str()).collect();
    assert_eq!(sorted, vec!["Alpha", "alpha2", "beta", "zeta"]);
    assert!(order_by_name(&Vec::new()).is_empty());
}
