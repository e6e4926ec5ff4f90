use gitsite::{path_nav, RepoPath};

#[test]
fn breadcrumb_from_root_to_path() {
    let path = RepoPath::from_segments(&vec!["src".to_string(), "site".to_string(), "web.rs".to_string()]).unwrap();
    let nav = path_nav(Some("gitsite"), &path);
    let steps: Vec<(String, String)> = nav.iter().map(|s| (s.name.clone(), s.path.clone())).collect();
    assert_eq!(
        steps,
        vec![
            ("gitsite".to_string(), "".to_string()),
            ("src".to_string(), "src".to_string()),
            ("site".to_string(), "src/site".to_string()),
            ("web.rs".to_string(), "src/site/web.rs".to_string()),
        ]
    );
}

#[test]
fn breadcrumb_outside_a_repository_is_empty() {
    assert!(path_nav(None, &RepoPath::root()).is_empty());
    assert_eq!(path_nav(Some("r"), &RepoPath::root()).len(), 1);
}
