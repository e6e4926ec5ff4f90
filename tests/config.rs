use gitsite::{compile_overrides, relative_readme_path, select_lang, Override, RepoMetadata};

fn pairs(p: &[(&str, &str)]) -> Vec<(String, String)> {
    p.iter().map(|(a, b)| (a.to_string(), b.to_string())).collect()
}

#[test]
fn first_declared_override_wins() {
    let overrides = compile_overrides(pairs(&[("lang_b", "*.x"), ("lang_a", "*.x")]));
    assert_eq!(select_lang(&overrides, "f.x"), Some("lang_b".to_string()));
}

#[test]
fn no_override_matches() {
    let overrides = compile_overrides(pairs(&[("rust", "*.rs")]));
    assert_eq!(select_lang(&overrides, "main.c"), None);
    assert_eq!(select_lang(&Vec::new(), "main.c"), None);
}

#[test]
fn invalid_patterns_are_dropped_alone() {
    let overrides = compile_overrides(pairs(&[("bad", "a[b"), ("bad2", "***"), ("good", "*.md")]));
    assert_eq!(
        overrides,
        vec![Override { lang: "good".to_string(), pattern: "*.md".to_string() }]
    );
}

#[test]
fn readme_path_from_root_becomes_relative() {
    assert_eq!(relative_readme_path("/README.md"), "README.md");
    assert_eq!(relative_readme_path("docs/README"), "docs/README");
    assert_eq!(relative_readme_path("//a/b"), "a/b");
    assert_eq!(relative_readme_path(""), "");
}

#[test]
fn metadata_from_descriptor_fields() {
    let meta = RepoMetadata::from_parts(
        "main".to_string(),
        Some("a repo".to_string()),
        Some("/README.md".to_string()),
        pairs(&[("c", "*.h"), ("x", "[")]),
    );
    assert_eq!(meta.default_branch, "main");
    assert_eq!(meta.description, Some("a repo".to_string()));
    assert_eq!(meta.readme_path, Some("README.md".to_string()));
    assert_eq!(meta.overrides.len(), 1);
    assert_eq!(select_lang(&meta.overrides, "x.h"), Some("c".to_string()));

    let bare = RepoMetadata::from_parts("trunk".to_string(), None, None, Vec::new());
    assert_eq!(bare.readme_path, None);
    assert!(bare.overrides.is_empty());
}
