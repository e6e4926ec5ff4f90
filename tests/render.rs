use gitsite::{
    compile_overrides, readme_entry, readme_from_content, render_content, File, FileMode,
};

fn file(name: &str, path: &str) -> File {
    File { name: name.to_string(), path: path.to_string(), mode: FileMode::File }
}

#[test]
fn binary_content_is_a_hex_dump() {
    let overrides = compile_overrides(vec![("c".to_string(), "*.bin".to_string())]);
    let r = render_content(b"A", true, "x.bin", &overrides);
    assert_eq!(r.text, "00000000: 41                                       A");
    assert_eq!(r.lang, Some("hexdump".to_string()));
}

#[test]
fn text_content_gets_the_override_language() {
    let overrides = compile_overrides(vec![
        ("lang_b".to_string(), "*.x".to_string()),
        ("lang_a".to_string(), "*.x".to_string()),
    ]);
    let r = render_content(b"hello", false, "f.x", &overrides);
    assert_eq!(r.text, "hello");
    assert_eq!(r.lang, Some("lang_b".to_string()));
    let r = render_content(b"hello", false, "f.y", &overrides);
    assert_eq!(r.lang, None);
}

#[test]
fn invalid_utf8_is_replaced() {
    let r = render_content(b"a\xffb", false, "t", &Vec::new());
    assert_eq!(r.text, "a\u{FFFD}b");
}

#[test]
fn markdown_readme_is_html() {
    let r = readme_from_content("README.md", b"# Title\n\nSome *text*.", false).unwrap();
    assert!(r.is_html);
    assert_eq!(r.content, "<h1>Title</h1>\n<p>Some <em>text</em>.</p>\n");
}

#[test]
fn markdown_renders_the_same_twice() {
    let text = b"| a | b |\n|---|---|\n| 1 | 2 |\n\n- [x] done\n\n~~gone~~ \"quoted\"[^1]\n\n[^1]: note\n";
    let first = readme_from_content("README.md", text, false).unwrap();
    let second = readme_from_content("README.md", text, false).unwrap();
    assert_eq!(first.content, second.content);
    assert!(first.content.contains("<table>"));
    assert!(first.content.contains("<del>gone</del>"));
}

#[test]
fn other_readme_is_plain_text() {
    let r = readme_from_content("README.MD", b"<b>x</b>", false).unwrap();
    assert!(!r.is_html);
    assert_eq!(r.content, "<b>x</b>");
}

#[test]
fn binary_readme_is_none() {
    assert!(readme_from_content("README.md", b"\0\0", true).is_none());
}

#[test]
fn readme_entry_needs_configuration_and_a_listing_line() {
    let files = vec![file("src", "src"), file("README.md", "README.md")];
    assert!(readme_entry(&None, &files).is_none());
    assert!(readme_entry(&Some("README".to_string()), &files).is_none());
    let found = readme_entry(&Some("README.md".to_string()), &files).unwrap();
    assert_eq!(found.name, "README.md");
}
