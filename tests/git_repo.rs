use gitsite::{
    after_entry, after_load, after_root, decode_branch_names, EntryStep, RootStep, Error,
    after_lookup, find_tag, ls_tree, readme_from_object, render_blob, render_readme, FileMode, GitRepo,
    Lookup, Object, RepoMetadata, Stage, Step,
};

struct Fixture {
    path: String,
    branch_tree: git2::Oid,
    tag_tree: git2::Oid,
    tag_commit: git2::Oid,
}

fn blob_tree(repo: &git2::Repository, files: &[(&str, &[u8], i32)]) -> git2::Oid {
    let mut builder = repo.treebuilder(None).unwrap();
    for (name, content, mode) in files {
        let oid = repo.blob(content).unwrap();
        builder.insert(name, oid, *mode).unwrap();
    }
    builder.write().unwrap()
}

fn commit(repo: &git2::Repository, tree: git2::Oid) -> git2::Oid {
    let tree = repo.find_tree(tree).unwrap();
    let sig = git2::Signature::new("tester", "tester@example.org", &git2::Time::new(0, 0)).unwrap();
    repo.commit(None, &sig, &sig, "snapshot", &tree, &[]).unwrap()
}

fn fixture(name: &str) -> Fixture {
    let path = format!("/tmp/gitsite-test-{}", name);
    let repo = git2::Repository::init_bare(&path).unwrap();

    let sub = blob_tree(&repo, &[("inner.txt", b"inner", 0o100644)]);
    let mut builder = repo.treebuilder(None).unwrap();
    builder.insert("README.md", repo.blob(b"# Hello").unwrap(), 0o100644).unwrap();
    builder.insert("logo.png", repo.blob(b"\x89PNG\0\0\0").unwrap(), 0o100644).unwrap();
    builder.insert("docs", sub, 0o040000).unwrap();
    builder.insert("link", repo.blob(b"README.md").unwrap(), 0o120000).unwrap();
    builder.insert("branch.txt", repo.blob(b"on the branch").unwrap(), 0o100755).unwrap();
    let branch_tree = builder.write().unwrap();
    let branch_commit = commit(&repo, branch_tree);

    let tag_tree = blob_tree(&repo, &[("tag.txt", b"on the tag", 0o100644)]);
    let tag_commit = commit(&repo, tag_tree);

    let target = repo.find_commit(branch_commit).unwrap();
    repo.branch("v1", &target, true).unwrap();
    let tagged = repo.find_object(tag_commit, None).unwrap();
    repo.tag_lightweight("v1", &tagged, true).unwrap();
    repo.tag_lightweight("only-tag", &tagged, true).unwrap();
    let sig = git2::Signature::new("tester", "tester@example.org", &git2::Time::new(0, 0)).unwrap();
    repo.tag("annotated", &tagged, &sig, "a release", true).unwrap();

    Fixture { path, branch_tree, tag_tree, tag_commit }
}

fn root_id(repo: &GitRepo, refs: &str) -> Option<git2::Oid> {
    repo.find_ref_root_tree(refs).unwrap().map(|t| t.id())
}

#[test]
fn branch_wins_over_tag_of_the_same_name() {
    let f = fixture("precedence");
    let repo = GitRepo::open(&f.path).unwrap();
    assert_eq!(root_id(&repo, "v1"), Some(f.branch_tree));
    assert_eq!(root_id(&repo, "only-tag"), Some(f.tag_tree));
    assert_eq!(root_id(&repo, "annotated"), Some(f.tag_tree));
    assert_eq!(root_id(&repo, &f.tag_commit.to_string()), Some(f.tag_tree));
    assert_eq!(root_id(&repo, &f.tag_commit.to_string().to_uppercase()), Some(f.tag_tree));
    assert_eq!(root_id(&repo, &f.tag_commit.to_string()[..7]), None);
    assert_eq!(root_id(&repo, "no-such-ref"), None);
    assert_eq!(root_id(&repo, "bad\0name"), None);
    assert_eq!(root_id(&repo, "a..b"), None);
    assert_eq!(root_id(&repo, "deadbeef"), None);
    assert_eq!(root_id(&repo, ""), None);
}

#[test]
fn lookup_steps_follow_the_precedence() {
    match after_lookup(Stage::Branch, Lookup::Found(7)) {
        Step::Done(Ok(Some(7))) => {}
        _ => panic!("a found branch ends the search"),
    }
    assert!(matches!(after_lookup::<u8>(Stage::Branch, Lookup::Absent), Step::Next(Stage::Tag)));
    assert!(matches!(after_lookup::<u8>(Stage::Tag, Lookup::Absent), Step::Next(Stage::CommitId)));
    assert!(matches!(after_lookup::<u8>(Stage::CommitId, Lookup::Absent), Step::Done(Ok(None))));
}

#[test]
fn tags_are_matched_by_exact_name() {
    let tags = vec![b"v1.0".to_vec(), b"v1".to_vec()];
    assert!(find_tag(&tags, "v1"));
    assert!(find_tag(&tags, "v1.0"));
    assert!(!find_tag(&tags, "v"));
    assert!(!find_tag(&tags, "refs/tags/v1"));
    assert!(!find_tag(&Vec::new(), "v1"));
}

#[test]
fn walking_paths() {
    let f = fixture("walk");
    let repo = GitRepo::open(&f.path).unwrap();
    assert!(matches!(repo.find_subtree_object_by_path("v1", "").unwrap(), Some(Object::Tree(_))));
    assert!(matches!(repo.find_subtree_object_by_path("v1", "docs").unwrap(), Some(Object::Tree(_))));
    let blob = repo.find_subtree_object_by_path("v1", "docs/inner.txt").unwrap().unwrap().unwrap_blob();
    assert_eq!(blob.content(), b"inner");
    assert!(repo.find_subtree_object_by_path("v1", "missing").unwrap().is_none());
    assert!(repo.find_subtree_object_by_path("v1", "docs/missing.txt").unwrap().is_none());
    assert!(repo.find_subtree_object_by_path("nope", "docs").unwrap().is_none());
}

#[test]
fn symlinks_are_not_found() {
    let f = fixture("symlink");
    let repo = GitRepo::open(&f.path).unwrap();
    assert!(repo.find_subtree_object_by_path("v1", "link").unwrap().is_none());
    assert!(repo.find_subtree_object_by_path("v1", "README.md").unwrap().is_some());
}

#[test]
fn walk_steps() {
    let f = fixture("walk-steps");
    let repo = GitRepo::open(&f.path).unwrap();
    let root = || repo.find_ref_root_tree("v1");
    assert!(matches!(after_root(root(), ""), RootStep::Done(Ok(Some(Object::Tree(_))))));
    assert!(matches!(after_root(root(), "docs"), RootStep::Descend(_)));
    assert!(matches!(after_root(Ok(None), "docs"), RootStep::Done(Ok(None))));
    let err = Error { context: "finding branch x".to_string(), cause: "io".to_string() };
    match after_root(Err(err), "") {
        RootStep::Done(Err(e)) => assert_eq!(e.context, "finding branch x"),
        _ => panic!("a failed lookup is passed on"),
    }

    assert!(matches!(after_entry(Ok(Some(0o120000))), EntryStep::Missing));
    assert!(matches!(after_entry(Ok(Some(0o160000))), EntryStep::Missing));
    assert!(matches!(after_entry(Ok(None)), EntryStep::Missing));
    assert!(matches!(after_entry(Ok(Some(0o100755))), EntryStep::Load(FileMode::Exe)));
    assert!(matches!(after_entry(Ok(Some(0o040000))), EntryStep::Load(FileMode::Dir)));
    let err = Error { context: "finding tree path a".to_string(), cause: "io".to_string() };
    assert!(matches!(after_entry(Err(err)), EntryStep::Failed(_)));

    let tree = root().unwrap().unwrap();
    assert!(matches!(after_load(FileMode::Dir, Ok(Some(Object::Tree(tree)))), Ok(Some(Object::Tree(_)))));
    let tree = root().unwrap().unwrap();
    assert!(matches!(after_load(FileMode::File, Ok(Some(Object::Tree(tree)))), Ok(None)));
    assert!(matches!(after_load(FileMode::File, Ok(None)), Ok(None)));
}

#[test]
fn branch_names_are_decoded() {
    let names = decode_branch_names(&vec![b"main".to_vec(), b"f\xffx".to_vec()]);
    let names: Vec<String> = names.into_iter().map(|b| b.name).collect();
    assert_eq!(names, vec!["main".to_string(), "f\u{FFFD}x".to_string()]);
}

#[test]
fn walker_does_not_interpret_parent_segments() {
    let f = fixture("dotdot");
    let repo = GitRepo::open(&f.path).unwrap();
    assert!(repo.find_subtree_object_by_path("v1", "branch.txt").unwrap().is_some());
    assert!(repo.find_subtree_object_by_path("v1", "docs/../branch.txt").unwrap().is_none());
}

#[test]
fn listing_a_tree() {
    let f = fixture("listing");
    let repo = GitRepo::open(&f.path).unwrap();
    let tree = repo.find_ref_root_tree("v1").unwrap().unwrap();
    let files = ls_tree(&tree, "");
    let names: Vec<&str> = files.iter().map(|f| f.name.as_str()).collect();
    assert_eq!(names, vec!["docs", "branch.txt", "logo.png", "README.md"]);
    assert_eq!(files[1].mode, FileMode::Exe);
}

#[test]
fn rendering_blobs() {
    let f = fixture("blobs");
    let repo = GitRepo::open(&f.path).unwrap();
    let meta = RepoMetadata::from_parts(
        "v1".to_string(),
        None,
        None,
        vec![("text".to_string(), "*.txt".to_string())],
    );
    let text = repo.find_subtree_object_by_path("v1", "branch.txt").unwrap().unwrap().unwrap_blob();
    let r = render_blob(&text, "branch.txt", &meta);
    assert_eq!(r.text, "on the branch");
    assert_eq!(r.lang, Some("text".to_string()));
    let png = repo.find_subtree_object_by_path("v1", "logo.png").unwrap().unwrap().unwrap_blob();
    let r = render_blob(&png, "logo.png", &meta);
    assert_eq!(r.lang, Some("hexdump".to_string()));
    assert!(r.text.starts_with("00000000: 8950 4e47 0000 00 "));
}

#[test]
fn readme_resolution() {
    let f = fixture("readme");
    let repo = GitRepo::open(&f.path).unwrap();
    let tree = repo.find_ref_root_tree("v1").unwrap().unwrap();
    let files = ls_tree(&tree, "");
    let with = |p: Option<&str>| RepoMetadata::from_parts("v1".to_string(), None, p.map(String::from), Vec::new());

    let readme = render_readme(&repo, "v1", &files, &with(Some("/README.md"))).unwrap();
    assert!(readme.is_html);
    assert_eq!(readme.content, "<h1>Hello</h1>\n");

    assert!(render_readme(&repo, "v1", &files, &with(None)).is_none());
    assert!(render_readme(&repo, "v1", &files, &with(Some("NOTES"))).is_none());
    assert!(render_readme(&repo, "v1", &files, &with(Some("logo.png"))).is_none());
    assert!(render_readme(&repo, "v1", &files, &with(Some("docs"))).is_none());
}

#[test]
fn readme_from_blobs() {
    let f = fixture("readme-blobs");
    let repo = GitRepo::open(&f.path).unwrap();
    let md = repo.find_subtree_object_by_path("v1", "README.md");
    let r = readme_from_object("README.md", md).unwrap();
    assert!(r.is_html);
    assert_eq!(r.content, "<h1>Hello</h1>\n");
    let text = repo.find_subtree_object_by_path("v1", "branch.txt");
    let r = readme_from_object("branch.txt", text).unwrap();
    assert!(!r.is_html);
    assert_eq!(r.content, "on the branch");
    let png = repo.find_subtree_object_by_path("v1", "logo.png");
    assert!(readme_from_object("logo.png", png).is_none());
}

#[test]
fn readme_from_a_tree_or_nothing_is_none() {
    let f = fixture("readme-object");
    let repo = GitRepo::open(&f.path).unwrap();
    let dir = repo.find_subtree_object_by_path("v1", "docs");
    assert!(readme_from_object("docs", dir).is_none());
    assert!(readme_from_object("README.md", Ok(None)).is_none());
}

#[test]
fn branches_are_listed() {
    let f = fixture("branches");
    let repo = GitRepo::open(&f.path).unwrap();
    let names: Vec<String> = repo.branches().unwrap().into_iter().map(|b| b.name).collect();
    assert_eq!(names, vec!["v1".to_string()]);
}

#[test]
fn opening_a_missing_repository_fails() {
    let err = GitRepo::open("/tmp/gitsite-test-does-not-exist/x").err().unwrap();
    assert_eq!(err.context, "reading git repo /tmp/gitsite-test-does-not-exist/x");
    assert!(err.message().starts_with("reading git repo /tmp/gitsite-test-does-not-exist/x: "));
}
