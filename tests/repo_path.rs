use gitsite::{RepoPath, RepoPathError};

fn segs(s: &[&str]) -> Vec<String> {
    s.iter().map(|x| x.to_string()).collect()
}

#[test]
fn valid_segments_make_a_path() {
    let p = RepoPath::from_segments(&segs(&["src", ".hidden", "main.rs"])).unwrap();
    assert_eq!(p.as_path(), "src/.hidden/main.rs");
    assert_eq!(p.segments().len(), 3);
}

#[test]
fn no_segments_is_the_root() {
    let p = RepoPath::from_segments(&Vec::new()).unwrap();
    assert_eq!(p.as_path(), "");
    assert_eq!(RepoPath::root().as_path(), "");
}

#[test]
fn parent_segment_is_refused() {
    assert_eq!(
        RepoPath::from_segments(&segs(&["a", "..", "b"])).unwrap_err(),
        RepoPathError::BadSegment("..")
    );
}

#[test]
fn bad_characters_are_refused() {
    assert_eq!(RepoPath::from_segments(&segs(&["*x"])).unwrap_err(), RepoPathError::BadStart('*'));
    assert_eq!(RepoPath::from_segments(&segs(&["x:"])).unwrap_err(), RepoPathError::BadEnd(':'));
    assert_eq!(RepoPath::from_segments(&segs(&["x>"])).unwrap_err(), RepoPathError::BadEnd('>'));
    assert_eq!(RepoPath::from_segments(&segs(&["x<"])).unwrap_err(), RepoPathError::BadEnd('<'));
    assert_eq!(RepoPath::from_segments(&segs(&["a/b"])).unwrap_err(), RepoPathError::BadChar('/'));
}

#[test]
fn first_bad_segment_decides() {
    assert_eq!(
        RepoPath::from_segments(&segs(&["ok", "x:", ".."])).unwrap_err(),
        RepoPathError::BadEnd(':')
    );
    assert_eq!(RepoPath::from_segments(&segs(&["*:"])).unwrap_err(), RepoPathError::BadStart('*'));
}
