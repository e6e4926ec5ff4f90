//! Validated paths inside a repository, built from URL segments.

use crate::text::chars_of;
use vstd::prelude::*;
use vstd::string::StringExecFns;

verus! {

/// Why a segment of a requested path was refused.
#[derive(Clone, Copy, Debug, PartialEq, Eq)]
pub enum RepoPathError {
    /// The segment starts with this character.
    BadStart(char),
    /// The segment holds this character.
    BadChar(char),
    /// The segment as a whole is forbidden.
    BadSegment(&'static str),
    /// The segment ends with this character.
    BadEnd(char),
}

/// A path inside a repository: segments that passed validation.
#[derive(Clone, Debug)]
pub struct RepoPath {
    segments: Vec<String>,
}

/// The segment that names a parent directory.
pub open spec fn parent_segment() -> Seq<char> {
    seq!['.', '.']
}

pub open spec fn starts_with_char(s: Seq<char>, c: char) -> bool {
    s.len() > 0 && s[0] == c
}

pub open spec fn ends_with_char(s: Seq<char>, c: char) -> bool {
    s.len() > 0 && s.last() == c
}

/// Whether a segment may be part of a repository path.
pub open spec fn segment_ok(s: Seq<char>) -> bool {
    &&& s != parent_segment()
    &&& !starts_with_char(s, '*')
    &&& !ends_with_char(s, ':')
    &&& !ends_with_char(s, '>')
    &&& !ends_with_char(s, '<')
    &&& !s.contains('/')
}

/// Whether `e` is the error reported for the refused segment `s`: the first rule that
/// `s` breaks, in the order of `segment_ok`.
pub open spec fn reports(s: Seq<char>, e: RepoPathError) -> bool {
    if s == parent_segment() {
        e matches RepoPathError::BadSegment(w) && w@ == parent_segment()
    } else if starts_with_char(s, '*') {
        e == RepoPathError::BadStart('*')
    } else if ends_with_char(s, ':') {
        e == RepoPathError::BadEnd(':')
    } else if ends_with_char(s, '>') {
        e == RepoPathError::BadEnd('>')
    } else if ends_with_char(s, '<') {
        e == RepoPathError::BadEnd('<')
    } else {
        e == RepoPathError::BadChar('/')
    }
}

/// The views of a sequence of strings.
pub open spec fn strings_view(v: Seq<String>) -> Seq<Seq<char>> {
    v.map_values(|s: String| s@)
}

/// The segments joined by `/`.
pub open spec fn joined(segs: Seq<Seq<char>>) -> Seq<char>
    decreases segs.len(),
{
    if segs.len() == 0 {
        Seq::empty()
    } else if segs.len() == 1 {
        segs[0]
    } else {
        joined(segs.drop_last()) + seq!['/'] + segs.last()
    }
}

impl View for RepoPath {
    type V = Seq<Seq<char>>;

    closed spec fn view(&self) -> Seq<Seq<char>> {
        strings_view(self.segments@)
    }
}

fn check_segment(seg: &str) -> (r: Result<(), RepoPathError>)
    ensures
        r is Ok <==> segment_ok(seg@),
        r is Err ==> reports(seg@, r->Err_0),
{
    let cs = chars_of(seg);
    let n = cs.len();
    if n == 2 && cs[0] == '.' && cs[1] == '.' {
        proof {
            reveal_strlit("..");
        }
        assert(seg@ =~= parent_segment());
        assert(".."@ =~= parent_segment());
        return Err(RepoPathError::BadSegment(".."));
    }
    assert(seg@ != parent_segment());
    if n > 0 && cs[0] == '*' {
        return Err(RepoPathError::BadStart('*'));
    }
    if n > 0 && cs[n - 1] == ':' {
        return Err(RepoPathError::BadEnd(':'));
    }
    if n > 0 && cs[n - 1] == '>' {
        return Err(RepoPathError::BadEnd('>'));
    }
    if n > 0 && cs[n - 1] == '<' {
        return Err(RepoPathError::BadEnd('<'));
    }
    let mut i: usize = 0;
    while i < n
        invariant
            n == cs@.len(),
            cs@ == seg@,
            i <= n,
            forall|k: int| 0 <= k < i ==> cs@[k] != '/',
            seg@ != parent_segment(),
            !starts_with_char(seg@, '*'),
            !ends_with_char(seg@, ':'),
            !ends_with_char(seg@, '>'),
            !ends_with_char(seg@, '<'),
        decreases n - i,
    {
        if cs[i] == '/' {
            return Err(RepoPathError::BadChar('/'));
        }
        i = i + 1;
    }
    Ok(())
}

impl RepoPath {
    /// The path at the repository root.
    pub fn root() -> (r: RepoPath)
        ensures
            r@ == Seq::<Seq<char>>::empty(),
    {
        let r = RepoPath { segments: Vec::new() };
        assert(r@ =~= Seq::<Seq<char>>::empty());
        r
    }

    /// Every segment of a repository path passed validation.
    pub closed spec fn wf(&self) -> bool {
        forall|i: int| 0 <= i < self@.len() ==> segment_ok(#[trigger] self@[i])
    }

    /// Builds a path from URL segments; the first segment that is `..`, starts with
    /// `*`, ends with `:`, `>` or `<`, or holds `/` is refused. Dot files are allowed.
    pub fn from_segments(segments: &Vec<String>) -> (r: Result<RepoPath, RepoPathError>)
        ensures
            r is Ok <==> forall|i: int| 0 <= i < segments@.len() ==> segment_ok(#[trigger] segments@[i]@),
            r matches Ok(p) ==> p@ == strings_view(segments@) && p.wf(),
            r matches Err(e) ==> exists|i: int|
                0 <= i < segments@.len() && !segment_ok(#[trigger] segments@[i]@) && reports(segments@[i]@, e)
                    && forall|j: int| 0 <= j < i ==> segment_ok(#[trigger] segments@[j]@),
    {
        let mut out: Vec<String> = Vec::new();
        let mut i: usize = 0;
        while i < segments.len()
            invariant
                i <= segments@.len(),
                strings_view(out@) == strings_view(segments@.take(i as int)),
                forall|j: int| 0 <= j < i ==> segment_ok(#[trigger] segments@[j]@),
            decreases segments@.len() - i,
        {
            match check_segment(segments[i].as_str()) {
                Err(e) => {
                    return Err(e);
                },
                Ok(()) => {},
            }
            let seg = segments[i].clone();
            assert(seg@ == segments@[i as int]@);
            let ghost before = out@;
            out.push(seg);
            assert(strings_view(out@) =~= strings_view(before).push(seg@));
            assert(strings_view(segments@.take(i + 1)) =~= strings_view(segments@.take(i as int)).push(seg@));
            i = i + 1;
        }
        assert(segments@.take(i as int) =~= segments@);
        Ok(RepoPath { segments: out })
    }

    /// The path as text, segments joined by `/`; the root is the empty string.
    pub fn as_path(&self) -> (r: String)
        ensures
            r@ == joined(self@),
    {
        let mut s = String::new();
        let mut i: usize = 0;
        while i < self.segments.len()
            invariant
                i <= self@.len(),
                self@ == strings_view(self.segments@),
                s@ == joined(self@.take(i as int)),
            decreases self@.len() - i,
        {
            let ghost prev = s@;
            let seg = self.segments[i].as_str();
            assert(seg@ == self@[i as int]);
            if i == 0 {
                s = String::from_str(seg);
                assert(self@.take(1) =~= seq![seg@]);
            } else {
                proof {
                    reveal_strlit("/");
                }
                s = s.concat("/").concat(seg);
                assert(self@.take(i + 1).drop_last() =~= self@.take(i as int));
                assert(s@ =~= prev + seq!['/'] + seg@);
            }
            i = i + 1;
        }
        assert(self@.take(i as int) =~= self@);
        s
    }

    /// The segments of the path.
    pub fn segments(&self) -> (r: &Vec<String>)
        ensures
            strings_view(r@) == self@,
    {
        &self.segments
    }
}

} // verus!
