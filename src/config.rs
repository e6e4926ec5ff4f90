//! Per-repository metadata, as read from the repository's descriptor file.

use crate::text::{chars_of, string_from_chars};
use vstd::prelude::*;

verus! {

/// Whether `glob::Pattern::new` accepts a pattern.
pub uninterp spec fn glob_valid(pattern: Seq<char>) -> bool;

/// Whether a name matches a glob pattern, as `glob::Pattern::matches` decides it.
pub uninterp spec fn glob_match(pattern: Seq<char>, name: Seq<char>) -> bool;

/// Relies on `glob::Pattern::new`: whether it accepts a pattern depends on the pattern alone.
#[verifier::external_body]
fn glob_compiles(pattern: &str) -> (r: bool)
    ensures
        r == glob_valid(pattern@),
{
    glob::Pattern::new(pattern).is_ok()
}

/// Relies on `glob::Pattern::new` and `glob::Pattern::matches`: a pattern that compiles
/// matches a name or not depending on the two texts alone.
#[verifier::external_body]
pub(crate) fn glob_matches(pattern: &str, name: &str) -> (r: bool)
    ensures
        r == (glob_valid(pattern@) && glob_match(pattern@, name@)),
{
    match glob::Pattern::new(pattern) {
        Ok(p) => p.matches(name),
        Err(_) => false,
    }
}

/// A language tag given to files whose name matches a glob pattern.
#[derive(Clone, Debug, PartialEq, Eq)]
pub struct Override {
    pub lang: String,
    pub pattern: String,
}

/// Access settings of a repository; none are defined yet.
#[derive(Clone, Copy, Debug, Default, PartialEq, Eq, Structural)]
pub struct Access {}

/// The metadata of one repository.
#[derive(Clone, Debug)]
pub struct RepoMetadata {
    pub default_branch: String,
    pub description: Option<String>,
    /// The README's path from the repository root, without a leading `/`.
    pub readme_path: Option<String>,
    pub access: Access,
    /// Language overrides in the order they were declared.
    pub overrides: Vec<Override>,
}

/// A path with its leading separators taken off.
pub open spec fn relative_path(p: Seq<char>) -> Seq<char>
    decreases p.len(),
{
    if p.len() > 0 && p[0] == '/' {
        relative_path(p.skip(1))
    } else {
        p
    }
}

/// The views of the declared `(language, pattern)` pairs.
pub open spec fn pairs_view(pairs: Seq<(String, String)>) -> Seq<(Seq<char>, Seq<char>)> {
    pairs.map_values(|p: (String, String)| (p.0@, p.1@))
}

/// The views of a list of overrides.
pub open spec fn overrides_view(o: Seq<Override>) -> Seq<(Seq<char>, Seq<char>)> {
    o.map_values(|x: Override| (x.lang@, x.pattern@))
}

/// The declared pairs whose pattern compiles, in declared order.
pub open spec fn valid_overrides(pairs: Seq<(Seq<char>, Seq<char>)>) -> Seq<(Seq<char>, Seq<char>)> {
    pairs.filter(|p: (Seq<char>, Seq<char>)| glob_valid(p.1))
}

/// The language of the first override whose pattern matches `name`.
pub open spec fn override_for(o: Seq<(Seq<char>, Seq<char>)>, name: Seq<char>) -> Option<Seq<char>>
    decreases o.len(),
{
    if o.len() == 0 {
        None
    } else if glob_valid(o[0].1) && glob_match(o[0].1, name) {
        Some(o[0].0)
    } else {
        override_for(o.skip(1), name)
    }
}

/// Takes the leading separators off a README path, so that a path given from the
/// repository root reads as relative to it.
pub fn relative_readme_path(p: &str) -> (r: String)
    ensures
        r@ == relative_path(p@),
{
    let cs = chars_of(p);
    let mut i: usize = 0;
    assert(cs@.skip(0) =~= cs@);
    while i < cs.len() && cs[i] == '/'
        invariant
            i <= cs@.len(),
            cs@ == p@,
            relative_path(p@) == relative_path(cs@.skip(i as int)),
        decreases cs@.len() - i,
    {
        assert(cs@.skip(i as int).skip(1) =~= cs@.skip(i + 1));
        i = i + 1;
    }
    let mut rest: Vec<char> = Vec::new();
    let mut k: usize = i;
    while k < cs.len()
        invariant
            i <= k <= cs@.len(),
            rest@ == cs@.subrange(i as int, k as int),
        decreases cs@.len() - k,
    {
        rest.push(cs[k]);
        k = k + 1;
        assert(rest@ =~= cs@.subrange(i as int, k as int));
    }
    assert(rest@ =~= cs@.skip(i as int));
    string_from_chars(&rest)
}

/// Keeps the declared overrides whose pattern compiles, in declared order; a pattern
/// that does not compile is dropped alone.
pub fn compile_overrides(pairs: Vec<(String, String)>) -> (r: Vec<Override>)
    ensures
        overrides_view(r@) == valid_overrides(pairs_view(pairs@)),
{
    let ghost orig = pairs@;
    let mut rest = pairs;
    let mut out: Vec<Override> = Vec::new();
    let ghost mut i: int = 0;
    while rest.len() > 0
        invariant
            0 <= i <= orig.len(),
            rest@ == orig.skip(i),
            overrides_view(out@) == valid_overrides(pairs_view(orig.take(i))),
        decreases rest@.len(),
    {
        let (lang, pattern) = rest.remove(0);
        proof {
            assert(pairs_view(orig.take(i + 1)) =~= pairs_view(orig.take(i)).push((lang@, pattern@)));
            pairs_view(orig.take(i)).lemma_filter_push((lang@, pattern@), |p: (Seq<char>, Seq<char>)| glob_valid(p.1));
        }
        let ghost before = out@;
        if glob_compiles(pattern.as_str()) {
            out.push(Override { lang, pattern });
            assert(overrides_view(out@) =~= overrides_view(before).push((lang@, pattern@)));
        }
        proof {
            i = i + 1;
        }
        assert(rest@ =~= orig.skip(i));
    }
    assert(orig.take(i) =~= orig);
    out
}

/// The language tag of the first override, in declared order, whose pattern matches
/// the file name.
pub fn select_lang(overrides: &Vec<Override>, name: &str) -> (r: Option<String>)
    ensures
        r matches Some(l) ==> override_for(overrides_view(overrides@), name@) == Some(l@),
        r is None ==> override_for(overrides_view(overrides@), name@) is None,
{
    let ghost all = overrides_view(overrides@);
    let mut i: usize = 0;
    assert(all.skip(0) =~= all);
    while i < overrides.len()
        invariant
            i <= overrides@.len(),
            all == overrides_view(overrides@),
            override_for(all, name@) == override_for(all.skip(i as int), name@),
        decreases overrides@.len() - i,
    {
        let o = &overrides[i];
        assert(all.skip(i as int)[0] == (o.lang@, o.pattern@));
        if glob_matches(o.pattern.as_str(), name) {
            return Some(o.lang.clone());
        }
        assert(all.skip(i as int).skip(1) =~= all.skip(i + 1));
        i = i + 1;
    }
    None
}

impl RepoMetadata {
    /// Builds the metadata from the descriptor's fields: the README path is made
    /// relative to the repository root and overrides whose pattern does not compile are
    /// dropped.
    pub fn from_parts(
        default_branch: String,
        description: Option<String>,
        readme: Option<String>,
        overrides: Vec<(String, String)>,
    ) -> (r: RepoMetadata)
        ensures
            r.default_branch == default_branch,
            r.description == description,
            r.readme_path is Some <==> readme is Some,
            r.readme_path matches Some(p) ==> p@ == relative_path(readme->Some_0@),
            overrides_view(r.overrides@) == valid_overrides(pairs_view(overrides@)),
    {
        let readme_path = match &readme {
            Some(p) => Some(relative_readme_path(p.as_str())),
            None => None,
        };
        RepoMetadata {
            default_branch,
            description,
            readme_path,
            access: Access {},
            overrides: compile_overrides(overrides),
        }
    }
}

} // verus!
