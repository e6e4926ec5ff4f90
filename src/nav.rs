//! The breadcrumb of a page: one step for the repository root and one for each
//! directory down to the current path.

use crate::repo_path::{joined, RepoPath};
use vstd::prelude::*;
use vstd::string::StringExecFns;

verus! {

/// One step of the breadcrumb.
#[derive(Clone, Debug)]
pub struct NavSegment {
    /// The repository's name for the root, the last segment otherwise.
    pub name: String,
    /// The path of the step from the repository root.
    pub path: String,
}

/// The steps from the root of `repo_name` down to `path`, root first. A page outside
/// any repository has none.
pub fn path_nav(repo_name: Option<&str>, path: &RepoPath) -> (r: Vec<NavSegment>)
    ensures
        repo_name is None ==> r@.len() == 0,
        repo_name matches Some(n) ==> {
            &&& r@.len() == path@.len() + 1
            &&& r@[0].name@ == n@
            &&& r@[0].path@ == Seq::<char>::empty()
            &&& forall|i: int| 1 <= i <= path@.len() ==> {
                &&& (#[trigger] r@[i]).name@ == path@[i - 1]
                &&& r@[i].path@ == joined(path@.take(i))
            }
        },
{
    let name = match repo_name {
        Some(n) => n,
        None => return Vec::new(),
    };
    let segments = path.segments();
    let mut out: Vec<NavSegment> = Vec::new();
    out.push(NavSegment { name: String::from_str(name), path: String::new() });
    let mut prefix = String::new();
    let mut i: usize = 0;
    assert(path@.take(0) =~= Seq::<Seq<char>>::empty());
    while i < segments.len()
        invariant
            i <= path@.len(),
            crate::repo_path::strings_view(segments@) == path@,
            out@.len() == i + 1,
            out@[0].name@ == name@,
            out@[0].path@ == Seq::<char>::empty(),
            prefix@ == joined(path@.take(i as int)),
            forall|k: int| 1 <= k <= i ==> {
                &&& (#[trigger] out@[k]).name@ == path@[k - 1]
                &&& out@[k].path@ == joined(path@.take(k))
            },
        decreases path@.len() - i,
    {
        let seg = segments[i].as_str();
        assert(seg@ == path@[i as int]);
        if i == 0 {
            prefix = String::from_str(seg);
            assert(path@.take(1) =~= seq![seg@]);
        } else {
            proof {
                reveal_strlit("/");
            }
            let ghost before = prefix@;
            prefix = prefix.concat("/").concat(seg);
            assert(path@.take(i + 1).drop_last() =~= path@.take(i as int));
            assert(prefix@ =~= before + seq!['/'] + seg@);
        }
        out.push(NavSegment { name: String::from_str(seg), path: prefix.clone() });
        i = i + 1;
    }
    out
}

} // verus!
