//! Reading a bare repository: resolving a ref to its root tree, walking a path from
//! there, listing trees and rendering blobs and READMEs.

use crate::config::RepoMetadata;
use crate::error::{names, Error};
use crate::listing::{list_files, listing, mode_kind, File, FileMode, TreeEntry};
use crate::render::{readme_entry, readme_from_content, render_content, Readme, RenderedContent};
use crate::text::{decode_lossy, lossy_utf8};
use git2::{Branch as GitBranch, Error as GitError, Object as GitObject, TreeEntry as GitTreeEntry};
use vstd::prelude::*;
use vstd::string::{StringExecFns, StringSliceAdditionalSpecFns};

verus! {

#[verifier::external_type_specification]
#[verifier::external_body]
pub struct ExRepository(git2::Repository);

#[verifier::external_type_specification]
#[verifier::external_body]
pub struct ExGitError(GitError);

#[verifier::external_type_specification]
#[verifier::external_body]
pub struct ExOid(git2::Oid);

#[verifier::external_type_specification]
#[verifier::external_body]
pub struct ExTree<'repo>(git2::Tree<'repo>);

#[verifier::external_type_specification]
#[verifier::external_body]
pub struct ExBlob<'repo>(git2::Blob<'repo>);

#[verifier::external_type_specification]
#[verifier::external_body]
pub struct ExCommit<'repo>(git2::Commit<'repo>);

#[verifier::external_type_specification]
#[verifier::external_body]
pub struct ExBranch<'repo>(GitBranch<'repo>);

#[verifier::external_type_specification]
#[verifier::external_body]
pub struct ExObject<'repo>(GitObject<'repo>);

#[verifier::external_type_specification]
#[verifier::external_body]
pub struct ExTreeEntry<'tree>(GitTreeEntry<'tree>);

/// Whether git takes blob contents for binary data.
pub uninterp spec fn looks_binary(content: Seq<u8>) -> bool;

/// The bytes that a blob holds; a git object never changes once written.
pub uninterp spec fn blob_bytes(blob: git2::Blob) -> Seq<u8>;

/// The entries that a tree holds, in git's order; a git object never changes once written.
pub uninterp spec fn tree_contents(tree: git2::Tree) -> Seq<TreeEntry>;

/// Whether a text is a hexadecimal object id: one to forty hexadecimal digits.
pub open spec fn is_hex_id(s: Seq<char>) -> bool {
    0 < s.len() <= 40 && forall|i: int|
        0 <= i < s.len() ==> ('0' <= #[trigger] s[i] <= '9' || 'a' <= s[i] <= 'f' || 'A' <= s[i] <= 'F')
}

/// Relies on `git2::Repository::open_bare`: opens a repository without a work tree.
#[verifier::external_body]
fn open_bare(path: &str) -> (r: Result<git2::Repository, GitError>) {
    git2::Repository::open_bare(path)
}

/// Relies on `git2::Error::message`: the text of a git error.
#[verifier::external_body]
fn error_message(e: &GitError) -> (r: String) {
    e.message().to_string()
}

/// Relies on `git2::Repository::find_branch`; a missing branch, or a name that cannot
/// be a branch's, is `None`.
#[verifier::external_body]
fn find_local_branch<'r>(repo: &'r git2::Repository, name: &str) -> (r: Result<Option<GitBranch<'r>>, GitError>) {
    match repo.find_branch(name, git2::BranchType::Local) {
        Ok(b) => Ok(Some(b)),
        Err(e) if e.code() == git2::ErrorCode::NotFound => Ok(None),
        Err(e) if e.code() == git2::ErrorCode::InvalidSpec => Ok(None),
        Err(e) => Err(e),
    }
}

/// Relies on `git2::Reference::peel_to_tree`, applied to the branch's reference.
#[verifier::external_body]
fn branch_tree<'r>(branch: GitBranch<'r>) -> (r: Result<git2::Tree<'r>, GitError>) {
    branch.into_reference().peel_to_tree()
}

/// Relies on `git2::Repository::tag_names`: the names of all tags, as bytes.
#[verifier::external_body]
fn tag_names(repo: &git2::Repository) -> (r: Result<Vec<Vec<u8>>, GitError>) {
    Ok(repo.tag_names(None)?.iter_bytes().map(|name| name.to_vec()).collect())
}

/// Relies on `git2::Repository::find_reference` and `git2::Reference::peel_to_tree`: the
/// tree that a reference leads to, through annotated tags and commits.
#[verifier::external_body]
fn reference_tree<'r>(repo: &'r git2::Repository, refname: &str) -> (r: Result<git2::Tree<'r>, GitError>) {
    repo.find_reference(refname)?.peel_to_tree()
}

/// Relies on `git2::Oid::from_str`, which refuses an empty text, more than forty
/// digits and anything that is not a hexadecimal digit.
#[verifier::external_body]
fn parse_oid(s: &str) -> (r: Option<git2::Oid>)
    ensures
        r is Some <==> is_hex_id(s@),
{
    git2::Oid::from_str(s).ok()
}

/// Relies on `git2::Repository::find_commit`; a missing commit is `None`.
#[verifier::external_body]
fn find_commit<'r>(repo: &'r git2::Repository, oid: git2::Oid) -> (r: Result<Option<git2::Commit<'r>>, GitError>) {
    match repo.find_commit(oid) {
        Ok(c) => Ok(Some(c)),
        Err(e) if e.code() == git2::ErrorCode::NotFound => Ok(None),
        Err(e) => Err(e),
    }
}

/// Relies on `git2::Commit::tree`: the root tree of a commit.
#[verifier::external_body]
fn commit_tree<'r>(commit: &git2::Commit<'r>) -> (r: Result<git2::Tree<'r>, GitError>) {
    commit.tree()
}

/// Relies on `git2::Tree::get_path`; a missing path is `None`.
#[verifier::external_body]
fn entry_at_path(tree: &git2::Tree, path: &str) -> (r: Result<Option<GitTreeEntry<'static>>, GitError>) {
    match tree.get_path(std::path::Path::new(path)) {
        Ok(entry) => Ok(Some(entry)),
        Err(e) if e.code() == git2::ErrorCode::NotFound => Ok(None),
        Err(e) => Err(e),
    }
}

/// Relies on `git2::TreeEntry::filemode`: the raw file mode of a tree entry.
#[verifier::external_body]
fn entry_mode(entry: &GitTreeEntry) -> (r: i32) {
    entry.filemode()
}

/// Relies on `git2::TreeEntry::to_object`: the object that a tree entry names.
#[verifier::external_body]
fn entry_object<'r>(entry: &GitTreeEntry, repo: &'r git2::Repository) -> (r: Result<GitObject<'r>, GitError>) {
    entry.to_object(repo)
}

/// Relies on `git2::Object::into_tree` and `git2::Object::into_blob`: trees and blobs are
/// told apart, any other kind of object is `None`.
#[verifier::external_body]
fn tree_or_blob<'r>(object: GitObject<'r>) -> (r: Option<Object<'r>>) {
    match object.into_tree() {
        Ok(tree) => Some(Object::Tree(tree)),
        Err(object) => object.into_blob().ok().map(Object::Blob),
    }
}

/// Relies on `git2::Tree::iter`, with each entry's `name` and `filemode`: the entries
/// that the tree holds.
#[verifier::external_body]
fn tree_entries(tree: &git2::Tree) -> (r: Vec<TreeEntry>)
    ensures
        r@ == tree_contents(*tree),
{
    tree.iter().map(|e| TreeEntry { name: e.name().ok().map(String::from), mode: e.filemode() }).collect()
}

/// Relies on `git2::Blob::content` and `git2::Blob::is_binary`: the blob's bytes, and
/// whether libgit2 takes them for binary data, which it decides from the content alone.
#[verifier::external_body]
fn blob_data(blob: &git2::Blob) -> (r: (Vec<u8>, bool))
    ensures
        r.0@ == blob_bytes(*blob),
        r.1 == looks_binary(r.0@),
{
    (blob.content().to_vec(), blob.is_binary())
}

/// Relies on `git2::Repository::branches` and `git2::Branch::name_bytes`: the names of
/// the local branches.
#[verifier::external_body]
fn local_branch_names(repo: &git2::Repository) -> (r: Result<Vec<Vec<u8>>, GitError>) {
    repo.branches(Some(git2::BranchType::Local))?
        .map(|res| res.and_then(|(branch, _)| branch.name_bytes().map(|n| n.to_vec())))
        .collect()
}



/// An object that a path can lead to.
pub enum Object<'repo> {
    Tree(git2::Tree<'repo>),
    Blob(git2::Blob<'repo>),
}

impl<'repo> Object<'repo> {
    /// The blob inside; only to be called on a blob.
    pub fn unwrap_blob(self) -> (r: git2::Blob<'repo>)
        requires
            self is Blob,
        ensures
            self == Object::Blob(r),
    {
        match self {
            Object::Blob(blob) => blob,
            Object::Tree(_) => vstd::pervasive::unreached(),
        }
    }
}

/// A local branch.
#[derive(Clone, Debug)]
pub struct Branch {
    pub name: String,
}

/// The places where a ref is looked for, in order of precedence.
#[derive(Clone, Copy, Debug, PartialEq, Eq, Structural)]
pub enum Stage {
    /// A local branch with exactly that name.
    Branch,
    /// A tag with exactly that name.
    Tag,
    /// A commit whose hexadecimal id it is.
    CommitId,
}

/// What looking in one place found.
pub enum Lookup<T> {
    Found(T),
    Absent,
    Failed(Error),
}

/// What follows a lookup: an answer, or the next place to look.
pub enum Step<T> {
    Done(Result<Option<T>, Error>),
    Next(Stage),
}

/// The place looked at after `s`, if any.
pub open spec fn next_stage(s: Stage) -> Option<Stage> {
    match s {
        Stage::Branch => Some(Stage::Tag),
        Stage::Tag => Some(Stage::CommitId),
        Stage::CommitId => None,
    }
}

/// How many places remain after `s`.
pub open spec fn stages_after(s: Stage) -> nat {
    match s {
        Stage::Branch => 2,
        Stage::Tag => 1,
        Stage::CommitId => 0,
    }
}

/// The step that a lookup at `stage` leads to: the first place where the ref is found
/// wins, a failure ends the search, and a ref found nowhere is not found.
pub open spec fn step_after<T>(stage: Stage, found: Lookup<T>) -> Step<T> {
    match found {
        Lookup::Found(t) => Step::Done(Ok(Some(t))),
        Lookup::Failed(e) => Step::Done(Err(e)),
        Lookup::Absent => match next_stage(stage) {
            Some(s) => Step::Next(s),
            None => Step::Done(Ok(None)),
        },
    }
}

/// Decides what follows a lookup at `stage`.
pub fn after_lookup<T>(stage: Stage, found: Lookup<T>) -> (r: Step<T>)
    ensures
        r == step_after(stage, found),
{
    match found {
        Lookup::Found(t) => Step::Done(Ok(Some(t))),
        Lookup::Failed(e) => Step::Done(Err(e)),
        Lookup::Absent => match stage {
            Stage::Branch => Step::Next(Stage::Tag),
            Stage::Tag => Step::Next(Stage::CommitId),
            Stage::CommitId => Step::Done(Ok(None)),
        },
    }
}

/// The result of looking for a ref in every place in order, given what each lookup
/// would find.
pub open spec fn resolution<T>(branch: Lookup<T>, tag: Lookup<T>, commit: Lookup<T>) -> Result<Option<T>, Error> {
    match step_after(Stage::Branch, branch) {
        Step::Done(r) => r,
        Step::Next(_) => match step_after(Stage::Tag, tag) {
            Step::Done(r) => r,
            Step::Next(_) => match step_after(Stage::CommitId, commit) {
                Step::Done(r) => r,
                Step::Next(_) => Ok(None),
            },
        },
    }
}

/// A branch wins over a tag or commit of the same name, and a tag over a commit id:
/// once a branch is found, what a tag or commit lookup would find does not matter.
pub proof fn lemma_branch_before_tag_before_commit<T>(t: T, u: T, tag: Lookup<T>, commit: Lookup<T>)
    ensures
        resolution(Lookup::Found(t), tag, commit) == Ok::<Option<T>, Error>(Some(t)),
        resolution(Lookup::Absent, Lookup::Found(u), commit) == Ok::<Option<T>, Error>(Some(u)),
{
}

/// A failure at an earlier place is reported even if a later place holds the ref.
pub proof fn lemma_failure_stops_search<T>(e: Error, tag: Lookup<T>, commit: Lookup<T>)
    ensures
        resolution(Lookup::Failed(e), tag, commit) == Err::<Option<T>, Error>(e),
{
}

fn same_bytes(a: &[u8], b: &[u8]) -> (r: bool)
    ensures
        r == (a@ == b@),
{
    if a.len() != b.len() {
        return false;
    }
    let mut i: usize = 0;
    while i < a.len()
        invariant
            a@.len() == b@.len(),
            i <= a@.len(),
            forall|j: int| 0 <= j < i ==> a@[j] == b@[j],
        decreases a@.len() - i,
    {
        if a[i] != b[i] {
            return false;
        }
        i = i + 1;
    }
    assert(a@ =~= b@);
    true
}

/// Whether one of the tag names is exactly `name`, byte for byte.
pub fn find_tag(tags: &Vec<Vec<u8>>, name: &str) -> (r: bool)
    ensures
        r == exists|i: int| 0 <= i < tags@.len() && (#[trigger] tags@[i])@ == name.spec_bytes(),
{
    let wanted = name.as_bytes();
    let mut i: usize = 0;
    while i < tags.len()
        invariant
            i <= tags@.len(),
            wanted@ == name.spec_bytes(),
            forall|j: int| 0 <= j < i ==> (#[trigger] tags@[j])@ != name.spec_bytes(),
        decreases tags@.len() - i,
    {
        if same_bytes(tags[i].as_slice(), wanted) {
            return true;
        }
        i = i + 1;
    }
    false
}

fn has_nul(s: &str) -> (r: bool)
    ensures
        r == s@.contains('\0'),
{
    let cs = crate::text::chars_of(s);
    let mut i: usize = 0;
    while i < cs.len()
        invariant
            cs@ == s@,
            i <= cs@.len(),
            forall|j: int| 0 <= j < i ==> cs@[j] != '\0',
        decreases cs@.len() - i,
    {
        if cs[i] == '\0' {
            return true;
        }
        i = i + 1;
    }
    false
}

/// Whether each branch's name is the decoding of the stored name at the same place.
pub open spec fn decoded_names(branches: Seq<Branch>, stored: Seq<Seq<u8>>) -> bool {
    stored.len() == branches.len() && forall|i: int|
        0 <= i < branches.len() ==> (#[trigger] branches[i]).name@ == lossy_utf8(stored[i])
}

/// The local branches named by the stored names, decoded as UTF-8 with invalid
/// sequences replaced, in the same order.
pub fn decode_branch_names(names: &Vec<Vec<u8>>) -> (r: Vec<Branch>)
    ensures
        r@.len() == names@.len(),
        forall|i: int| 0 <= i < names@.len() ==> (#[trigger] r@[i]).name@ == lossy_utf8(names@[i]@),
{
    let mut out: Vec<Branch> = Vec::new();
    let mut i: usize = 0;
    while i < names.len()
        invariant
            i <= names@.len(),
            out@.len() == i,
            forall|j: int| 0 <= j < i ==> (#[trigger] out@[j]).name@ == lossy_utf8(names@[j]@),
        decreases names@.len() - i,
    {
        out.push(Branch { name: decode_lossy(names[i].as_slice()) });
        i = i + 1;
    }
    out
}

/// Whether the context of `e` is `action` followed by the ref.
pub open spec fn context_is(e: Error, action: Seq<char>, refs: Seq<char>) -> bool {
    e.context@ == action + " "@ + refs
}

/// Whether `e` reports a failure to read the repository while looking for `refs` at
/// `stage`; its context says what was being done there and names the ref.
pub open spec fn failed_at(stage: Stage, e: Error, refs: Seq<char>) -> bool {
    match stage {
        Stage::Branch => context_is(e, "finding branch"@, refs) || context_is(e, "finding tree for branch"@, refs),
        Stage::Tag => context_is(e, "iterating tags for"@, refs) || context_is(e, "finding tree for tag"@, refs),
        Stage::CommitId => context_is(e, "finding commit"@, refs) || context_is(e, "finding tree from commit"@, refs),
    }
}

/// Whether `e` reports a failure at one of the stages of resolving `refs`.
pub open spec fn failed_resolving(e: Error, refs: Seq<char>) -> bool {
    failed_at(Stage::Branch, e, refs) || failed_at(Stage::Tag, e, refs) || failed_at(Stage::CommitId, e, refs)
}

/// What a walk does once the ref was looked up.
pub enum RootStep<'repo> {
    /// The walk ends with this result.
    Done(Result<Option<Object<'repo>>, Error>),
    /// The path is looked up in this root tree.
    Descend(git2::Tree<'repo>),
}

/// Decides what follows the lookup of the ref: a failure is passed on, a ref that is
/// not found gives `None`, the empty path gives the root tree itself, and any other
/// path is looked up in the root tree.
pub fn after_root<'repo>(root: Result<Option<git2::Tree<'repo>>, Error>, path: &str) -> (r: RootStep<'repo>)
    ensures
        r == root_step(root, path@),
{
    match root {
        Err(e) => RootStep::Done(Err(e)),
        Ok(None) => RootStep::Done(Ok(None)),
        Ok(Some(t)) => if path.is_empty() {
            RootStep::Done(Ok(Some(Object::Tree(t))))
        } else {
            RootStep::Descend(t)
        },
    }
}

/// What a walk does once the path was looked up in the root tree.
#[derive(Debug)]
pub enum EntryStep {
    /// Nothing that a page shows is at the path.
    Missing,
    /// Reading the tree failed.
    Failed(Error),
    /// The object at the path is read; it should be of this kind.
    Load(FileMode),
}

/// Decides what follows the lookup of the path, given the file mode of the entry
/// found there: a failure is passed on, a missing entry or one whose mode is not a
/// directory, regular file or executable (a symlink, a submodule) is not found, and
/// any other entry is read.
pub fn after_entry(entry: Result<Option<i32>, Error>) -> (r: EntryStep)
    ensures
        r == entry_step(entry),
{
    match entry {
        Err(e) => EntryStep::Failed(e),
        Ok(None) => EntryStep::Missing,
        Ok(Some(mode)) => match FileMode::from_mode(mode) {
            None => EntryStep::Missing,
            Some(kind) => EntryStep::Load(kind),
        },
    }
}

/// The result of a walk once the object at the path was read, the entry's mode having
/// said it is of kind `kind`: a failure is passed on, and an object is found only when
/// it is a tree for a directory or a blob for a file.
pub fn after_load<'repo>(kind: FileMode, loaded: Result<Option<Object<'repo>>, Error>) -> (r: Result<Option<Object<'repo>>, Error>)
    ensures
        r == load_step(kind, loaded),
{
    match loaded {
        Err(e) => Err(e),
        Ok(None) => Ok(None),
        Ok(Some(o)) => {
            let is_tree = match &o {
                Object::Tree(_) => true,
                Object::Blob(_) => false,
            };
            let is_dir = match kind {
                FileMode::Dir => true,
                _ => false,
            };
            if is_dir == is_tree {
                Ok(Some(o))
            } else {
                Ok(None)
            }
        },
    }
}

/// What follows the lookup of the ref: a failure is passed on, a ref that is not found
/// gives `None`, the empty path gives the root tree itself, and any other path is
/// looked up in the root tree.
pub open spec fn root_step<'repo>(root: Result<Option<git2::Tree<'repo>>, Error>, path: Seq<char>) -> RootStep<'repo> {
    match root {
        Err(e) => RootStep::Done(Err(e)),
        Ok(None) => RootStep::Done(Ok(None)),
        Ok(Some(t)) => if path.len() == 0 {
            RootStep::Done(Ok(Some(Object::Tree(t))))
        } else {
            RootStep::Descend(t)
        },
    }
}

/// What follows the lookup of the path, given the file mode of the entry found: a
/// failure is passed on, a missing entry or one whose mode is not a directory, regular
/// file or executable (a symlink, a submodule) is not found, and any other is read.
pub open spec fn entry_step(entry: Result<Option<i32>, Error>) -> EntryStep {
    match entry {
        Err(e) => EntryStep::Failed(e),
        Ok(None) => EntryStep::Missing,
        Ok(Some(mode)) => match mode_kind(mode) {
            None => EntryStep::Missing,
            Some(kind) => EntryStep::Load(kind),
        },
    }
}

/// The result once the object at the path was read, its entry's mode having said it
/// is of kind `kind`: a failure is passed on, and an object is found only when it is a
/// tree for a directory or a blob for a file.
pub open spec fn load_step<'repo>(kind: FileMode, loaded: Result<Option<Object<'repo>>, Error>) -> Result<Option<Object<'repo>>, Error> {
    match loaded {
        Err(e) => Err(e),
        Ok(None) => Ok(None),
        Ok(Some(o)) => if (kind == FileMode::Dir) == (o is Tree) {
            Ok(Some(o))
        } else {
            Ok(None)
        },
    }
}

/// The result of a walk whose lookups of the ref, of the entry at the path (as its
/// file mode) and of the object it names found `root`, `entry` and `loaded`.
pub open spec fn walk<'repo>(
    root: Result<Option<git2::Tree<'repo>>, Error>,
    path: Seq<char>,
    entry: Result<Option<i32>, Error>,
    loaded: Result<Option<Object<'repo>>, Error>,
) -> Result<Option<Object<'repo>>, Error> {
    match root_step(root, path) {
        RootStep::Done(r) => r,
        RootStep::Descend(_) => match entry_step(entry) {
            EntryStep::Missing => Ok(None),
            EntryStep::Failed(e) => Err(e),
            EntryStep::Load(kind) => load_step(kind, loaded),
        },
    }
}

/// Whether `r` is the walk of `path` in the tree of `refs` over lookups that found
/// `root`, `entry` and `loaded`, where a failure to resolve the ref names its stage
/// and the ref, and a failure further down names the path.
pub open spec fn walked_from<'repo>(
    r: Result<Option<Object<'repo>>, Error>,
    refs: Seq<char>,
    path: Seq<char>,
    root: Result<Option<git2::Tree<'repo>>, Error>,
    entry: Result<Option<i32>, Error>,
    loaded: Result<Option<Object<'repo>>, Error>,
) -> bool {
    &&& r == walk(root, path, entry, loaded)
    &&& root matches Err(e) ==> failed_resolving(e, refs)
    &&& entry matches Err(e) ==> names(e, path)
    &&& loaded matches Err(e) ==> names(e, path)
}

/// Whether a lookup at `stage` could have found `l` for `refs`: a failure names the
/// stage and the ref, a text holding a NUL is no branch name, and a text that is not a
/// hexadecimal id is no commit id.
pub open spec fn lookup_fits<T>(stage: Stage, l: Lookup<T>, refs: Seq<char>) -> bool {
    &&& l matches Lookup::Failed(e) ==> failed_at(stage, e, refs)
    &&& stage == Stage::Branch && refs.contains('\0') ==> l is Absent
    &&& stage == Stage::CommitId && !is_hex_id(refs) ==> l is Absent
}

/// Whether `r` is the resolution of `refs` over lookups at the three stages that found
/// `b`, `t` and `c`.
pub open spec fn resolved_from<T>(r: Result<Option<T>, Error>, refs: Seq<char>, b: Lookup<T>, t: Lookup<T>, c: Lookup<T>) -> bool {
    &&& r == resolution(b, t, c)
    &&& lookup_fits(Stage::Branch, b, refs)
    &&& lookup_fits(Stage::Tag, t, refs)
    &&& lookup_fits(Stage::CommitId, c, refs)
}

/// A bare repository opened for reading.
pub struct GitRepo {
    git_repo: git2::Repository,
}

impl GitRepo {
    /// Opens the bare repository at `path`.
    pub fn open(path: &str) -> (r: Result<GitRepo, Error>)
        ensures
            r matches Err(e) ==> e.context@ == "reading git repo"@ + " "@ + path@,
    {
        match open_bare(path) {
            Ok(git_repo) => Ok(GitRepo { git_repo }),
            Err(e) => Err(Error::new("reading git repo", path, error_message(&e))),
        }
    }

    /// Looks for `refs` at one place and says what was found there. A text that is not
    /// a hexadecimal id is simply absent from the commit ids.
    pub fn lookup(&self, stage: Stage, refs: &str) -> (r: Lookup<git2::Tree<'_>>)
        ensures
            lookup_fits(stage, r, refs@),
    {
        match stage {
            Stage::Branch => if has_nul(refs) {
                Lookup::Absent
            } else {
                match find_local_branch(&self.git_repo, refs) {
                    Err(e) => Lookup::Failed(Error::new("finding branch", refs, error_message(&e))),
                    Ok(None) => Lookup::Absent,
                    Ok(Some(branch)) => match branch_tree(branch) {
                        Ok(tree) => Lookup::Found(tree),
                        Err(e) => Lookup::Failed(Error::new("finding tree for branch", refs, error_message(&e))),
                    },
                }
            },
            Stage::Tag => match tag_names(&self.git_repo) {
                Err(e) => Lookup::Failed(Error::new("iterating tags for", refs, error_message(&e))),
                Ok(tags) => if find_tag(&tags, refs) {
                    let refname = String::from_str("refs/tags/").concat(refs);
                    match reference_tree(&self.git_repo, refname.as_str()) {
                        Ok(tree) => Lookup::Found(tree),
                        Err(e) => Lookup::Failed(Error::new("finding tree for tag", refs, error_message(&e))),
                    }
                } else {
                    Lookup::Absent
                },
            },
            Stage::CommitId => match parse_oid(refs) {
                None => Lookup::Absent,
                Some(oid) => match find_commit(&self.git_repo, oid) {
                    Err(e) => Lookup::Failed(Error::new("finding commit", refs, error_message(&e))),
                    Ok(None) => Lookup::Absent,
                    Ok(Some(commit)) => match commit_tree(&commit) {
                        Ok(tree) => Lookup::Found(tree),
                        Err(e) => Lookup::Failed(Error::new("finding tree from commit", refs, error_message(&e))),
                    },
                },
            },
        }
    }

    /// The root tree of a branch, tag or commit id, looked for in that order; `None`
    /// when it is none of them. A failure to read the repository is an error whose
    /// context names the stage and the ref.
    ///
    /// A tag is followed through whatever it points at: an annotated tag to its
    /// commit, a commit to its tree. This is how git itself reads a tag; the cost is
    /// that a tag pointing straight at a tree is taken as that tree too, while a tag
    /// pointing at a blob is an error, not a missing ref.
    pub fn find_ref_root_tree(&self, refs: &str) -> (r: Result<Option<git2::Tree<'_>>, Error>)
        ensures
            exists|b: Lookup<git2::Tree<'_>>, t: Lookup<git2::Tree<'_>>, c: Lookup<git2::Tree<'_>>|
                #[trigger] resolved_from(r, refs@, b, t, c),
            r matches Err(e) ==> failed_resolving(e, refs@),
    {
        let mut stage = Stage::Branch;
        let ghost mut gb: Lookup<git2::Tree<'_>> = Lookup::Absent;
        let ghost mut gt: Lookup<git2::Tree<'_>> = Lookup::Absent;
        let ghost mut gc: Lookup<git2::Tree<'_>> = Lookup::Absent;
        loop
            invariant
                lookup_fits(Stage::Branch, gb, refs@),
                lookup_fits(Stage::Tag, gt, refs@),
                lookup_fits(Stage::CommitId, gc, refs@),
                gt is Absent && gc is Absent || stage != Stage::Branch,
                stage == Stage::Tag ==> gb is Absent && gc is Absent,
                stage == Stage::CommitId ==> gb is Absent && gt is Absent,
            decreases stages_after(stage),
        {
            let found = self.lookup(stage, refs);
            proof {
                match stage {
                    Stage::Branch => gb = found,
                    Stage::Tag => gt = found,
                    Stage::CommitId => gc = found,
                }
            }
            match after_lookup(stage, found) {
                Step::Done(r) => {
                    assert(resolved_from(r, refs@, gb, gt, gc));
                    return r;
                },
                Step::Next(s) => {
                    stage = s;
                },
            }
        }
    }

    /// The object at `path` (segments joined by `/`) in the tree of `refs`: the root
    /// tree for the empty path; `None` when the ref or the path does not exist or the
    /// path leads to something other than a directory or a regular or executable file
    /// (a symlink or a submodule). The path is handed to git as it is: a `..` segment
    /// is not interpreted here, callers refuse it beforehand.
    pub fn find_subtree_object_by_path(&self, refs: &str, path: &str) -> (r: Result<Option<Object<'_>>, Error>)
        ensures
            exists|
                root: Result<Option<git2::Tree<'_>>, Error>,
                entry: Result<Option<i32>, Error>,
                loaded: Result<Option<Object<'_>>, Error>,
            | #[trigger] walked_from(r, refs@, path@, root, entry, loaded),
            path@.len() == 0 ==> (r matches Ok(Some(o)) ==> o is Tree),
            r matches Err(e) ==> failed_resolving(e, refs@) || names(e, path@),
    {
        let root = self.find_ref_root_tree(refs);
        let ghost groot = root;
        let tree = match after_root(root, path) {
            RootStep::Done(r) => {
                assert(walked_from(r, refs@, path@, groot, Ok(None), Ok(None)));
                return r;
            },
            RootStep::Descend(tree) => tree,
        };
        let (entry, found) = match entry_at_path(&tree, path) {
            Err(e) => (None, Err(Error::new("finding tree path", path, error_message(&e)))),
            Ok(None) => (None, Ok(None)),
            Ok(Some(entry)) => {
                let mode = entry_mode(&entry);
                (Some(entry), Ok(Some(mode)))
            },
        };
        let ghost gentry = found;
        match after_entry(found) {
            EntryStep::Missing => {
                let r = Ok(None);
                assert(walked_from(r, refs@, path@, groot, gentry, Ok(None)));
                r
            },
            EntryStep::Failed(e) => {
                let r = Err(e);
                assert(walked_from(r, refs@, path@, groot, gentry, Ok(None)));
                r
            },
            EntryStep::Load(kind) => match entry {
                Some(entry) => {
                    let loaded = match entry_object(&entry, &self.git_repo) {
                        Err(e) => Err(Error::new("finding path object", path, error_message(&e))),
                        Ok(object) => Ok(tree_or_blob(object)),
                    };
                    let ghost gloaded = loaded;
                    let r = after_load(kind, loaded);
                    assert(walked_from(r, refs@, path@, groot, gentry, gloaded));
                    r
                },
                None => vstd::pervasive::unreached(),
            },
        }
    }

    /// The local branches, names decoded as UTF-8 with invalid sequences replaced.
    pub fn branches(&self) -> (r: Result<Vec<Branch>, Error>)
        ensures
            r matches Ok(v) ==> exists|stored: Seq<Seq<u8>>| #[trigger] decoded_names(v@, stored),
    {
        let names = match local_branch_names(&self.git_repo) {
            Ok(names) => names,
            Err(e) => return Err(Error::new("reading branches of", "repository", error_message(&e))),
        };
        let out = decode_branch_names(&names);
        let ghost stored = names@.map_values(|n: Vec<u8>| n@);
        assert(decoded_names(out@, stored));
        let r = Ok(out);
        assert(r matches Ok(v) && decoded_names(v@, stored));
        r
    }
}

/// The listing of a tree found at `dir`.
pub fn ls_tree(tree: &git2::Tree, dir: &str) -> (r: Vec<File>)
    ensures
        crate::listing::files_view(r@) == listing(dir@, tree_contents(*tree)),
{
    let entries = tree_entries(tree);
    list_files(&entries, dir)
}

/// The contents of a blob named `name` as a page shows them.
pub fn render_blob(blob: &git2::Blob, name: &str, meta: &RepoMetadata) -> (r: RenderedContent)
    ensures
        crate::render::rendered_as(r, blob_bytes(*blob), looks_binary(blob_bytes(*blob)), name@, meta.overrides@),
{
    let (content, is_binary) = blob_data(blob);
    render_content(content.as_slice(), is_binary, name, &meta.overrides)
}

/// The README shown below the listing `files` of the tree of `refs`: none when no
/// README is configured, when the listing has no line with its path, when the path does
/// not lead to a blob or cannot be read, and when the blob is binary.
pub fn render_readme(repo: &GitRepo, refs: &str, files: &Vec<File>, meta: &RepoMetadata) -> (r: Option<Readme>)
    ensures
        meta.readme_path is None ==> r is None,
        meta.readme_path matches Some(p) && crate::render::line_index(crate::listing::files_view(files@), p@) is None
            ==> r is None,
        r matches Some(x) ==> (meta.readme_path matches Some(p) && crate::render::line_index(
            crate::listing::files_view(files@),
            p@,
        ) matches Some(i) && exists|content: Seq<u8>|
            !looks_binary(content) && crate::render::readme_of(x, files@[i].name@, content)),
{
    let file = match readme_entry(&meta.readme_path, files) {
        Some(f) => f,
        None => return None,
    };
    readme_from_object(file.name.as_str(), repo.find_subtree_object_by_path(refs, file.path.as_str()))
}

/// The README shown for what its path led to: only a blob that is not binary gives one;
/// a tree, a missing path or a failure to read gives none.
pub fn readme_from_object(name: &str, found: Result<Option<Object<'_>>, Error>) -> (r: Option<Readme>)
    ensures
        !(found matches Ok(Some(Object::Blob(_)))) ==> r is None,
        found matches Ok(Some(Object::Blob(b))) ==> (r is None <==> looks_binary(blob_bytes(b))) && (r matches Some(
            x,
        ) ==> crate::render::readme_of(x, name@, blob_bytes(b))),
        r matches Some(x) ==> exists|content: Seq<u8>|
            !looks_binary(content) && crate::render::readme_of(x, name@, content),
{
    let blob = match found {
        Ok(Some(Object::Blob(blob))) => blob,
        Ok(Some(Object::Tree(_))) => return None,
        Ok(None) => return None,
        Err(_) => return None,
    };
    let (content, is_binary) = blob_data(&blob);
    readme_from_content(name, content.as_slice(), is_binary)
}

} // verus!
