use crate::text::chars_of;
use vstd::prelude::*;
use vstd::string::StringExecFns;

verus! {

/// The kinds of tree entries that a listing shows.
#[derive(Clone, Copy, Debug, PartialEq, Eq, Structural)]
pub enum FileMode {
    File,
    Dir,
    Exe,
}

/// The git file mode of a regular, non-executable file.
pub const MODE_FILE: i32 = 0o100644;

/// The git file mode of an executable file.
pub const MODE_EXE: i32 = 0o100755;

/// The git file mode of a subdirectory.
pub const MODE_DIR: i32 = 0o040000;

/// The kind that a raw git file mode stands for, if it is one that a listing shows.
pub open spec fn mode_kind(mode: i32) -> Option<FileMode> {
    if mode == MODE_FILE {
        Some(FileMode::File)
    } else if mode == MODE_EXE {
        Some(FileMode::Exe)
    } else if mode == MODE_DIR {
        Some(FileMode::Dir)
    } else {
        None
    }
}

impl FileMode {
    /// Decodes a raw git file mode; symlinks, submodules and anything else give `None`.
    pub fn from_mode(mode: i32) -> (r: Option<FileMode>)
        ensures
            r == mode_kind(mode),
    {
        if mode == MODE_FILE {
            Some(FileMode::File)
        } else if mode == MODE_EXE {
            Some(FileMode::Exe)
        } else if mode == MODE_DIR {
            Some(FileMode::Dir)
        } else {
            None
        }
    }
}

/// One raw entry of a git tree: its name (absent when it is not UTF-8) and its file mode.
#[derive(Clone, Debug)]
pub struct TreeEntry {
    pub name: Option<String>,
    pub mode: i32,
}

/// One line of a directory listing.
#[derive(Clone, Debug)]
pub struct File {
    pub name: String,
    /// The path of the entry from the repository root.
    pub path: String,
    pub mode: FileMode,
}

/// What a listing line says, as plain values.
pub struct FileView {
    pub name: Seq<char>,
    pub path: Seq<char>,
    pub mode: FileMode,
}

impl View for File {
    type V = FileView;

    open spec fn view(&self) -> FileView {
        FileView { name: self.name@, path: self.path@, mode: self.mode }
    }
}

/// The views of a sequence of listing lines.
pub open spec fn files_view(files: Seq<File>) -> Seq<FileView> {
    files.map_values(|f: File| f@)
}

/// The path of `name` inside the directory `dir` (the empty path is the root).
pub open spec fn join_path(dir: Seq<char>, name: Seq<char>) -> Seq<char> {
    if dir.len() == 0 {
        name
    } else {
        dir + seq!['/'] + name
    }
}

/// The listing line of a tree entry, if the entry is shown at all.
pub open spec fn entry_line(dir: Seq<char>, e: TreeEntry) -> Option<FileView> {
    match e.name {
        Some(name) => match mode_kind(e.mode) {
            Some(mode) => Some(FileView { name: name@, path: join_path(dir, name@), mode }),
            None => None,
        },
        None => None,
    }
}

/// The lines shown for the entries of a tree, in tree order.
pub open spec fn shown_lines(dir: Seq<char>, entries: Seq<TreeEntry>) -> Seq<FileView> {
    entries.filter_map(|e: TreeEntry| entry_line(dir, e))
}

/// The code of a character with ASCII upper case folded to lower case.
pub open spec fn folded_code(c: char) -> u32 {
    if 65 <= c as u32 <= 90 {
        (c as u32 + 32) as u32
    } else {
        c as u32
    }
}

/// The key that a name is sorted by.
pub open spec fn name_key(name: Seq<char>) -> Seq<u32> {
    name.map_values(|c: char| folded_code(c))
}

/// Lexicographic order on keys, code by code, a prefix first.
pub open spec fn key_le(a: Seq<u32>, b: Seq<u32>) -> bool
    decreases a.len(),
{
    if a.len() == 0 {
        true
    } else if b.len() == 0 {
        false
    } else if a[0] != b[0] {
        a[0] < b[0]
    } else {
        key_le(a.skip(1), b.skip(1))
    }
}

/// Whether line `a` may stand before line `b` when sorting by name.
pub open spec fn name_le(a: FileView, b: FileView) -> bool {
    key_le(name_key(a.name), name_key(b.name))
}

/// Inserts `f` into `s` after every line that may stand before it.
pub open spec fn insert_by_name(s: Seq<FileView>, f: FileView) -> Seq<FileView>
    decreases s.len(),
{
    if s.len() == 0 {
        seq![f]
    } else if name_le(s.last(), f) {
        s.push(f)
    } else {
        insert_by_name(s.drop_last(), f).push(s.last())
    }
}

/// The stable sort of `s` by case-folded name.
pub open spec fn sort_by_name(s: Seq<FileView>) -> Seq<FileView>
    decreases s.len(),
{
    if s.len() == 0 {
        s
    } else {
        insert_by_name(sort_by_name(s.drop_last()), s.last())
    }
}

/// Whether every line may stand before the next one.
pub open spec fn sorted_by_name(s: Seq<FileView>) -> bool {
    forall|i: int| 0 <= i < s.len() - 1 ==> name_le(#[trigger] s[i], s[i + 1])
}

proof fn lemma_key_le_total(a: Seq<u32>, b: Seq<u32>)
    ensures
        key_le(a, b) || key_le(b, a),
    decreases a.len(),
{
    if a.len() > 0 && b.len() > 0 && a[0] == b[0] {
        lemma_key_le_total(a.skip(1), b.skip(1));
    }
}

proof fn lemma_insert_sorted(s: Seq<FileView>, f: FileView)
    requires
        sorted_by_name(s),
    ensures
        sorted_by_name(insert_by_name(s, f)),
        insert_by_name(s, f).to_multiset() == s.to_multiset().insert(f),
        insert_by_name(s, f).len() == s.len() + 1,
        insert_by_name(s, f).last() == f || (s.len() > 0 && insert_by_name(s, f).last() == s.last()),
    decreases s.len(),
{
    broadcast use vstd::seq_lib::to_multiset_build;

    if s.len() == 0 {
        assert(seq![f] =~= s.push(f));
    } else if name_le(s.last(), f) {
    } else {
        let d = s.drop_last();
        let x = s.last();
        assert(s =~= d.push(x));
        lemma_insert_sorted(d, f);
        let r = insert_by_name(d, f);
        lemma_key_le_total(name_key(x.name), name_key(f.name));
        if r.last() != f {
            assert(name_le(s[s.len() - 2], s[s.len() - 1]));
        }
        assert(name_le(r.last(), x));
        assert(r.push(x).to_multiset() =~= s.to_multiset().insert(f));
    }
}

/// Sorting by name gives lines in name order, and exactly the lines it was given.
pub proof fn lemma_sort_by_name_sorts(s: Seq<FileView>)
    ensures
        sorted_by_name(sort_by_name(s)),
        sort_by_name(s).to_multiset() == s.to_multiset(),
    decreases s.len(),
{
    broadcast use vstd::seq_lib::to_multiset_build;

    if s.len() > 0 {
        let d = s.drop_last();
        assert(s =~= d.push(s.last()));
        lemma_sort_by_name_sorts(d);
        lemma_insert_sorted(sort_by_name(d), s.last());
    }
}

proof fn lemma_key_le_refl(a: Seq<u32>)
    ensures
        key_le(a, a),
    decreases a.len(),
{
    if a.len() > 0 {
        lemma_key_le_refl(a.skip(1));
    }
}

/// Whether a line's name folds to `k`.
pub open spec fn has_key(f: FileView, k: Seq<u32>) -> bool {
    name_key(f.name) == k
}

proof fn lemma_insert_keeps_order(t: Seq<FileView>, x: FileView, k: Seq<u32>)
    ensures
        insert_by_name(t, x).filter(|f: FileView| has_key(f, k)) == if has_key(x, k) {
            t.filter(|f: FileView| has_key(f, k)).push(x)
        } else {
            t.filter(|f: FileView| has_key(f, k))
        },
    decreases t.len(),
{
    let p = |f: FileView| has_key(f, k);
    if t.len() == 0 {
        assert(seq![x] =~= t.push(x));
        t.lemma_filter_push(x, p);
    } else if name_le(t.last(), x) {
        t.lemma_filter_push(x, p);
    } else {
        let d = t.drop_last();
        let y = t.last();
        assert(t =~= d.push(y));
        lemma_insert_keeps_order(d, x, k);
        insert_by_name(d, x).lemma_filter_push(y, p);
        d.lemma_filter_push(y, p);
        if has_key(x, k) && has_key(y, k) {
            lemma_key_le_refl(k);
        }
        if has_key(x, k) && !has_key(y, k) {
            d.filter(p).lemma_filter_push(x, p);
        }
    }
}

/// Sorting by name is stable: the lines whose names fold alike come out in the order
/// they went in.
pub proof fn lemma_sort_by_name_stable(s: Seq<FileView>, k: Seq<u32>)
    ensures
        sort_by_name(s).filter(|f: FileView| has_key(f, k)) == s.filter(|f: FileView| has_key(f, k)),
    decreases s.len(),
{
    let p = |f: FileView| has_key(f, k);
    if s.len() == 0 {
    } else {
        let d = s.drop_last();
        let x = s.last();
        assert(s =~= d.push(x));
        lemma_sort_by_name_stable(d, k);
        lemma_insert_keeps_order(sort_by_name(d), x, k);
        d.lemma_filter_push(x, p);
    }
}

/// Whether a line is a directory.
pub open spec fn is_dir(f: FileView) -> bool {
    f.mode == FileMode::Dir
}

/// The stable partition of `s` that moves directories before everything else.
pub open spec fn dirs_first(s: Seq<FileView>) -> Seq<FileView> {
    s.filter(|f: FileView| is_dir(f)) + s.filter(|f: FileView| !is_dir(f))
}

/// The listing of a tree: shown entries sorted by name, then directories first.
pub open spec fn listing(dir: Seq<char>, entries: Seq<TreeEntry>) -> Seq<FileView> {
    dirs_first(sort_by_name(shown_lines(dir, entries)))
}

proof fn lemma_insert_at(s: Seq<FileView>, f: FileView, j: int)
    requires
        0 <= j <= s.len(),
        forall|k: int| j <= k < s.len() ==> !name_le(#[trigger] s[k], f),
        j == 0 || name_le(s[j - 1], f),
    ensures
        insert_by_name(s, f) == s.insert(j, f),
    decreases s.len(),
{
    if s.len() == 0 {
        assert(s.insert(j, f) =~= seq![f]);
    } else if name_le(s.last(), f) {
        assert(s.insert(j, f) =~= s.push(f));
    } else {
        lemma_insert_at(s.drop_last(), f, j);
        assert(s.insert(j, f) =~= s.drop_last().insert(j, f).push(s.last()));
    }
}

/// Whether an entry's mode is one that a listing shows.
pub open spec fn known_mode(e: TreeEntry) -> bool {
    mode_kind(e.mode) is Some
}

/// Entries with a mode that a listing does not show are left out, and leaving them out
/// changes nothing else: the listing is the one of the other entries alone.
pub proof fn lemma_unknown_modes_dropped(dir: Seq<char>, entries: Seq<TreeEntry>)
    ensures
        listing(dir, entries) == listing(dir, entries.filter(|e: TreeEntry| known_mode(e))),
        forall|i: int| 0 <= i < entries.len() && !known_mode(#[trigger] entries[i]) ==> entry_line(dir, entries[i]) is None,
{
    lemma_shown_ignores_unknown(dir, entries);
}

/// Whether no two entries of a tree have the same name, as git guarantees.
pub open spec fn names_unique(entries: Seq<TreeEntry>) -> bool {
    forall|i: int, j: int|
        0 <= i < entries.len() && 0 <= j < entries.len() && i != j && (#[trigger] entries[i]).name is Some
            && (#[trigger] entries[j]).name is Some ==> entries[i].name->Some_0@ != entries[j].name->Some_0@
}

proof fn lemma_listed_line_comes_from_entry(dir: Seq<char>, entries: Seq<TreeEntry>, l: FileView)
    requires
        listing(dir, entries).contains(l),
    ensures
        exists|j: int| 0 <= j < entries.len() && entry_line(dir, #[trigger] entries[j]) == Some(l),
{
    let shown = shown_lines(dir, entries);
    let sorted = sort_by_name(shown);
    let dirs = sorted.filter(|f: FileView| is_dir(f));
    let others = sorted.filter(|f: FileView| !is_dir(f));
    let idx = choose|idx: int| 0 <= idx < listing(dir, entries).len() && listing(dir, entries)[idx] == l;
    if idx < dirs.len() {
        assert(dirs[idx] == l);
        assert(dirs.contains(l));
        sorted.lemma_filter_contains_rev(|f: FileView| is_dir(f), l);
    } else {
        assert(others[idx - dirs.len()] == l);
        assert(others.contains(l));
        sorted.lemma_filter_contains_rev(|f: FileView| !is_dir(f), l);
    }
    lemma_sort_by_name_sorts(shown);
    vstd::seq_lib::to_multiset_contains(sorted, l);
    vstd::seq_lib::to_multiset_contains(shown, l);
    entries.lemma_filter_map_contains(|e: TreeEntry| entry_line(dir, e), l);
    let t = choose|t: TreeEntry| #[trigger] entries.contains(t) && entry_line(dir, t) == Some(l);
    let j = choose|j: int| 0 <= j < entries.len() && entries[j] == t;
    assert(entry_line(dir, entries[j]) == Some(l));
}

/// In a tree whose names are unique, no line of the listing carries the name of an
/// entry whose mode a listing does not show.
pub proof fn lemma_unknown_entries_not_listed(dir: Seq<char>, entries: Seq<TreeEntry>, k: int)
    requires
        names_unique(entries),
        0 <= k < entries.len(),
        !known_mode(entries[k]),
        entries[k].name is Some,
    ensures
        forall|i: int|
            0 <= i < listing(dir, entries).len() ==> (#[trigger] listing(dir, entries)[i]).name
                != entries[k].name->Some_0@,
{
    assert forall|i: int| 0 <= i < listing(dir, entries).len() implies (#[trigger] listing(
        dir,
        entries,
    )[i]).name != entries[k].name->Some_0@ by {
        let l = listing(dir, entries)[i];
        assert(listing(dir, entries).contains(l));
        lemma_listed_line_comes_from_entry(dir, entries, l);
        let j = choose|j: int| 0 <= j < entries.len() && entry_line(dir, #[trigger] entries[j]) == Some(l);
        assert(j != k);
    }
}

proof fn lemma_shown_ignores_unknown(dir: Seq<char>, entries: Seq<TreeEntry>)
    ensures
        shown_lines(dir, entries) == shown_lines(dir, entries.filter(|e: TreeEntry| known_mode(e))),
    decreases entries.len(),
{
    let f = |e: TreeEntry| entry_line(dir, e);
    let p = |e: TreeEntry| known_mode(e);
    if entries.len() == 0 {
        assert(entries.filter(p) =~= entries) by {
            reveal(Seq::filter);
        }
    } else {
        let s = entries.drop_last();
        let x = entries.last();
        assert(entries =~= s.push(x));
        lemma_shown_ignores_unknown(dir, s);
        s.lemma_filter_push(x, p);
        let t = s.filter(p);
        if known_mode(x) {
            assert(t.push(x).drop_last() =~= t);
        }
    }
}

/// The sort key of a name.
fn key_of(name: &str) -> (r: Vec<u32>)
    ensures
        r@ == name_key(name@),
{
    let chars = chars_of(name);
    let mut key: Vec<u32> = Vec::new();
    let mut i: usize = 0;
    while i < chars.len()
        invariant
            i <= chars@.len(),
            chars@ == name@,
            key@ == name_key(name@.take(i as int)),
        decreases chars@.len() - i,
    {
        let c = chars[i];
        let code = c as u32;
        if 65 <= code && code <= 90 {
            key.push(code + 32);
        } else {
            key.push(code);
        }
        i = i + 1;
        assert(key@ =~= name_key(name@.take(i as int)));
    }
    assert(name@.take(i as int) =~= name@);
    key
}

fn key_le_exec(a: &Vec<u32>, b: &Vec<u32>) -> (r: bool)
    ensures
        r == key_le(a@, b@),
{
    let mut i: usize = 0;
    assert(a@.skip(0) =~= a@ && b@.skip(0) =~= b@);
    while i < a.len() && i < b.len()
        invariant
            i <= a@.len(),
            i <= b@.len(),
            key_le(a@, b@) == key_le(a@.skip(i as int), b@.skip(i as int)),
        decreases a@.len() - i,
    {
        if a[i] != b[i] {
            return a[i] < b[i];
        }
        assert(a@.skip(i as int).skip(1) =~= a@.skip(i + 1));
        assert(b@.skip(i as int).skip(1) =~= b@.skip(i + 1));
        i = i + 1;
    }
    i == a.len()
}

/// Sorts lines by case-folded name, keeping the order of lines whose names fold alike.
pub fn sort_files_by_name(files: Vec<File>) -> (r: Vec<File>)
    ensures
        files_view(r@) == sort_by_name(files_view(files@)),
        sorted_by_name(files_view(r@)),
        files_view(r@).to_multiset() == files_view(files@).to_multiset(),
{
    proof {
        lemma_sort_by_name_sorts(files_view(files@));
    }
    let ghost orig = files@;
    let mut rest = files;
    let mut out: Vec<File> = Vec::new();
    let mut keys: Vec<Vec<u32>> = Vec::new();
    let ghost mut i: int = 0;
    while rest.len() > 0
        invariant
            0 <= i <= orig.len(),
            rest@ == orig.skip(i),
            keys@.len() == out@.len(),
            forall|k: int| 0 <= k < out@.len() ==> (#[trigger] keys@[k])@ == name_key(out@[k].name@),
            files_view(out@) == sort_by_name(files_view(orig.take(i))),
        decreases rest@.len(),
    {
        let f = rest.remove(0);
        let key = key_of(f.name.as_str());
        let mut j: usize = out.len();
        while j > 0 && !key_le_exec(&keys[j - 1], &key)
            invariant
                j <= out@.len(),
                keys@.len() == out@.len(),
                forall|k: int| 0 <= k < out@.len() ==> (#[trigger] keys@[k])@ == name_key(out@[k].name@),
                key@ == name_key(f.name@),
                forall|k: int| j <= k < out@.len() ==> !name_le(#[trigger] files_view(out@)[k], f@),
            decreases j,
        {
            j = j - 1;
        }
        let ghost before = out@;
        proof {
            lemma_insert_at(files_view(before), f@, j as int);
            assert(orig[i] == f);
            assert(files_view(orig.take(i + 1)).drop_last() =~= files_view(orig.take(i)));
        }
        out.insert(j, f);
        keys.insert(j, key);
        proof {
            i = i + 1;
        }
        assert(files_view(out@) =~= files_view(before).insert(j as int, out@[j as int]@));
        assert(rest@ =~= orig.skip(i));
    }
    assert(orig.take(i) =~= orig);
    out
}

/// Moves directories before everything else, keeping the order within each group.
pub fn partition_dirs_first(files: Vec<File>) -> (r: Vec<File>)
    ensures
        files_view(r@) == dirs_first(files_view(files@)),
{
    let ghost orig = files@;
    let mut rest = files;
    let mut dirs: Vec<File> = Vec::new();
    let mut others: Vec<File> = Vec::new();
    let ghost mut i: int = 0;
    while rest.len() > 0
        invariant
            0 <= i <= orig.len(),
            rest@ == orig.skip(i),
            files_view(dirs@) == files_view(orig.take(i)).filter(|f: FileView| is_dir(f)),
            files_view(others@) == files_view(orig.take(i)).filter(|f: FileView| !is_dir(f)),
        decreases rest@.len(),
    {
        let f = rest.remove(0);
        proof {
            assert(files_view(orig.take(i + 1)) =~= files_view(orig.take(i)).push(f@));
            files_view(orig.take(i)).lemma_filter_push(f@, |f: FileView| is_dir(f));
            files_view(orig.take(i)).lemma_filter_push(f@, |f: FileView| !is_dir(f));
        }
        match f.mode {
            FileMode::Dir => dirs.push(f),
            _ => others.push(f),
        }
        proof {
            i = i + 1;
        }
        assert(files_view(dirs@) =~= files_view(orig.take(i)).filter(|f: FileView| is_dir(f)));
        assert(files_view(others@) =~= files_view(orig.take(i)).filter(|f: FileView| !is_dir(f)));
        assert(rest@ =~= orig.skip(i));
    }
    assert(orig.take(i) =~= orig);
    let ghost d = dirs@;
    let ghost o = others@;
    dirs.append(&mut others);
    assert(files_view(dirs@) =~= files_view(d) + files_view(o));
    dirs
}

fn join_path_exec(dir: &str, name: &str) -> (r: String)
    ensures
        r@ == join_path(dir@, name@),
{
    if dir.is_empty() {
        String::from_str(name)
    } else {
        proof {
            reveal_strlit("/");
        }
        let r = String::from_str(dir).concat("/").concat(name);
        assert(r@ =~= join_path(dir@, name@));
        r
    }
}

/// The listing of a tree's entries inside directory `dir`: entries whose name is not
/// UTF-8 or whose mode is not a file, an executable or a directory are left out; the
/// rest are sorted by case-folded name, then directories are moved first.
pub fn list_files(entries: &Vec<TreeEntry>, dir: &str) -> (r: Vec<File>)
    ensures
        files_view(r@) == listing(dir@, entries@),
{
    let mut shown: Vec<File> = Vec::new();
    let mut i: usize = 0;
    while i < entries.len()
        invariant
            i <= entries@.len(),
            files_view(shown@) == shown_lines(dir@, entries@.take(i as int)),
        decreases entries@.len() - i,
    {
        let e = &entries[i];
        proof {
            entries@.lemma_filter_map_take_succ(|e: TreeEntry| entry_line(dir@, e), i as int);
        }
        let ghost s0 = shown@;
        match &e.name {
            Some(name) => match FileMode::from_mode(e.mode) {
                Some(mode) => {
                    let path = join_path_exec(dir, name.as_str());
                    shown.push(File { name: name.clone(), path, mode });
                    assert(files_view(shown@) =~= files_view(s0).push(entry_line(dir@, *e)->0));
                },
                None => {},
            },
            None => {},
        }
        i = i + 1;
    }
    assert(entries@.take(i as int) =~= entries@);
    partition_dirs_first(sort_files_by_name(shown))
}

/// The positions `0..n`, in order.
pub open spec fn positions(n: nat) -> Seq<usize> {
    Seq::new(n, |i: int| i as usize)
}

/// Whether `order` lists positions of `names` in case-folded name order.
pub open spec fn in_name_order(names: Seq<Seq<char>>, order: Seq<usize>) -> bool {
    &&& forall|i: int| 0 <= i < order.len() ==> (#[trigger] order[i]) < names.len()
    &&& forall|i: int|
        0 <= i < order.len() - 1 ==> key_le(name_key(names[#[trigger] order[i] as int]), name_key(names[order[i + 1] as int]))
}

/// The order in which to show items named `names`: every position exactly once, sorted
/// by case-folded name.
pub fn order_by_name(names: &Vec<String>) -> (r: Vec<usize>)
    ensures
        r@.to_multiset() == positions(names@.len()).to_multiset(),
        in_name_order(crate::repo_path::strings_view(names@), r@),
{
    let ghost v = crate::repo_path::strings_view(names@);
    let mut out: Vec<usize> = Vec::new();
    let mut keys: Vec<Vec<u32>> = Vec::new();
    let mut i: usize = 0;
    assert(positions(0) =~= out@);
    while i < names.len()
        invariant
            i <= names@.len(),
            v == crate::repo_path::strings_view(names@),
            keys@.len() == out@.len(),
            forall|k: int| 0 <= k < out@.len() ==> (#[trigger] keys@[k])@ == name_key(v[out@[k] as int]),
            forall|k: int| 0 <= k < out@.len() ==> (#[trigger] out@[k]) < i,
            forall|k: int| 0 <= k < out@.len() - 1 ==> key_le(#[trigger] keys@[k]@, keys@[k + 1]@),
            out@.to_multiset() == positions(i as nat).to_multiset(),
        decreases names@.len() - i,
    {
        let key = key_of(names[i].as_str());
        let mut j: usize = out.len();
        while j > 0 && !key_le_exec(&keys[j - 1], &key)
            invariant
                j <= out@.len(),
                keys@.len() == out@.len(),
                forall|k: int| j <= k < out@.len() ==> !key_le(#[trigger] keys@[k]@, key@),
            decreases j,
        {
            j = j - 1;
        }
        let ghost old_keys = keys@;
        let ghost old_out = out@;
        proof {
            if j < old_keys.len() {
                lemma_key_le_total(old_keys[j as int]@, key@);
            }
            assert(positions((i + 1) as nat) =~= positions(i as nat).push(i));
        }
        out.insert(j, i);
        keys.insert(j, key);
        assert(out@.to_multiset() == positions((i + 1) as nat).to_multiset()) by {
            assert(out@ == old_out.insert(j as int, i));
            vstd::seq_lib::to_multiset_insert(old_out, j as int, i);
            vstd::seq_lib::to_multiset_build(positions(i as nat), i);
        }
        assert forall|k: int| 0 <= k < out@.len() - 1 implies key_le(#[trigger] keys@[k]@, keys@[k + 1]@) by {
            if k < j - 1 {
                assert(keys@[k] == old_keys[k] && keys@[k + 1] == old_keys[k + 1]);
            } else if k == j - 1 {
            } else if k == j {
            } else {
                assert(keys@[k] == old_keys[k - 1] && keys@[k + 1] == old_keys[k]);
            }
        }
        assert forall|k: int| 0 <= k < out@.len() implies (#[trigger] keys@[k])@ == name_key(v[out@[k] as int]) by {
            if k < j {
            } else if k == j {
            } else {
                assert(keys@[k] == old_keys[k - 1] && out@[k] == old_out[k - 1]);
            }
        }
        i = i + 1;
    }
    assert forall|k: int| 0 <= k < out@.len() - 1 implies key_le(
        name_key(v[#[trigger] out@[k] as int]),
        name_key(v[out@[k + 1] as int]),
    ) by {
        assert(keys@[k]@ == name_key(v[out@[k] as int]));
        assert(keys@[k + 1]@ == name_key(v[out@[k + 1] as int]));
    }
    out
}

} // verus!
