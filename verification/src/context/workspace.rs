//! Workspace outline construction: folds a flat pre-order traversal of a
//! directory tree into the nested directory/file structure used for the
//! navigation UI.
//!
//! The builder consumes `(name, depth)` entries in strict pre-order (a parent
//! is pushed before any of its descendants, siblings in traversal order) and
//! maintains a stack of open directories; an entry at depth `d` closes every
//! directory at depth `d` or deeper before it is attached.
use vstd::prelude::*;

verus! {

broadcast use vstd::seq::group_seq_axioms;

/// Outline information about a single file.
#[derive(Debug)]
pub struct File {
    name: String,
    depth: i32,
    path: String,
}

/// Outline information about a directory and everything below it.
#[derive(Debug)]
pub struct Directory {
    name: String,
    depth: i32,
    directories: Vec<Directory>,
    files: Vec<File>,
}

/// Mathematical value of a [`File`].
#[verifier::ext_equal]
pub ghost struct FileModel {
    pub name: Seq<char>,
    pub depth: int,
    pub path: Seq<char>,
}

/// Mathematical value of a [`Directory`]: the whole subtree.
#[verifier::ext_equal]
pub ghost struct DirectoryModel {
    pub name: Seq<char>,
    pub depth: int,
    pub directories: Seq<DirectoryModel>,
    pub files: Seq<FileModel>,
}

impl View for File {
    type V = FileModel;

    closed spec fn view(&self) -> FileModel {
        FileModel { name: self.name@, depth: self.depth as int, path: self.path@ }
    }
}

/// The models of a sequence of directories, in order.
pub open spec fn dirs_view(dirs: Seq<Directory>) -> Seq<DirectoryModel>
    decreases dirs,
{
    if dirs.len() == 0 {
        Seq::empty()
    } else {
        dirs_view(dirs.subrange(0, dirs.len() - 1)).push(dirs[dirs.len() - 1]@)
    }
}

impl View for Directory {
    type V = DirectoryModel;

    closed spec fn view(&self) -> DirectoryModel
        decreases self,
    {
        DirectoryModel {
            name: self.name@,
            depth: self.depth as int,
            directories: dirs_view(self.directories@),
            files: self.files@.map_values(|f: File| f@),
        }
    }
}

proof fn lemma_dirs_view_len(dirs: Seq<Directory>)
    ensures
        dirs_view(dirs).len() == dirs.len(),
    decreases dirs.len(),
{
    if dirs.len() > 0 {
        let sub = dirs.subrange(0, dirs.len() - 1);
        lemma_dirs_view_len(sub);
        assert(sub.len() == dirs.len() - 1);
        assert(dirs_view(dirs) == dirs_view(sub).push(dirs[dirs.len() - 1]@));
        assert(dirs_view(sub).push(dirs[dirs.len() - 1]@).len() == dirs_view(sub).len() + 1);
    }
}

proof fn lemma_dirs_view_index(dirs: Seq<Directory>, i: int)
    requires
        0 <= i < dirs.len(),
    ensures
        dirs_view(dirs).len() == dirs.len(),
        dirs_view(dirs)[i] == dirs[i]@,
    decreases dirs.len(),
{
    lemma_dirs_view_len(dirs);
    let sub = dirs.subrange(0, dirs.len() - 1);
    lemma_dirs_view_len(sub);
    assert(dirs_view(dirs) == dirs_view(sub).push(dirs[dirs.len() - 1]@));
    if i < dirs.len() - 1 {
        lemma_dirs_view_index(sub, i);
        assert(dirs_view(sub).push(dirs[dirs.len() - 1]@)[i] == dirs_view(sub)[i]);
        assert(sub[i] == dirs[i]);
    } else {
        assert(dirs_view(sub).push(dirs[dirs.len() - 1]@)[i] == dirs[dirs.len() - 1]@);
    }
}

proof fn lemma_dirs_view_push(dirs: Seq<Directory>, d: Directory)
    ensures
        dirs_view(dirs.push(d)) == dirs_view(dirs).push(d@),
{
    let t = dirs.push(d);
    assert(t.subrange(0, t.len() - 1) =~= dirs);
    assert(t[t.len() - 1] == d);
}

proof fn lemma_dirs_view_is_pointwise(dirs: Seq<Directory>)
    ensures
        dirs_view(dirs).len() == dirs.len(),
        forall|i: int| 0 <= i < dirs.len() ==> #[trigger] dirs_view(dirs)[i] == dirs[i]@,
{
    lemma_dirs_view_len(dirs);
    assert forall|i: int| 0 <= i < dirs.len() implies #[trigger] dirs_view(dirs)[i]
        == dirs[i]@ by {
        lemma_dirs_view_index(dirs, i);
    }
}

impl File {
    fn new(name: String, depth: i32, path: String) -> (r: Self)
        ensures
            r@ == (FileModel { name: name@, depth: depth as int, path: path@ }),
    {
        Self { name, depth, path }
    }

    /// The file's own name, without its path.
    pub fn name(&self) -> (r: &String)
        ensures
            r@ == self@.name,
    {
        &self.name
    }

    /// Depth of the file below the virtual root; the root's direct files
    /// have depth 1.
    pub fn depth(&self) -> (r: i32)
        ensures
            r as int == self@.depth,
    {
        self.depth
    }

    /// Path of the file relative to the workspace root.
    pub fn path(&self) -> (r: &String)
        ensures
            r@ == self@.path,
    {
        &self.path
    }
}

impl Directory {
    fn new(name: String, depth: i32) -> (r: Self)
        ensures
            r@ == (DirectoryModel {
                name: name@,
                depth: depth as int,
                directories: Seq::empty(),
                files: Seq::empty(),
            }),
    {
        let r = Self { name, depth, directories: Vec::new(), files: Vec::new() };
        proof {
            assert(r@.directories =~= Seq::<DirectoryModel>::empty());
            assert(r@.files =~= Seq::<FileModel>::empty());
        }
        r
    }

    /// The directory's own name; the virtual root has the empty name.
    pub fn name(&self) -> (r: &String)
        ensures
            r@ == self@.name,
    {
        &self.name
    }

    /// Depth of the directory below the virtual root, which has depth 0.
    pub fn depth(&self) -> (r: i32)
        ensures
            r as int == self@.depth,
    {
        self.depth
    }

    /// Child directories, in the order they were pushed.
    pub fn directories(&self) -> (r: &Vec<Directory>)
        ensures
            dirs_view(r@) == self@.directories,
            r@.len() == self@.directories.len(),
            forall|i: int| 0 <= i < r@.len() ==> #[trigger] r@[i]@ == self@.directories[i],
    {
        proof {
            lemma_dirs_view_is_pointwise(self.directories@);
        }
        &self.directories
    }

    /// Files directly contained in this directory, in the order they were
    /// pushed.
    pub fn files(&self) -> (r: &Vec<File>)
        ensures
            r@.map_values(|f: File| f@) == self@.files,
            r@.len() == self@.files.len(),
            forall|i: int| 0 <= i < r@.len() ==> #[trigger] r@[i]@ == self@.files[i],
    {
        &self.files
    }
}

/// Mathematical value of a [`WorkspaceOutlineBuilder`]: the depth cursor and
/// the stack of directories that are still open, bottom (the virtual root)
/// first.
#[verifier::ext_equal]
pub ghost struct BuilderModel {
    pub depth: int,
    pub stack: Seq<DirectoryModel>,
}

/// The fresh directory a `push_dir` call opens.
pub open spec fn fresh_dir(name: Seq<char>, depth: int) -> DirectoryModel {
    DirectoryModel { name, depth, directories: Seq::empty(), files: Seq::empty() }
}

/// The builder's state right after construction: the depth cursor at 0 and
/// one open directory, the unnamed virtual root.
pub open spec fn initial_builder() -> BuilderModel {
    BuilderModel { depth: 0, stack: seq![fresh_dir(Seq::empty(), 0)] }
}

/// One pop: the top of the stack becomes the last child directory of the
/// entry below it.
pub open spec fn popped(stack: Seq<DirectoryModel>) -> Seq<DirectoryModel>
    recommends
        stack.len() >= 2,
{
    let n = stack.len();
    let child = stack[n - 1];
    let parent = stack[n - 2];
    stack.subrange(0, n - 2).push(
        DirectoryModel { directories: parent.directories.push(child), ..parent },
    )
}

/// `k` pops in a row.
pub open spec fn popped_n(stack: Seq<DirectoryModel>, k: nat) -> Seq<DirectoryModel>
    decreases k,
{
    if k == 0 {
        stack
    } else {
        popped_n(popped(stack), (k - 1) as nat)
    }
}

/// The stack after the unwinding an entry at depth `depth` performs: every
/// directory at that depth or deeper is closed, from `depth` up to and
/// including the current cursor.
pub open spec fn unwound(m: BuilderModel, depth: int) -> Seq<DirectoryModel> {
    if depth <= m.depth {
        popped_n(m.stack, (m.depth - depth + 1) as nat)
    } else {
        m.stack
    }
}

/// State transition of [`WorkspaceOutlineBuilder::push_dir`].
pub open spec fn push_dir_model(m: BuilderModel, name: Seq<char>, depth: int) -> BuilderModel {
    BuilderModel { depth, stack: unwound(m, depth).push(fresh_dir(name, depth)) }
}

/// State transition of [`WorkspaceOutlineBuilder::push_file`]: after the same
/// unwinding as `push_dir`, the file joins the open directory one level above
/// it and the cursor moves to that directory's depth.
pub open spec fn push_file_model(
    m: BuilderModel,
    name: Seq<char>,
    path: Seq<char>,
    depth: int,
) -> BuilderModel {
    let s = unwound(m, depth);
    let n = s.len();
    let top = s[n - 1];
    BuilderModel {
        depth: depth - 1,
        stack: s.update(
            n - 1,
            DirectoryModel { files: top.files.push(FileModel { name, depth, path }), ..top },
        ),
    }
}

/// Result of [`WorkspaceOutlineBuilder::finish`]: the remaining open
/// directories are closed and the virtual root remains.
pub open spec fn finish_model(m: BuilderModel) -> DirectoryModel {
    let s = popped_n(m.stack, m.depth as nat);
    s[s.len() - 1]
}

proof fn lemma_popped_len(stack: Seq<DirectoryModel>)
    requires
        stack.len() >= 2,
    ensures
        popped(stack).len() == stack.len() - 1,
{
}

proof fn lemma_popped_n_len(stack: Seq<DirectoryModel>, k: nat)
    requires
        k + 1 <= stack.len(),
    ensures
        popped_n(stack, k).len() == stack.len() - k,
    decreases k,
{
    if k > 0 {
        lemma_popped_len(stack);
        lemma_popped_n_len(popped(stack), (k - 1) as nat);
    }
}

proof fn lemma_popped_n_one(stack: Seq<DirectoryModel>)
    ensures
        popped_n(stack, 1) == popped(stack),
{
    reveal_with_fuel(popped_n, 2);
}

proof fn lemma_popped_n_add(stack: Seq<DirectoryModel>, a: nat, b: nat)
    ensures
        popped_n(stack, a + b) == popped_n(popped_n(stack, a), b),
    decreases a,
{
    if a > 0 {
        lemma_popped_n_add(popped(stack), (a - 1) as nat, b);
    }
}

/// A structure used to build a workspace outline assuming a depth-first
/// traversal of the workspace.
pub struct WorkspaceOutlineBuilder {
    depth: i32,
    dirs: Vec<Directory>,
}

impl View for WorkspaceOutlineBuilder {
    type V = BuilderModel;

    closed spec fn view(&self) -> BuilderModel {
        BuilderModel { depth: self.depth as int, stack: dirs_view(self.dirs@) }
    }
}

impl WorkspaceOutlineBuilder {
    /// The builder's invariant: the cursor never goes negative and there is
    /// always one more open directory than the cursor's depth.
    pub open spec fn wf(&self) -> bool {
        &&& 0 <= self@.depth
        &&& self@.stack.len() == self@.depth + 1
    }

    pub fn new() -> (r: Self)
        ensures
            r.wf(),
            r@ == initial_builder(),
    {
        let r = Self { depth: 0, dirs: vec![Directory::new(String::new(), 0)] };
        proof {
            lemma_dirs_view_is_pointwise(r.dirs@);
            assert(r@.stack =~= initial_builder().stack);
        }
        r
    }

    /// The current depth cursor: the depth of the last pushed entry's
    /// enclosing level.
    pub fn depth(&self) -> (r: i32)
        ensures
            r as int == self@.depth,
    {
        self.depth
    }

    /// Pops a directory out of the directories' stack.
    ///
    /// This makes the last directory a child of the previous directory in
    /// the stack.
    fn pop_dir(&mut self)
        requires
            old(self).dirs@.len() >= 2,
        ensures
            final(self).depth == old(self).depth,
            final(self)@.stack == popped(old(self)@.stack),
            final(self)@.stack.len() == old(self)@.stack.len() - 1,
    {
        proof {
            lemma_dirs_view_is_pointwise(self.dirs@);
        }
        let ghost s0 = self.dirs@;
        let last_dir = self.dirs.pop().unwrap();
        let mut parent = self.dirs.pop().unwrap();
        parent.directories.push(last_dir);
        self.dirs.push(parent);
        proof {
            let n = s0.len();
            lemma_dirs_view_is_pointwise(s0.subrange(0, n - 2));
            lemma_dirs_view_is_pointwise(self.dirs@);
            lemma_dirs_view_is_pointwise(parent.directories@);
            lemma_dirs_view_is_pointwise(parent.directories@.subrange(
                0,
                parent.directories@.len() - 1,
            ));
            assert(parent.directories@.subrange(0, parent.directories@.len() - 1) =~= s0[n
                - 2].directories@);
            assert(parent@.directories =~= s0[n - 2]@.directories.push(s0[n - 1]@));
            assert(parent@ =~= (DirectoryModel {
                directories: s0[n - 2]@.directories.push(s0[n - 1]@),
                ..s0[n - 2]@
            }));
            assert(final(self)@.stack =~= popped(old(self)@.stack));
        }
    }

    /// Close every open directory from `depth` up to and including the
    /// current cursor; does nothing when `depth` lies below the cursor.
    fn unwind_to(&mut self, depth: i32)
        requires
            old(self).wf(),
            1 <= depth <= old(self)@.depth + 1,
        ensures
            final(self).depth == old(self).depth,
            final(self)@.depth == old(self)@.depth,
            final(self)@.stack == unwound(old(self)@, depth as int),
            final(self)@.stack.len() == if depth as int <= old(self)@.depth {
                depth as int
            } else {
                old(self)@.depth + 1
            },
    {
        if depth <= self.depth {
            let total: i32 = self.depth - depth + 1;
            let mut k: i32 = 0;
            while k < total
                invariant
                    old(self).wf(),
                    1 <= depth as int <= old(self)@.depth,
                    total as int == old(self)@.depth - depth + 1,
                    0 <= k <= total,
                    self.depth == old(self).depth,
                    self@.stack == popped_n(old(self)@.stack, k as nat),
                    self@.stack.len() == old(self)@.stack.len() - k,
                decreases total as int - k,
            {
                proof {
                    lemma_dirs_view_len(self.dirs@);
                }
                self.pop_dir();
                proof {
                    lemma_popped_n_add(old(self)@.stack, k as nat, 1);
                    lemma_popped_n_one(popped_n(old(self)@.stack, k as nat));
                }
                k = k + 1;
            }
        }
    }

    /// Push a directory into the stack.
    ///
    /// If `depth` is less than or equal to the last depth passed, the
    /// directories' stack is popped to match `depth` before the new
    /// directory is opened.
    pub fn push_dir(&mut self, name: String, depth: i32)
        requires
            old(self).wf(),
            1 <= depth <= old(self)@.depth + 1,
        ensures
            final(self).wf(),
            final(self)@ == push_dir_model(old(self)@, name@, depth as int),
    {
        self.unwind_to(depth);
        self.depth = depth;
        let ghost s1 = self.dirs@;
        let d = Directory::new(name, depth);
        self.dirs.push(d);
        proof {
            lemma_dirs_view_push(s1, d);
            assert(final(self)@ =~= push_dir_model(old(self)@, name@, depth as int));
        }
    }

    /// Pushes a file to the last pushed directory.
    ///
    /// It sets the depth of the builder to the depth of the parent
    /// directory. That is, if `depth` is `3`, the builder's state will have
    /// `depth` 2.
    pub fn push_file(&mut self, name: String, path: String, depth: i32)
        requires
            old(self).wf(),
            1 <= depth <= old(self)@.depth + 1,
        ensures
            final(self).wf(),
            final(self)@ == push_file_model(old(self)@, name@, path@, depth as int),
    {
        self.unwind_to(depth);
        self.depth = depth - 1;
        let ghost s1 = self.dirs@;
        proof {
            lemma_dirs_view_len(s1);
        }
        let f = File::new(name, depth, path);
        let mut top = self.dirs.pop().unwrap();
        let ghost top0 = top;
        top.files.push(f);
        self.dirs.push(top);
        proof {
            let m = push_file_model(old(self)@, name@, path@, depth as int);
            lemma_dirs_view_is_pointwise(s1);
            lemma_dirs_view_is_pointwise(self.dirs@);
            assert(top@.files =~= top0@.files.push(f@));
            assert(top@ =~= (DirectoryModel {
                files: top0@.files.push(
                    FileModel { name: name@, depth: depth as int, path: path@ },
                ),
                ..top0@
            }));
            assert(final(self)@.stack =~= m.stack);
            assert(final(self)@ =~= m);
        }
    }

    /// Finish building the outline.
    ///
    /// If there are remaining directories in the stack, they will be popped.
    ///
    /// Returns a root directory with no name that contains all the passed
    /// entries during the construction of the outline.
    pub fn finish(self) -> (r: Directory)
        requires
            self.wf(),
        ensures
            r@ == finish_model(self@),
    {
        let ghost m0 = self@;
        let mut b = self;
        let total: i32 = b.depth;
        let mut k: i32 = 0;
        while k < total
            invariant
                m0.depth >= 0,
                m0.stack.len() == m0.depth + 1,
                total as int == m0.depth,
                0 <= k <= total,
                b@.stack == popped_n(m0.stack, k as nat),
                b@.stack.len() == m0.stack.len() - k,
            decreases total as int - k,
        {
            proof {
                lemma_dirs_view_len(b.dirs@);
            }
            b.pop_dir();
            proof {
                lemma_popped_n_add(m0.stack, k as nat, 1);
                lemma_popped_n_one(popped_n(m0.stack, k as nat));
            }
            k = k + 1;
        }
        proof {
            lemma_dirs_view_is_pointwise(b.dirs@);
        }
        b.dirs.pop().unwrap()
    }
}

/// One entry of a flat pre-order walk of a workspace tree.
#[verifier::ext_equal]
pub ghost enum OutlineEntry {
    Dir { name: Seq<char>, depth: int },
    FileEntry { name: Seq<char>, path: Seq<char>, depth: int },
}

/// State transition of one walk entry.
pub open spec fn step_model(m: BuilderModel, e: OutlineEntry) -> BuilderModel {
    match e {
        OutlineEntry::Dir { name, depth } => push_dir_model(m, name, depth),
        OutlineEntry::FileEntry { name, path, depth } => push_file_model(m, name, path, depth),
    }
}

/// Replay of a whole entry sequence, left to right.
pub open spec fn run_model(m: BuilderModel, es: Seq<OutlineEntry>) -> BuilderModel
    decreases es.len(),
{
    if es.len() == 0 {
        m
    } else {
        run_model(step_model(m, es[0]), es.subrange(1, es.len() as int))
    }
}

pub proof fn lemma_run_one(m: BuilderModel, e: OutlineEntry)
    ensures
        run_model(m, seq![e]) == step_model(m, e),
{
    reveal_with_fuel(run_model, 2);
    assert(seq![e].subrange(1, 1) =~= Seq::<OutlineEntry>::empty());
}

pub proof fn lemma_run_concat(m: BuilderModel, a: Seq<OutlineEntry>, b: Seq<OutlineEntry>)
    ensures
        run_model(m, a + b) == run_model(run_model(m, a), b),
    decreases a.len(),
{
    if a.len() == 0 {
        assert(a + b =~= b);
    } else {
        assert((a + b)[0] == a[0]);
        assert((a + b).subrange(1, (a + b).len() as int) =~= a.subrange(1, a.len() as int) + b);
        lemma_run_concat(step_model(m, a[0]), a.subrange(1, a.len() as int), b);
    }
}

/// The walk entries of one directory's own files, in order.
pub open spec fn file_entries(fs: Seq<FileModel>) -> Seq<OutlineEntry> {
    fs.map_values(
        |f: FileModel| OutlineEntry::FileEntry { name: f.name, path: f.path, depth: f.depth },
    )
}

/// Pre-order traversal of one directory: the directory itself, then its
/// files, then each child subtree in order.
pub open spec fn flatten_dir(d: DirectoryModel) -> Seq<OutlineEntry>
    decreases d, 0int,
{
    seq![OutlineEntry::Dir { name: d.name, depth: d.depth }] + file_entries(d.files)
        + flatten_dirs(d.directories)
}

/// Pre-order traversal of a list of sibling subtrees.
pub open spec fn flatten_dirs(ds: Seq<DirectoryModel>) -> Seq<OutlineEntry>
    decreases ds, 1int,
{
    if ds.len() == 0 {
        Seq::empty()
    } else {
        flatten_dir(ds[0]) + flatten_dirs(ds.subrange(1, ds.len() as int))
    }
}

/// Well-formedness of a subtree at its recorded depth: every file and every
/// child directory sits exactly one level below its parent, recursively.
pub open spec fn wf_dir(d: DirectoryModel) -> bool
    decreases d,
{
    &&& forall|i: int|
        0 <= i < d.files.len() ==> (#[trigger] d.files[i]).depth == d.depth + 1
    &&& forall|i: int|
        0 <= i < d.directories.len() ==> (#[trigger] d.directories[i]).depth == d.depth + 1
    &&& forall|i: int| 0 <= i < d.directories.len() ==> wf_dir(#[trigger] d.directories[i])
}

/// A well-formed finished outline: the virtual root at depth 0 with the
/// empty name, and well-formed contents one level below it.
pub open spec fn wf_root(d: DirectoryModel) -> bool {
    d.depth == 0 && d.name == Seq::<char>::empty() && wf_dir(d)
}

/// The flat pre-order walk that a finished outline describes; the virtual
/// root itself produces no entry.
pub open spec fn flatten_root(d: DirectoryModel) -> Seq<OutlineEntry> {
    file_entries(d.files) + flatten_dirs(d.directories)
}

/// Close open directories until only `j` remain on the stack.
spec fn pop_to(s: Seq<DirectoryModel>, j: int) -> Seq<DirectoryModel>
    recommends
        1 <= j <= s.len(),
{
    popped_n(s, (s.len() - j) as nat)
}

proof fn lemma_pop_to_len(s: Seq<DirectoryModel>, j: int)
    requires
        1 <= j <= s.len(),
    ensures
        pop_to(s, j).len() == j,
{
    lemma_popped_n_len(s, (s.len() - j) as nat);
}

proof fn lemma_pop_to_step(s: Seq<DirectoryModel>, j: int)
    requires
        1 <= j < s.len(),
    ensures
        pop_to(s, j) == popped(pop_to(s, j + 1)),
{
    lemma_popped_n_add(s, (s.len() - j - 1) as nat, 1);
    lemma_popped_n_one(pop_to(s, j + 1));
}

proof fn lemma_run_files(m: BuilderModel, fs: Seq<FileModel>, k: int)
    requires
        0 <= k,
        m.depth == k,
        m.stack.len() == k + 1,
        forall|i: int| 0 <= i < fs.len() ==> (#[trigger] fs[i]).depth == k + 1,
    ensures
        run_model(m, file_entries(fs)) == (BuilderModel {
            depth: k,
            stack: m.stack.update(
                k,
                DirectoryModel { files: m.stack[k].files + fs, ..m.stack[k] },
            ),
        }),
    decreases fs.len(),
{
    let target = BuilderModel {
        depth: k,
        stack: m.stack.update(k, DirectoryModel { files: m.stack[k].files + fs, ..m.stack[k] }),
    };
    if fs.len() == 0 {
        assert(file_entries(fs) =~= Seq::<OutlineEntry>::empty());
        assert(m.stack[k].files + fs =~= m.stack[k].files);
        assert(DirectoryModel { files: m.stack[k].files + fs, ..m.stack[k] } =~= m.stack[k]);
        assert(target.stack =~= m.stack);
        assert(run_model(m, file_entries(fs)) =~= target);
    } else {
        let f0 = fs[0];
        let rest = fs.subrange(1, fs.len() as int);
        let es = file_entries(fs);
        assert(es[0] == (OutlineEntry::FileEntry { name: f0.name, path: f0.path, depth: f0.depth }));
        assert(es.subrange(1, es.len() as int) =~= file_entries(rest));
        let m1 = step_model(m, es[0]);
        // A file at depth k + 1 does not unwind a stack whose cursor is at k.
        assert(unwound(m, k + 1) == m.stack);
        let fm = FileModel { name: f0.name, depth: k + 1, path: f0.path };
        assert(fm =~= f0);
        assert(m1 == (BuilderModel {
            depth: k,
            stack: m.stack.update(
                k,
                DirectoryModel { files: m.stack[k].files.push(f0), ..m.stack[k] },
            ),
        }));
        lemma_run_files(m1, rest, k);
        assert(m1.stack[k].files + rest =~= m.stack[k].files + fs);
        assert(m1.stack.update(
            k,
            DirectoryModel { files: m1.stack[k].files + rest, ..m1.stack[k] },
        ) =~= target.stack);
        assert(run_model(m, es) == run_model(m1, file_entries(rest)));
        assert(run_model(m, file_entries(fs)) =~= target);
    }
}

proof fn lemma_run_subtree(d: DirectoryModel, m: BuilderModel)
    requires
        wf_dir(d),
        d.depth >= 1,
        m.depth >= d.depth - 1,
        m.stack.len() == m.depth + 1,
    ensures
        ({
            let m2 = run_model(m, flatten_dir(d));
            &&& m2.depth >= d.depth
            &&& m2.stack.len() == m2.depth + 1
            &&& pop_to(m2.stack, d.depth + 1) == pop_to(m.stack, d.depth).push(d)
        }),
    decreases d, 0int, 0int,
{
    let k = d.depth;
    let dir_entry = OutlineEntry::Dir { name: d.name, depth: k };
    let head: Seq<OutlineEntry> = seq![dir_entry];
    let files = file_entries(d.files);
    let subs = flatten_dirs(d.directories);
    assert(flatten_dir(d) == head + files + subs);
    lemma_run_concat(m, head + files, subs);
    lemma_run_concat(m, head, files);
    lemma_run_one(m, dir_entry);

    // After the directory's own entry: unwind to k open directories, then
    // push the fresh, still-empty directory.
    let m1 = step_model(m, dir_entry);
    lemma_pop_to_len(m.stack, k);
    if k <= m.depth {
        assert(unwound(m, k) == pop_to(m.stack, k));
    } else {
        assert(m.stack.len() == k);
        assert(pop_to(m.stack, k) == popped_n(m.stack, 0));
        assert(unwound(m, k) == pop_to(m.stack, k));
    }
    assert(m1.depth == k);
    assert(m1.stack == pop_to(m.stack, k).push(fresh_dir(d.name, k)));
    assert(m1.stack.len() == k + 1);

    // The directory's files attach to the fresh top of the stack.
    assert(m1.stack[k] == fresh_dir(d.name, k));
    lemma_run_files(m1, d.files, k);
    let m2 = run_model(m1, files);
    let half = DirectoryModel {
        name: d.name,
        depth: k,
        directories: Seq::empty(),
        files: d.files,
    };
    assert(Seq::<FileModel>::empty() + d.files =~= d.files);
    assert(m2.stack =~= pop_to(m.stack, k).push(half));
    assert(m2.depth == k);
    assert(m2.stack.len() == k + 1);

    // The child subtrees attach to that same directory, in order.
    lemma_run_siblings(d.directories, 0, m2, k + 1);
    let m3 = run_model(m2, subs);
    lemma_pop_to_len(m2.stack, k + 1);
    assert(pop_to(m2.stack, k + 1) == popped_n(m2.stack, 0));
    let t = pop_to(m2.stack, k + 1);
    assert(t == m2.stack);
    assert(t[k] == half);
    assert(half.directories + d.directories.subrange(0, d.directories.len() as int)
        =~= d.directories);
    assert(DirectoryModel {
        directories: half.directories + d.directories.subrange(0, d.directories.len() as int),
        ..half
    } =~= d);
    assert(pop_to(m3.stack, k + 1) =~= pop_to(m.stack, k).push(d));
    assert(run_model(m, flatten_dir(d)) == m3);
}

proof fn lemma_run_siblings(ds: Seq<DirectoryModel>, i: int, m: BuilderModel, k: int)
    requires
        1 <= k,
        0 <= i <= ds.len(),
        forall|j: int| i <= j < ds.len() ==> (#[trigger] ds[j]).depth == k,
        forall|j: int| i <= j < ds.len() ==> wf_dir(#[trigger] ds[j]),
        m.depth >= k - 1,
        m.stack.len() == m.depth + 1,
    ensures
        ({
            let m2 = run_model(m, flatten_dirs(ds.subrange(i, ds.len() as int)));
            let t = pop_to(m.stack, k);
            &&& m2.depth >= k - 1
            &&& m2.stack.len() == m2.depth + 1
            &&& pop_to(m2.stack, k) == t.update(
                k - 1,
                DirectoryModel {
                    directories: t[k - 1].directories + ds.subrange(i, ds.len() as int),
                    ..t[k - 1]
                },
            )
        }),
    decreases ds, 1int, ds.len() - i,
{
    let n = ds.len() as int;
    let t = pop_to(m.stack, k);
    lemma_pop_to_len(m.stack, k);
    if i == n {
        assert(ds.subrange(i, n) =~= Seq::<DirectoryModel>::empty());
        assert(flatten_dirs(ds.subrange(i, n)) == Seq::<OutlineEntry>::empty());
        assert(run_model(m, flatten_dirs(ds.subrange(i, n))) == m);
        assert(t[k - 1].directories + ds.subrange(i, n) =~= t[k - 1].directories);
        assert(DirectoryModel {
            directories: t[k - 1].directories + ds.subrange(i, n),
            ..t[k - 1]
        } =~= t[k - 1]);
        assert(t.update(k - 1, t[k - 1]) =~= t);
    } else {
        vstd::seq::axiom_seq_index_decreases(ds, i);
        let suffix = ds.subrange(i, n);
        assert(suffix[0] == ds[i]);
        assert(flatten_dirs(suffix) == flatten_dir(ds[i]) + flatten_dirs(
            suffix.subrange(1, suffix.len() as int),
        ));
        assert(suffix.subrange(1, suffix.len() as int) =~= ds.subrange(i + 1, n));
        lemma_run_concat(m, flatten_dir(ds[i]), flatten_dirs(ds.subrange(i + 1, n)));

        // First sibling: its whole subtree collapses to one child of the
        // directory at position k - 1.
        lemma_run_subtree(ds[i], m);
        let m1 = run_model(m, flatten_dir(ds[i]));
        lemma_pop_to_step(m1.stack, k);
        lemma_pop_to_len(m1.stack, k + 1);
        let u = pop_to(m1.stack, k + 1);
        assert(u == t.push(ds[i]));
        assert(u.subrange(0, k - 1) =~= t.subrange(0, k - 1));
        let t1 = t.update(
            k - 1,
            DirectoryModel { directories: t[k - 1].directories.push(ds[i]), ..t[k - 1] },
        );
        assert(pop_to(m1.stack, k) =~= t1);

        // Remaining siblings, by induction.
        lemma_run_siblings(ds, i + 1, m1, k);
        let m2 = run_model(m1, flatten_dirs(ds.subrange(i + 1, n)));
        assert(t1[k - 1].directories + ds.subrange(i + 1, n) =~= t[k - 1].directories
            + ds.subrange(i, n));
        assert(t1.update(
            k - 1,
            DirectoryModel {
                directories: t1[k - 1].directories + ds.subrange(i + 1, n),
                ..t1[k - 1]
            },
        ) =~= t.update(
            k - 1,
            DirectoryModel {
                directories: t[k - 1].directories + ds.subrange(i, n),
                ..t[k - 1]
            },
        ));
        assert(run_model(m, flatten_dirs(suffix)) == m2);
    }
}

/// Replay law: feeding the pre-order traversal of any well-formed outline
/// tree to a fresh builder reconstructs exactly that tree.
pub proof fn lemma_outline_replay(root: DirectoryModel)
    requires
        wf_root(root),
    ensures
        finish_model(run_model(initial_builder(), flatten_root(root))) == root,
{
    let m0 = initial_builder();
    assert(m0.stack.len() == 1);
    lemma_run_concat(m0, file_entries(root.files), flatten_dirs(root.directories));

    // The root's own files land in the virtual root.
    lemma_run_files(m0, root.files, 0);
    let m1 = run_model(m0, file_entries(root.files));
    let rootdir = DirectoryModel {
        name: Seq::empty(),
        depth: 0,
        directories: Seq::empty(),
        files: root.files,
    };
    assert(Seq::<FileModel>::empty() + root.files =~= root.files);
    assert(m1.stack =~= seq![rootdir]);
    assert(m1.depth == 0);

    // The root's child subtrees land behind them, in order.
    lemma_run_siblings(root.directories, 0, m1, 1);
    let m2 = run_model(m1, flatten_dirs(root.directories));
    lemma_pop_to_len(m1.stack, 1);
    assert(pop_to(m1.stack, 1) == popped_n(m1.stack, 0));
    assert(rootdir.directories + root.directories.subrange(0, root.directories.len() as int)
        =~= root.directories);
    assert(DirectoryModel {
        directories: rootdir.directories + root.directories.subrange(
            0,
            root.directories.len() as int,
        ),
        ..rootdir
    } =~= root);
    assert(pop_to(m2.stack, 1) =~= seq![root]);

    // `finish` closes what is still open and hands back the root.
    assert(run_model(m0, flatten_root(root)) == m2);
    assert(pop_to(m2.stack, 1) == popped_n(m2.stack, m2.depth as nat));
    assert(finish_model(m2) == root);
}

} // verus!
