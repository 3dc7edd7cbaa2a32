//! Finding the files below a directory.
//!
//! The walk itself never touches the file system. It says which directory it
//! wants listed next, takes the listing, and goes on until no directory is
//! left. Files come out in the order of a depth-first walk: the entries of a
//! directory in the order of its listing, and all that lies below a
//! sub-directory at the place of that sub-directory. A directory that cannot
//! be listed contributes nothing and stops nothing.

use vstd::prelude::*;

verus! {

/// A regular file found below the input root, by its local path.
#[derive(Debug, Clone, PartialEq, Eq)]
pub struct FileEntry {
    pub path: String,
}

impl View for FileEntry {
    type V = Seq<char>;

    open spec fn view(&self) -> Seq<char> {
        self.path@
    }
}

/// The paths of `entries`, in order.
pub open spec fn paths_of(entries: Seq<FileEntry>) -> Seq<Seq<char>> {
    Seq::new(entries.len(), |i: int| entries[i]@)
}

/// One entry of a directory listing.
#[derive(Debug, Clone, PartialEq, Eq)]
pub struct DirEntry {
    pub path: String,
    /// Whether the entry is a directory; anything else counts as a file.
    pub is_dir: bool,
}

/// What a `DirEntry` holds, the path as a character sequence.
pub struct DirEntryView {
    pub path: Seq<char>,
    pub is_dir: bool,
}

impl View for DirEntry {
    type V = DirEntryView;

    open spec fn view(&self) -> DirEntryView {
        DirEntryView { path: self.path@, is_dir: self.is_dir }
    }
}

/// The views of `entries`, in order.
pub open spec fn entries_of(entries: Seq<DirEntry>) -> Seq<DirEntryView> {
    Seq::new(entries.len(), |i: int| entries[i]@)
}

/// The views of `stack` from its top down.
pub open spec fn top_down(stack: Seq<DirEntry>) -> Seq<DirEntryView> {
    Seq::new(stack.len(), |i: int| stack[stack.len() - 1 - i]@)
}

/// What a listing holds; a directory that could not be listed holds nothing.
pub open spec fn listed(listing: Option<Seq<DirEntryView>>) -> Seq<DirEntryView> {
    match listing {
        Some(entries) => entries,
        None => Seq::empty(),
    }
}

/// The view of an optional listing.
pub open spec fn listing_view(listing: Option<Vec<DirEntry>>) -> Option<Seq<DirEntryView>> {
    match listing {
        Some(entries) => Some(entries_of(entries@)),
        None => None,
    }
}

/// A walk in progress.
#[derive(Debug, Clone, PartialEq, Eq)]
pub struct DirWalk {
    /// The entries still to visit; the next one is the last.
    pub stack: Vec<DirEntry>,
    /// The files found so far.
    pub files: Vec<FileEntry>,
}

/// A walk in progress: the entries still to visit, next one first, and the
/// paths of the files found so far.
pub struct WalkView {
    pub todo: Seq<DirEntryView>,
    pub files: Seq<Seq<char>>,
}

impl View for DirWalk {
    type V = WalkView;

    open spec fn view(&self) -> WalkView {
        WalkView { todo: top_down(self.stack@), files: paths_of(self.files@) }
    }
}

impl WalkView {
    /// A walk that has the directory at `root` to visit and nothing found.
    pub open spec fn start(root: Seq<char>) -> WalkView {
        WalkView { todo: seq![DirEntryView { path: root, is_dir: true }], files: Seq::empty() }
    }

    /// The walk once the next entry, a file, is counted as found.
    pub open spec fn take_file(self) -> WalkView {
        WalkView { todo: self.todo.drop_first(), files: self.files.push(self.todo[0].path) }
    }

    /// The walk once every file in front of the next directory is counted as
    /// found.
    pub open spec fn settle(self) -> WalkView
        decreases self.todo.len(),
    {
        if self.todo.len() > 0 && !self.todo[0].is_dir {
            self.take_file().settle()
        } else {
            self
        }
    }

    /// The directory that is to be listed next, if one is left.
    pub open spec fn next_dir(self) -> Option<Seq<char>> {
        let s = self.settle();
        if s.todo.len() > 0 {
            Some(s.todo[0].path)
        } else {
            None
        }
    }

    /// The walk once the next directory has been listed: its entries take its
    /// place, in the order of the listing. A directory that could not be
    /// listed just leaves. With no directory left, nothing changes.
    pub open spec fn feed(self, listing: Option<Seq<DirEntryView>>) -> WalkView {
        let s = self.settle();
        if s.todo.len() == 0 {
            s
        } else {
            WalkView { todo: listed(listing) + s.todo.drop_first(), files: s.files }
        }
    }
}

/// Begins a walk over everything below the directory at `path`.
pub fn fast_search_directory(path: String) -> (walk: DirWalk)
    ensures
        walk@ == WalkView::start(path@),
{
    let mut stack: Vec<DirEntry> = Vec::new();
    stack.push(DirEntry { path, is_dir: true });
    let walk = DirWalk { stack, files: Vec::new() };
    assert(walk@.todo =~= WalkView::start(path@).todo);
    assert(walk@.files =~= WalkView::start(path@).files);
    walk
}

impl DirWalk {
    /// Counts every file in front of the next directory as found.
    fn settle(&mut self)
        ensures
            final(self)@ == old(self)@.settle(),
            final(self).stack.len() > 0 ==> final(self).stack[final(self).stack.len() - 1].is_dir,
    {
        while self.stack.len() > 0 && !self.stack[self.stack.len() - 1].is_dir
            invariant
                self@.settle() == old(self)@.settle(),
            decreases self.stack.len(),
        {
            let ghost before = *self;
            let entry = self.stack.pop().unwrap();
            self.files.push(FileEntry { path: entry.path });
            proof {
                assert(before@.todo[0] == entry@);
                assert(self@.todo =~= before@.todo.drop_first());
                assert(self@.files =~= before@.files.push(entry@.path));
                assert(self@ == before@.take_file());
            }
        }
        proof {
            if self.stack.len() > 0 {
                assert(self@.todo[0] == self.stack[self.stack.len() - 1]@);
            }
        }
    }

    /// The directory to list next, or `None` when the walk is over. Files
    /// that stand in front of that directory are counted as found.
    pub fn next_dir(&mut self) -> (dir: Option<String>)
        ensures
            final(self)@ == old(self)@.settle(),
            match dir {
                Some(path) => old(self)@.next_dir() == Some(path@),
                None => old(self)@.next_dir() is None,
            },
    {
        self.settle();
        let n = self.stack.len();
        if n > 0 {
            assert(self@.todo[0] == self.stack[n - 1]@);
            Some(self.stack[n - 1].path.clone())
        } else {
            None
        }
    }

    /// Takes in the listing of the directory that `next_dir` named: `None`
    /// when it could not be listed.
    pub fn feed(&mut self, listing: Option<Vec<DirEntry>>)
        ensures
            final(self)@ == old(self)@.feed(listing_view(listing)),
    {
        self.settle();
        if self.stack.len() == 0 {
            return ;
        }
        let ghost settled = self@;
        self.stack.pop();
        let ghost rest = self@.todo;
        assert(rest =~= settled.todo.drop_first());
        match listing {
            None => {
                assert(self@.todo =~= listed(listing_view(listing)) + rest);
            },
            Some(entries) => {
                let mut entries = entries;
                let ghost all = entries_of(entries@);
                assert(self@.todo =~= all.skip(entries.len() as int) + rest);
                while entries.len() > 0
                    invariant
                        entries.len() <= all.len(),
                        entries_of(entries@) == all.take(entries.len() as int),
                        self@.todo == all.skip(entries.len() as int) + rest,
                        self@.files == settled.files,
                    decreases entries.len(),
                {
                    let ghost k = entries.len() as int;
                    let ghost before = self@.todo;
                    let ghost held = entries@;
                    let entry = entries.pop().unwrap();
                    self.stack.push(entry);
                    proof {
                        assert(entries_of(held)[k - 1] == entry@);
                        assert(all[k - 1] == entry@);
                        assert(entries_of(entries@) =~= all.take(k - 1));
                        assert(self@.todo =~= seq![entry@] + before);
                        assert(self@.todo =~= all.skip(k - 1) + rest);
                    }
                }
                assert(all.skip(0) =~= all);
            },
        }
    }

    /// The files found so far: all of them once `next_dir` has returned
    /// `None`.
    pub fn into_files(self) -> (files: Vec<FileEntry>)
        ensures
            paths_of(files@) == self@.files,
    {
        self.files
    }
}

/// A directory tree as the walk meets it.
pub enum Tree {
    /// A regular file.
    File { path: Seq<char> },
    /// A directory. One that cannot be read shows none of its children.
    Dir { path: Seq<char>, readable: bool, children: Seq<Tree> },
}

impl Tree {
    /// The entry by which the listing of its parent shows this node.
    pub open spec fn entry(self) -> DirEntryView {
        match self {
            Tree::File { path } => DirEntryView { path, is_dir: false },
            Tree::Dir { path, .. } => DirEntryView { path, is_dir: true },
        }
    }

    /// The nodes that a listing of this node shows.
    pub open spec fn below(self) -> Seq<Tree> {
        match self {
            Tree::Dir { readable: true, children, .. } => children,
            _ => Seq::empty(),
        }
    }

    /// What asking for a listing of this node gives.
    pub open spec fn listing(self) -> Option<Seq<DirEntryView>> {
        match self {
            Tree::Dir { readable: true, children, .. } => Some(forest_entries(children)),
            _ => None,
        }
    }

    /// The regular files that can be reached from this node through readable
    /// directories, in depth-first order.
    pub open spec fn files(self) -> Seq<Seq<char>>
        decreases self, 1nat,
    {
        match self {
            Tree::File { path } => seq![path],
            Tree::Dir { readable, children, .. } => if readable {
                forest_files(children)
            } else {
                Seq::empty()
            },
        }
    }

    /// The directories that can be reached from this node through readable
    /// directories, itself included.
    pub open spec fn dir_count(self) -> nat
        decreases self, 1nat,
    {
        match self {
            Tree::File { .. } => 0,
            Tree::Dir { readable, children, .. } => if readable {
                1 + forest_dirs(children)
            } else {
                1
            },
        }
    }
}

/// The entries of `trees`, in order.
pub open spec fn forest_entries(trees: Seq<Tree>) -> Seq<DirEntryView> {
    Seq::new(trees.len(), |i: int| trees[i].entry())
}

/// The files reachable from `trees`, tree by tree.
pub open spec fn forest_files(trees: Seq<Tree>) -> Seq<Seq<char>>
    decreases trees, 0nat,
{
    if trees.len() == 0 {
        Seq::empty()
    } else {
        trees[0].files() + forest_files(trees.drop_first())
    }
}

/// The count of directories reachable from `trees`.
pub open spec fn forest_dirs(trees: Seq<Tree>) -> nat
    decreases trees, 0nat,
{
    if trees.len() == 0 {
        0
    } else {
        trees[0].dir_count() + forest_dirs(trees.drop_first())
    }
}

/// `trees` without the files in front of its first directory.
pub open spec fn skip_files(trees: Seq<Tree>) -> Seq<Tree>
    decreases trees.len(),
{
    if trees.len() > 0 && trees[0] is File {
        skip_files(trees.drop_first())
    } else {
        trees
    }
}

/// The walk `w` after at most `listings` directories have been listed, each
/// request answered as the tree says. `trees` are the nodes behind the
/// entries that `w` has still to visit.
pub open spec fn explore(w: WalkView, trees: Seq<Tree>, listings: nat) -> WalkView
    decreases listings,
{
    let rest = skip_files(trees);
    if listings == 0 || rest.len() == 0 {
        w.settle()
    } else {
        explore(
            w.feed(rest[0].listing()),
            rest[0].below() + rest.drop_first(),
            (listings - 1) as nat,
        )
    }
}

/// The files and the directories of two forests side by side are those of
/// the first, then those of the second.
pub proof fn lemma_forest_files_concat(a: Seq<Tree>, b: Seq<Tree>)
    ensures
        forest_files(a + b) == forest_files(a) + forest_files(b),
        forest_dirs(a + b) == forest_dirs(a) + forest_dirs(b),
    decreases a.len(),
{
    if a.len() == 0 {
        assert(a + b =~= b);
        assert(forest_files(a) + forest_files(b) =~= forest_files(b));
    } else {
        assert((a + b).drop_first() =~= a.drop_first() + b);
        assert((a + b)[0] == a[0]);
        lemma_forest_files_concat(a.drop_first(), b);
        assert(forest_files(a + b) =~= forest_files(a) + forest_files(b));
    }
}

/// Settling a walk consumes exactly the files in front of the first
/// directory: what the walk has found and what it can still find add up to
/// the same files as before, and the directory it asks for next is the first
/// directory of the forest.
pub proof fn lemma_settle_follows_forest(w: WalkView, trees: Seq<Tree>)
    requires
        w.todo == forest_entries(trees),
    ensures
        w.settle().todo == forest_entries(skip_files(trees)),
        w.settle().files + forest_files(skip_files(trees)) == w.files + forest_files(trees),
        forest_dirs(skip_files(trees)) == forest_dirs(trees),
        skip_files(trees).len() > 0 ==> skip_files(trees)[0] is Dir && w.next_dir() == Some(
            skip_files(trees)[0].entry().path,
        ),
        skip_files(trees).len() == 0 ==> w.next_dir() is None,
    decreases trees.len(),
{
    if trees.len() > 0 && trees[0] is File {
        let rest = trees.drop_first();
        let next = w.take_file();
        assert(w.todo[0] == trees[0].entry());
        assert(next.todo =~= forest_entries(rest));
        lemma_settle_follows_forest(next, rest);
        assert(forest_files(trees) == trees[0].files() + forest_files(rest));
        assert(trees[0].files() == seq![trees[0].entry().path]);
        assert(forest_dirs(trees) == trees[0].dir_count() + forest_dirs(rest));
        assert(trees[0].dir_count() == 0);
        assert(next.files + forest_files(rest) =~= w.files + forest_files(trees));
    } else {
        if trees.len() > 0 {
            assert(w.todo[0] == trees[0].entry());
        }
        assert(w.settle().files + forest_files(trees) =~= w.files + forest_files(trees));
    }
}

/// A walk whose pending entries stand for `trees` ends with nothing left to
/// visit once every reachable directory has been listed, and has then found,
/// behind what it had found before, exactly the files reachable from `trees`.
pub proof fn lemma_explore_finds_forest(w: WalkView, trees: Seq<Tree>, listings: nat)
    requires
        w.todo == forest_entries(trees),
        listings >= forest_dirs(trees),
    ensures
        explore(w, trees, listings).todo.len() == 0,
        explore(w, trees, listings).files == w.files + forest_files(trees),
    decreases listings,
{
    let rest = skip_files(trees);
    let s = w.settle();
    lemma_settle_follows_forest(w, trees);
    if rest.len() == 0 {
        assert(forest_files(rest) =~= Seq::empty());
        assert(s.files =~= s.files + forest_files(rest));
    } else {
        let dir = rest[0];
        let tail = rest.drop_first();
        assert(dir.dir_count() >= 1);
        assert(forest_dirs(rest) == dir.dir_count() + forest_dirs(tail));
        let next = w.feed(dir.listing());
        let under = dir.below() + tail;
        assert(listed(dir.listing()) =~= forest_entries(dir.below()));
        assert(s.todo.drop_first() =~= forest_entries(tail));
        assert(next.todo =~= forest_entries(under));
        lemma_forest_files_concat(dir.below(), tail);
        assert(forest_dirs(dir.below()) == dir.dir_count() - 1);
        assert(forest_files(dir.below()) =~= dir.files());
        lemma_explore_finds_forest(next, under, (listings - 1) as nat);
        assert(forest_files(rest) == dir.files() + forest_files(tail));
        assert(s.files + (dir.files() + forest_files(tail)) =~= (s.files + dir.files())
            + forest_files(tail));
        assert(explore(w, trees, listings).files =~= w.files + forest_files(trees));
    }
}

/// Walking a directory tree finds exactly the regular files that can be
/// reached from its root, each once, directories themselves left out: once
/// every reachable directory has been listed, nothing is left to visit and
/// the files found are those of the tree, in depth-first order.
pub proof fn lemma_walk_finds_exactly_the_files(root: Tree)
    requires
        root is Dir,
    ensures
        explore(WalkView::start(root.entry().path), seq![root], root.dir_count()).todo.len() == 0,
        explore(WalkView::start(root.entry().path), seq![root], root.dir_count()).files
            == root.files(),
{
    let w = WalkView::start(root.entry().path);
    let trees = seq![root];
    assert(w.todo =~= forest_entries(trees));
    assert(trees.drop_first() =~= Seq::<Tree>::empty());
    assert(forest_dirs(trees) == trees[0].dir_count() + forest_dirs(trees.drop_first()));
    assert(forest_dirs(trees.drop_first()) == 0);
    assert(forest_files(trees) == trees[0].files() + forest_files(trees.drop_first()));
    assert(forest_files(trees.drop_first()) =~= Seq::<Seq<char>>::empty());
    assert(forest_files(trees) =~= root.files());
    lemma_explore_finds_forest(w, trees, root.dir_count());
    assert(w.files + forest_files(trees) =~= root.files());
}

} // verus!
