//! The source tree of a package, held in memory, and the module resolver.

use crate::line::{line_views, Line, LineView};
use crate::text::{chain, same};
use vstd::prelude::*;

verus! {

/// A source file: its path and its lines, classified.
#[derive(Debug, Clone, PartialEq, Eq)]
pub struct SourceFile {
    /// The path of the file, relative to the package root.
    pub path: String,
    /// The lines of the file, in their order.
    pub lines: Vec<Line>,
}

/// A `SourceFile` as a value of mathematics.
pub struct FileView {
    pub path: Seq<char>,
    pub lines: Seq<LineView>,
}

impl View for SourceFile {
    type V = FileView;

    open spec fn view(&self) -> FileView {
        FileView { path: self.path@, lines: line_views(self.lines@) }
    }
}

/// The source files of a package and of the packages it depends on by path.
/// Of two files with one path the tree keeps the first.
#[derive(Debug, Clone, PartialEq, Eq)]
pub struct SourceTree {
    files: Vec<SourceFile>,
}

impl View for SourceTree {
    type V = Seq<FileView>;

    closed spec fn view(&self) -> Seq<FileView> {
        self.files@.map_values(|file: SourceFile| file@)
    }
}

/// The place of the first file at or after `from` that has the path `path`.
pub open spec fn position_from(files: Seq<FileView>, path: Seq<char>, from: int) -> Option<int>
    decreases files.len() - from,
{
    if from < 0 || from >= files.len() {
        None
    } else if files[from].path == path {
        Some(from)
    } else {
        position_from(files, path, from + 1)
    }
}

/// The place of the first file that has the path `path`.
pub open spec fn position(files: Seq<FileView>, path: Seq<char>) -> Option<int> {
    position_from(files, path, 0)
}

/// The path of the file that holds a module, where the module has a file of
/// its own name.
pub open spec fn file_candidate(logical_path: Seq<char>) -> Seq<char> {
    logical_path + ".rs"@
}

/// The path of the file that holds a module, where the module has a
/// directory of its own name.
pub open spec fn index_candidate(logical_path: Seq<char>) -> Seq<char> {
    logical_path + "/mod.rs"@
}

/// The place of the file that holds the module at `logical_path`: the file of
/// the module's name if the tree has it, else the index file of the
/// directory of that name.
pub open spec fn resolved(files: Seq<FileView>, logical_path: Seq<char>) -> Option<int> {
    match position(files, file_candidate(logical_path)) {
        Some(i) => Some(i),
        None => position(files, index_candidate(logical_path)),
    }
}

/// The length of the longest path in `files`.
pub open spec fn longest_path(files: Seq<FileView>) -> nat
    decreases files.len(),
{
    if files.len() == 0 {
        0
    } else {
        let rest = longest_path(files.drop_last());
        if files.last().path.len() > rest {
            files.last().path.len()
        } else {
            rest
        }
    }
}

/// No path in `files` is longer than `longest_path(files)`.
pub proof fn lemma_longest_path(files: Seq<FileView>, i: int)
    requires
        0 <= i < files.len(),
    ensures
        files[i].path.len() <= longest_path(files),
    decreases files.len(),
{
    if i < files.len() - 1 {
        lemma_longest_path(files.drop_last(), i);
    }
}

/// A place that `position_from` gives holds a file with that path, and no
/// file between `from` and that place has it.
pub proof fn lemma_position_from(files: Seq<FileView>, path: Seq<char>, from: int)
    requires
        0 <= from,
    ensures
        match position_from(files, path, from) {
            Some(i) => from <= i < files.len() && files[i].path == path && forall|j: int|
                from <= j < i ==> files[j].path != path,
            None => forall|j: int| from <= j < files.len() ==> files[j].path != path,
        },
    decreases files.len() - from,
{
    if from < files.len() && files[from].path != path {
        lemma_position_from(files, path, from + 1);
    }
}

/// A module that resolves has a path that is shorter, by three characters
/// at least, than the longest path of the tree.
pub proof fn lemma_resolved_bound(files: Seq<FileView>, logical_path: Seq<char>)
    requires
        resolved(files, logical_path) is Some,
    ensures
        0 <= resolved(files, logical_path).unwrap() < files.len(),
        logical_path.len() + 3 <= longest_path(files),
{
    reveal_strlit(".rs");
    reveal_strlit("/mod.rs");
    lemma_position_from(files, file_candidate(logical_path), 0);
    lemma_position_from(files, index_candidate(logical_path), 0);
    lemma_longest_path(files, resolved(files, logical_path).unwrap());
}

/// The path of the file of the module at `logical_path`, where the module
/// has a file of its own name.
pub fn file_of(logical_path: &str) -> (r: String)
    ensures
        r@ == file_candidate(logical_path@),
{
    chain(logical_path, ".rs")
}

/// The path of the file of the module at `logical_path`, where the module
/// has a directory of its own name.
pub fn index_of(logical_path: &str) -> (r: String)
    ensures
        r@ == index_candidate(logical_path@),
{
    chain(logical_path, "/mod.rs")
}

impl SourceTree {
    /// A tree without files.
    pub fn new() -> (r: SourceTree)
        ensures
            r@ == Seq::<FileView>::empty(),
    {
        let r = SourceTree { files: Vec::new() };
        assert(r@ =~= Seq::<FileView>::empty());
        r
    }

    /// How many files the tree holds.
    pub fn len(&self) -> (r: usize)
        ensures
            r == self@.len(),
    {
        self.files.len()
    }

    /// The place of the file at `path`.
    pub fn find(&self, path: &str) -> (r: Option<usize>)
        ensures
            match r {
                Some(i) => position(self@, path@) == Some(i as int) && i < self@.len(),
                None => position(self@, path@) is None,
            },
    {
        let mut i: usize = 0;
        while i < self.files.len()
            invariant
                i <= self.files.len(),
                position(self@, path@) == position_from(self@, path@, i as int),
            decreases self.files.len() - i,
        {
            if same(self.files[i].path.as_str(), path) {
                return Some(i);
            }
            i = i + 1;
        }
        None
    }

    /// Whether the tree holds a file at `path`.
    pub fn contains(&self, path: &str) -> (r: bool)
        ensures
            r == position(self@, path@) is Some,
    {
        self.find(path).is_some()
    }

    /// The file at place `i`.
    pub fn file(&self, i: usize) -> (r: &SourceFile)
        requires
            i < self@.len(),
        ensures
            r@ == self@[i as int],
    {
        &self.files[i]
    }

    /// Adds a file, unless the tree holds one at that path already. Tells
    /// whether the file was added.
    pub fn insert(&mut self, path: &str, lines: Vec<Line>) -> (r: bool)
        ensures
            r == position(old(self)@, path@) is None,
            r ==> final(self)@ == old(self)@.push(
                FileView { path: path@, lines: line_views(lines@) },
            ),
            !r ==> final(self)@ == old(self)@,
    {
        if self.contains(path) {
            false
        } else {
            let file = SourceFile { path: path.to_owned(), lines };
            self.files.push(file);
            assert(self@ =~= old(self)@.push(FileView { path: path@, lines: line_views(lines@) }));
            true
        }
    }

    /// The place of the file that holds the module at `logical_path`.
    pub fn resolve(&self, logical_path: &str) -> (r: Option<usize>)
        ensures
            match r {
                Some(i) => resolved(self@, logical_path@) == Some(i as int) && i < self@.len(),
                None => resolved(self@, logical_path@) is None,
            },
    {
        let first = file_of(logical_path);
        match self.find(first.as_str()) {
            Some(i) => Some(i),
            None => {
                let second = index_of(logical_path);
                self.find(second.as_str())
            },
        }
    }
}

} // verus!
