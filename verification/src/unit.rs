//! A module on the way from a merge root down to the module that is being
//! merged.

use crate::text::{chain, chain3, dir_of, dir_prefix, texts};
use vstd::prelude::*;

verus! {

/// The name by which source code calls the root of its own crate.
pub const SELF_REFERENCE: &'static str = "crate";

/// What stands between the segments of a qualified name.
pub const SEPARATOR: &'static str = "::";

/// A module that is being merged.
#[derive(Debug, Clone, PartialEq, Eq)]
pub struct ModuleUnit {
    /// The path of the module's file without its extension, which is also
    /// the directory of the module's own modules.
    pub path: String,
    /// The name of the module; for a merge root, the name of the unit.
    pub module_name: String,
    /// The name of the block that holds the unit in the merged file; none
    /// for a unit that is merged at the top of the file.
    pub block: Option<String>,
    /// The names of the modules from below the merge root down to this
    /// module, itself included; none for the merge root.
    pub nested: Vec<String>,
}

/// A `ModuleUnit` as a value of mathematics.
pub struct UnitView {
    pub path: Seq<char>,
    pub module_name: Seq<char>,
    pub block: Option<Seq<char>>,
    pub nested: Seq<Seq<char>>,
}

/// `start` and the texts of `segments`, with a separator before each
/// segment.
pub open spec fn qualified(start: Seq<char>, segments: Seq<Seq<char>>) -> Seq<char>
    decreases segments.len(),
{
    if segments.len() == 0 {
        start
    } else {
        qualified(start, segments.drop_last()) + SEPARATOR@ + segments.last()
    }
}

/// The view of the name of a block.
pub open spec fn block_view(block: Option<String>) -> Option<Seq<char>> {
    match block {
        Some(name) => Some(name@),
        None => None,
    }
}

impl UnitView {
    /// The merge root of a unit that is merged at the top of the file.
    pub open spec fn root(path: Seq<char>, name: Seq<char>) -> UnitView {
        UnitView { path, module_name: name, block: None, nested: Seq::empty() }
    }

    /// The merge root of a unit that is merged into the block `name`.
    pub open spec fn root_in_block(path: Seq<char>, name: Seq<char>) -> UnitView {
        UnitView { path, module_name: name, block: Some(name), nested: Seq::empty() }
    }

    /// Whether the merge began at this module.
    pub open spec fn is_merge_root(self) -> bool {
        self.nested.len() == 0
    }

    /// The path by which the merged file reaches the root of the unit: the
    /// self reference for a unit at the top of the file, and the self
    /// reference with the name of the block for a unit in a block. It is the
    /// same for every module of the unit.
    pub open spec fn root_reference(self) -> Seq<char> {
        match self.block {
            None => SELF_REFERENCE@,
            Some(name) => SELF_REFERENCE@ + SEPARATOR@ + name,
        }
    }

    /// The qualified name of the module in the merged file: the root
    /// reference of the unit, and one segment more with each level below
    /// the merge root.
    pub open spec fn qualified_name(self) -> Seq<char> {
        qualified(self.root_reference(), self.nested)
    }

    /// The path of the module `name` that this module declares: beside the
    /// file of a merge root, and in the directory of any other module.
    pub open spec fn child_path(self, name: Seq<char>) -> Seq<char> {
        if self.is_merge_root() {
            dir_prefix(self.path) + name
        } else {
            self.path + "/"@ + name
        }
    }

    /// The module `name` that this module declares.
    pub open spec fn child(self, name: Seq<char>) -> UnitView {
        UnitView {
            path: self.child_path(name),
            module_name: name,
            block: self.block,
            nested: self.nested.push(name),
        }
    }
}

impl View for ModuleUnit {
    type V = UnitView;

    open spec fn view(&self) -> UnitView {
        UnitView {
            path: self.path@,
            module_name: self.module_name@,
            block: block_view(self.block),
            nested: texts(self.nested@),
        }
    }
}

impl ModuleUnit {
    /// The merge root of a unit that is merged at the top of the file: the
    /// entry file at `path`, a path without extension, of the unit `name`.
    pub fn root(path: &str, name: &str) -> (r: ModuleUnit)
        ensures
            r@ == UnitView::root(path@, name@),
    {
        let r = ModuleUnit {
            path: path.to_owned(),
            module_name: name.to_owned(),
            block: None,
            nested: Vec::new(),
        };
        assert(r@.nested =~= Seq::<Seq<char>>::empty());
        r
    }

    /// The merge root of a unit that is merged into the block `name`: the
    /// entry file at `path`, a path without extension.
    pub fn root_in_block(path: &str, name: &str) -> (r: ModuleUnit)
        ensures
            r@ == UnitView::root_in_block(path@, name@),
    {
        let r = ModuleUnit {
            path: path.to_owned(),
            module_name: name.to_owned(),
            block: Some(name.to_owned()),
            nested: Vec::new(),
        };
        assert(r@.nested =~= Seq::<Seq<char>>::empty());
        r
    }

    /// Whether the merge began at this module.
    pub fn is_merge_root(&self) -> (r: bool)
        ensures
            r == self@.is_merge_root(),
    {
        self.nested.len() == 0
    }

    /// The path by which the merged file reaches the root of the unit.
    pub fn root_reference(&self) -> (r: String)
        ensures
            r@ == self@.root_reference(),
    {
        match &self.block {
            None => SELF_REFERENCE.to_owned(),
            Some(name) => chain3(SELF_REFERENCE, SEPARATOR, name.as_str()),
        }
    }

    /// The qualified name of the module in the merged file.
    pub fn qualified_name(&self) -> (r: String)
        ensures
            r@ == self@.qualified_name(),
    {
        let mut r = self.root_reference();
        let mut i: usize = 0;
        assert(self@.nested.take(0) =~= Seq::<Seq<char>>::empty());
        while i < self.nested.len()
            invariant
                i <= self.nested.len(),
                r@ == qualified(self@.root_reference(), self@.nested.take(i as int)),
            decreases self.nested.len() - i,
        {
            r = chain3(r.as_str(), SEPARATOR, self.nested[i].as_str());
            assert(self@.nested.take(i + 1).drop_last() == self@.nested.take(i as int));
            i = i + 1;
        }
        assert(self@.nested.take(i as int) == self@.nested);
        r
    }

    /// The module `name` that this module declares.
    pub fn child(&self, name: &str) -> (r: ModuleUnit)
        ensures
            r@ == self@.child(name@),
    {
        let path = if self.is_merge_root() {
            let dir = dir_of(self.path.as_str());
            chain(dir.as_str(), name)
        } else {
            chain3(self.path.as_str(), "/", name)
        };
        let block = match &self.block {
            None => None,
            Some(name) => Some(name.clone()),
        };
        let mut nested: Vec<String> = Vec::new();
        let mut i: usize = 0;
        while i < self.nested.len()
            invariant
                i <= self.nested.len(),
                nested.len() == i,
                forall|k: int| 0 <= k < i ==> (#[trigger] nested@[k])@ == self.nested@[k]@,
            decreases self.nested.len() - i,
        {
            nested.push(self.nested[i].clone());
            i = i + 1;
        }
        nested.push(name.to_owned());
        let r = ModuleUnit { path, module_name: name.to_owned(), block, nested };
        assert(r@.nested =~= self@.nested.push(name@));
        r
    }
}

} // verus!
