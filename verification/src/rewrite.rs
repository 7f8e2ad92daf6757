//! How the path of an import is rewritten so that it still resolves in the
//! merged file.

use crate::text::{chain3, replace_all, replaced, starts_with, texts};
use crate::unit::{ModuleUnit, UnitView, SELF_REFERENCE, SEPARATOR};
use vstd::prelude::*;

verus! {

/// The two ways of merging.
#[derive(Debug, Clone, Copy, PartialEq, Eq, Structural)]
pub enum Variant {
    /// The units of the package are merged side by side. In the entry file
    /// of a unit the name of the package becomes the self reference;
    /// imports below stay as they are.
    Simple,
    /// Each library unit is merged into a module block of its own. The self
    /// reference becomes the path of that block, and an import from a
    /// dependency that is merged too is led through the block of that
    /// dependency.
    DependencyAware,
}

/// What a merge needs to know besides the source tree.
#[derive(Debug, Clone, PartialEq, Eq)]
pub struct Rules {
    /// The way of merging.
    pub variant: Variant,
    /// The names of the blocks of the dependencies that are merged too.
    pub dependency_names: Vec<String>,
    /// Whether diagnostic output statements are left out.
    pub remove_diagnostics: bool,
}

/// `Rules` as a value of mathematics.
pub struct RulesView {
    pub variant: Variant,
    pub dependency_names: Seq<Seq<char>>,
    pub remove_diagnostics: bool,
}

impl View for Rules {
    type V = RulesView;

    open spec fn view(&self) -> RulesView {
        RulesView {
            variant: self.variant,
            dependency_names: texts(self.dependency_names@),
            remove_diagnostics: self.remove_diagnostics,
        }
    }
}

/// What is put before the path of an import that is led through the block
/// of a dependency: the self reference and a separator.
pub open spec fn root_prefix() -> Seq<char> {
    SELF_REFERENCE@ + SEPARATOR@
}

/// Whether one of `names` begins `path`.
pub open spec fn begins_with_one(path: Seq<char>, names: Seq<Seq<char>>) -> bool {
    exists|i: int| 0 <= i < names.len() && (#[trigger] names[i]).is_prefix_of(path)
}

/// `path` led through the block of a dependency: with the self reference
/// and a separator before it, once, where the path begins with one of the
/// names, and else as it is.
pub open spec fn rerooted(path: Seq<char>, names: Seq<Seq<char>>) -> Seq<char> {
    if begins_with_one(path, names) {
        root_prefix() + path
    } else {
        path
    }
}

/// The path of an import of `unit` as the merged file holds it.
pub open spec fn rewritten(rules: RulesView, unit: UnitView, path: Seq<char>) -> Seq<char> {
    match rules.variant {
        Variant::Simple => if unit.is_merge_root() {
            replaced(path, unit.module_name, SELF_REFERENCE@)
        } else {
            path
        },
        Variant::DependencyAware => rerooted(
            replaced(path, SELF_REFERENCE@, unit.root_reference()),
            rules.dependency_names,
        ),
    }
}

/// Whether `path` begins with one of `names`.
pub fn begins_with_any(path: &str, names: &Vec<String>) -> (r: bool)
    ensures
        r == begins_with_one(path@, texts(names@)),
{
    let mut i: usize = 0;
    while i < names.len()
        invariant
            i <= names.len(),
            forall|k: int| 0 <= k < i ==> !(#[trigger] texts(names@)[k]).is_prefix_of(path@),
        decreases names.len() - i,
    {
        if starts_with(path, names[i].as_str()) {
            assert(texts(names@)[i as int].is_prefix_of(path@));
            return true;
        }
        i = i + 1;
    }
    false
}

/// Leads `path` through the block of the dependency that it begins with.
pub fn reroot(path: &str, names: &Vec<String>) -> (r: String)
    ensures
        r@ == rerooted(path@, texts(names@)),
{
    if begins_with_any(path, names) {
        chain3(SELF_REFERENCE, SEPARATOR, path)
    } else {
        path.to_owned()
    }
}

/// Rewrites the path of an import of `unit`.
pub fn rewrite_import(rules: &Rules, unit: &ModuleUnit, path: &str) -> (r: String)
    ensures
        r@ == rewritten(rules@, unit@, path@),
{
    match rules.variant {
        Variant::Simple => {
            if unit.is_merge_root() {
                replace_all(path, unit.module_name.as_str(), SELF_REFERENCE)
            } else {
                path.to_owned()
            }
        },
        Variant::DependencyAware => {
            let reference = unit.root_reference();
            let replaced = replace_all(path, SELF_REFERENCE, reference.as_str());
            reroot(replaced.as_str(), &rules.dependency_names)
        },
    }
}

} // verus!
