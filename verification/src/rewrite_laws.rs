//! What holds of the rewriting of imports.

use crate::rewrite::{begins_with_one, rerooted, rewritten, root_prefix, RulesView, Variant};
use crate::text::replaced;
use crate::text_laws::{disjoint, lemma_replaced_by_itself, lemma_replaced_has_no_token, occurs_in};
use crate::unit::{qualified, UnitView, SELF_REFERENCE, SEPARATOR};
use vstd::prelude::*;

verus! {

/// Whether `text` ends with `end`.
pub open spec fn ends_with(text: Seq<char>, end: Seq<char>) -> bool {
    end.len() <= text.len() && text.skip(text.len() - end.len()) == end
}

/// Whether none of `names` begins the root prefix or begins with it.
pub open spec fn apart_from_root(names: Seq<Seq<char>>) -> bool {
    forall|i: int|
        0 <= i < names.len() ==> !(#[trigger] names[i]).is_prefix_of(root_prefix())
            && !root_prefix().is_prefix_of(names[i])
}

/// A name that is apart from the root prefix begins no path that begins
/// with the root prefix.
proof fn lemma_apart_name(name: Seq<char>, rest: Seq<char>)
    requires
        !name.is_prefix_of(root_prefix()),
        !root_prefix().is_prefix_of(name),
    ensures
        !name.is_prefix_of(root_prefix() + rest),
{
    let whole = root_prefix() + rest;
    if name.is_prefix_of(whole) {
        if name.len() <= root_prefix().len() {
            assert(name =~= root_prefix().subrange(0, name.len() as int)) by {
                assert forall|k: int| 0 <= k < name.len() implies name[k] == root_prefix()[k] by {
                    assert(name[k] == whole.subrange(0, name.len() as int)[k]);
                }
            }
        } else {
            assert(root_prefix() =~= name.subrange(0, root_prefix().len() as int)) by {
                assert forall|k: int| 0 <= k < root_prefix().len() implies root_prefix()[k]
                    == name[k] by {
                    assert(name[k] == whole.subrange(0, name.len() as int)[k]);
                }
            }
        }
    }
}

/// A path that is led through the block of a dependency still ends as it
/// did, and a path that begins with the root prefix still begins with it.
pub proof fn lemma_rerooted_keeps_ends(path: Seq<char>, names: Seq<Seq<char>>)
    ensures
        ends_with(rerooted(path, names), path),
        root_prefix().is_prefix_of(path) ==> root_prefix().is_prefix_of(rerooted(path, names)),
{
    let longer = root_prefix() + path;
    assert(path.skip(0) =~= path);
    assert(longer.skip(longer.len() - path.len()) =~= path);
    assert(root_prefix() =~= longer.subrange(0, root_prefix().len() as int));
}

/// An import that begins with the name of a dependency is led through the
/// root: the self reference and a separator are put before its path, once.
pub proof fn lemma_rerooted_through_root(path: Seq<char>, names: Seq<Seq<char>>, which: int)
    requires
        0 <= which < names.len(),
        names[which].is_prefix_of(path),
    ensures
        rerooted(path, names) == root_prefix() + path,
{
}

/// An import that begins with the name of no dependency stays as it is.
pub proof fn lemma_rerooted_stays(path: Seq<char>, names: Seq<Seq<char>>)
    requires
        forall|i: int| 0 <= i < names.len() ==> !(#[trigger] names[i]).is_prefix_of(path),
    ensures
        rerooted(path, names) == path,
{
}

/// Where the names of the dependencies are apart from the root prefix, a
/// path that begins with the root prefix begins with none of the names and
/// stays as it is.
pub proof fn lemma_rooted_path_stays(path: Seq<char>, names: Seq<Seq<char>>)
    requires
        apart_from_root(names),
    ensures
        !begins_with_one(root_prefix() + path, names),
        rerooted(root_prefix() + path, names) == root_prefix() + path,
{
    assert forall|i: int| 0 <= i < names.len() implies !(#[trigger] names[i]).is_prefix_of(
        root_prefix() + path,
    ) by {
        lemma_apart_name(names[i], path);
    }
}

/// Where the names of the dependencies are apart from the root prefix, a
/// path that has been led through the root stays as it is when it is led
/// through again.
pub proof fn lemma_rerooted_twice(path: Seq<char>, names: Seq<Seq<char>>)
    requires
        apart_from_root(names),
    ensures
        rerooted(rerooted(path, names), names) == rerooted(path, names),
{
    lemma_rooted_path_stays(path, names);
}

/// In the dependency aware variant, an import whose path, with its self
/// references replaced, begins with the name of a dependency is led through
/// the root: the self reference and a separator stand before that path,
/// once.
pub proof fn lemma_dependency_import_is_rerooted(
    rules: RulesView,
    unit: UnitView,
    path: Seq<char>,
    which: int,
)
    requires
        rules.variant == Variant::DependencyAware,
        0 <= which < rules.dependency_names.len(),
        rules.dependency_names[which].is_prefix_of(
            replaced(path, SELF_REFERENCE@, unit.root_reference()),
        ),
    ensures
        rewritten(rules, unit, path) == root_prefix() + replaced(
            path,
            SELF_REFERENCE@,
            unit.root_reference(),
        ),
{
}

/// In the simple variant, the import of a merge root holds the name of the
/// unit no more, where that name is not empty and has no character of the
/// self reference.
pub proof fn lemma_simple_import_has_no_unit_name(rules: RulesView, unit: UnitView, path: Seq<char>)
    requires
        rules.variant == Variant::Simple,
        unit.is_merge_root(),
        unit.module_name.len() > 0,
        disjoint(unit.module_name, SELF_REFERENCE@),
    ensures
        !occurs_in(unit.module_name, rewritten(rules, unit, path)),
{
    reveal_strlit("crate");
    lemma_replaced_has_no_token(path, unit.module_name, SELF_REFERENCE@);
}

/// In a unit at the top of the file the self reference stays: in the
/// dependency aware variant, at every depth of such a unit, an import is
/// rewritten only by being led through the block of a dependency.
pub proof fn lemma_top_import_keeps_self_reference(
    rules: RulesView,
    unit: UnitView,
    path: Seq<char>,
)
    requires
        rules.variant == Variant::DependencyAware,
        unit.block is None,
    ensures
        rewritten(rules, unit, path) == rerooted(path, rules.dependency_names),
{
    lemma_replaced_by_itself(path, SELF_REFERENCE@);
}

/// An import of a file that stands alone needs no rewriting: in the
/// dependency aware variant, for a unit at the top of the file and without
/// dependencies, the rewriting leaves every path as it is.
pub proof fn lemma_freestanding_import_stays(rules: RulesView, top: UnitView, path: Seq<char>)
    requires
        rules.variant == Variant::DependencyAware,
        rules.dependency_names.len() == 0,
        top.block is None,
    ensures
        rewritten(rules, top, path) == path,
{
    lemma_replaced_by_itself(path, SELF_REFERENCE@);
}

/// In the dependency aware variant, where the names of the dependencies are
/// apart from the root prefix, a rewritten import needs no further
/// rewriting: rewritten again as an import of a unit at the top of the file,
/// it stays as it is.
pub proof fn lemma_rewritten_import_is_settled(
    rules: RulesView,
    unit: UnitView,
    top: UnitView,
    path: Seq<char>,
)
    requires
        rules.variant == Variant::DependencyAware,
        apart_from_root(rules.dependency_names),
        top.block is None,
    ensures
        rewritten(rules, top, rewritten(rules, unit, path)) == rewritten(rules, unit, path),
{
    let once = rewritten(rules, unit, path);
    lemma_replaced_by_itself(once, SELF_REFERENCE@);
    lemma_rerooted_twice(
        replaced(path, SELF_REFERENCE@, unit.root_reference()),
        rules.dependency_names,
    );
}

/// In the dependency aware variant, where the names of the dependencies are
/// apart from the root prefix, an import that begins with the self reference
/// begins with the root reference of its unit after the rewriting.
pub proof fn lemma_leading_self_reference_is_replaced(
    rules: RulesView,
    unit: UnitView,
    path: Seq<char>,
)
    requires
        rules.variant == Variant::DependencyAware,
        apart_from_root(rules.dependency_names),
        SELF_REFERENCE@.is_prefix_of(path),
    ensures
        unit.root_reference().is_prefix_of(rewritten(rules, unit, path)),
{
    reveal_strlit("crate");
    let reference = unit.root_reference();
    let rest = replaced(path.skip(SELF_REFERENCE@.len() as int), SELF_REFERENCE@, reference);
    let once = replaced(path, SELF_REFERENCE@, reference);
    assert(once == reference + rest);
    assert(reference =~= once.subrange(0, reference.len() as int));
    if begins_with_one(once, rules.dependency_names) {
        let twice = root_prefix() + once;
        match unit.block {
            None => {
                assert(reference =~= twice.subrange(0, reference.len() as int));
            },
            Some(name) => {
                assert(once =~= root_prefix() + (name + rest));
                lemma_rooted_path_stays(name + rest, rules.dependency_names);
            },
        }
    }
}

/// The qualified name of a module has one segment more than that of the
/// module that declares it, the module's own name, and every module of a
/// unit has the root reference of the unit.
pub proof fn lemma_qualified_name_grows(unit: UnitView, name: Seq<char>)
    ensures
        unit.child(name).qualified_name() == unit.qualified_name() + SEPARATOR@ + name,
        unit.child(name).nested.len() == unit.nested.len() + 1,
        !unit.child(name).is_merge_root(),
        unit.child(name).root_reference() == unit.root_reference(),
{
    let longer = unit.nested.push(name);
    assert(longer.drop_last() =~= unit.nested);
    assert(qualified(unit.root_reference(), longer) == qualified(
        unit.root_reference(),
        longer.drop_last(),
    ) + SEPARATOR@ + longer.last());
}

} // verus!
