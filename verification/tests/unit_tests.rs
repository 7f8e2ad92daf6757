use cargo_merge::rewrite::{begins_with_any, reroot, rewrite_import, Rules, Variant};
use cargo_merge::unit::ModuleUnit;

fn names(names: &[&str]) -> Vec<String> {
    names.iter().map(|name| name.to_string()).collect()
}

fn aware(dependencies: &[&str]) -> Rules {
    Rules {
        variant: Variant::DependencyAware,
        dependency_names: names(dependencies),
        remove_diagnostics: false,
    }
}

fn simple() -> Rules {
    Rules { variant: Variant::Simple, dependency_names: vec![], remove_diagnostics: false }
}

#[test]
fn a_merge_root_at_the_top_of_the_file_is_the_crate_itself() {
    let root = ModuleUnit::root("src/main", "mypkg");
    assert_eq!(root.path, "src/main");
    assert_eq!(root.module_name, "mypkg");
    assert_eq!(root.block, None);
    assert!(root.nested.is_empty());
    assert!(root.is_merge_root());
    assert_eq!(root.qualified_name(), "crate");
    assert_eq!(root.root_reference(), "crate");
}

#[test]
fn a_merge_root_in_a_block_is_reached_through_the_block() {
    let root = ModuleUnit::root_in_block("src/lib", "mypkg");
    assert_eq!(root.path, "src/lib");
    assert_eq!(root.module_name, "mypkg");
    assert_eq!(root.block, Some("mypkg".to_string()));
    assert!(root.nested.is_empty());
    assert!(root.is_merge_root());
    assert_eq!(root.qualified_name(), "crate::mypkg");
    assert_eq!(root.root_reference(), "crate::mypkg");
}

#[test]
fn a_module_of_a_merge_root_stands_beside_the_entry_file() {
    let foo = ModuleUnit::root_in_block("src/lib", "mypkg").child("foo");
    assert_eq!(foo.path, "src/foo");
    assert_eq!(foo.module_name, "foo");
    assert_eq!(foo.block, Some("mypkg".to_string()));
    assert_eq!(foo.nested, names(&["foo"]));
    assert!(!foo.is_merge_root());
    assert_eq!(foo.qualified_name(), "crate::mypkg::foo");
    assert_eq!(foo.root_reference(), "crate::mypkg");
    assert_eq!(ModuleUnit::root("lib", "p").child("foo").path, "foo");
    assert_eq!(ModuleUnit::root("../dep/src/lib", "dep").child("a").path, "../dep/src/a");
}

#[test]
fn a_module_below_stands_in_the_directory_of_its_parent() {
    let bar = ModuleUnit::root_in_block("src/lib", "mypkg").child("foo").child("bar");
    assert_eq!(bar.path, "src/foo/bar");
    assert_eq!(bar.module_name, "bar");
    assert_eq!(bar.nested, names(&["foo", "bar"]));
    assert_eq!(bar.qualified_name(), "crate::mypkg::foo::bar");
    assert_eq!(bar.root_reference(), "crate::mypkg");
    let baz = bar.child("baz");
    assert_eq!(baz.path, "src/foo/bar/baz");
    assert_eq!(baz.qualified_name(), "crate::mypkg::foo::bar::baz");
    assert_eq!(baz.root_reference(), "crate::mypkg");
}

#[test]
fn the_qualified_name_grows_by_one_segment_with_each_level() {
    let mut unit = ModuleUnit::root("src/main", "");
    let mut expected = "crate".to_string();
    for name in ["a", "b", "c"] {
        let child = unit.child(name);
        expected = format!("{}::{}", expected, name);
        assert_eq!(child.qualified_name(), expected);
        assert_eq!(child.nested.len(), unit.nested.len() + 1);
        assert_eq!(child.root_reference(), "crate");
        unit = child;
    }
    assert_eq!(expected, "crate::a::b::c");
}

#[test]
fn reroot_leads_a_path_through_the_root() {
    assert_eq!(reroot("helper_lib::util;", &names(&["helper_lib"])), "crate::helper_lib::util;");
    assert_eq!(reroot("std::io;", &names(&["helper_lib"])), "std::io;");
    assert_eq!(reroot("helper::x;", &names(&["helper_lib"])), "helper::x;");
    assert_eq!(reroot("b::x;", &names(&["a", "b", "d"])), "crate::b::x;");
    assert_eq!(reroot("b::x;", &names(&[])), "b::x;");
}

#[test]
fn reroot_puts_the_prefix_once_whatever_the_names() {
    assert_eq!(reroot("foo::x", &names(&["c", "foo"])), "crate::foo::x");
    assert_eq!(reroot("foo::x", &names(&["foo", "c"])), "crate::foo::x");
    assert_eq!(reroot("foo::x", &names(&["foo", "foo"])), "crate::foo::x");
    assert_eq!(reroot("c::x;", &names(&["c", "cr"])), "crate::c::x;");
    assert_eq!(reroot("cr::x;", &names(&["c", "cr"])), "crate::cr::x;");
}

#[test]
fn begins_with_any_tries_every_name() {
    assert!(begins_with_any("b::x", &names(&["a", "b"])));
    assert!(begins_with_any("b::x", &names(&["", "z"])));
    assert!(!begins_with_any("b::x", &names(&["a", "bb"])));
    assert!(!begins_with_any("b::x", &names(&[])));
}

#[test]
fn the_self_reference_of_a_unit_in_a_block_becomes_the_path_of_the_block() {
    let rules = aware(&["helper_lib"]);
    let root = ModuleUnit::root_in_block("src/lib", "mypkg");
    let foo = root.child("foo");
    let bar = foo.child("bar");
    assert_eq!(rewrite_import(&rules, &root, "crate::bar;"), "crate::mypkg::bar;");
    assert_eq!(rewrite_import(&rules, &foo, "crate::bar;"), "crate::mypkg::bar;");
    assert_eq!(rewrite_import(&rules, &bar, "crate::bar;"), "crate::mypkg::bar;");
    assert_eq!(
        rewrite_import(&rules, &foo, "crate::{a, crate::b};"),
        "crate::mypkg::{a, crate::mypkg::b};"
    );
    assert_eq!(rewrite_import(&rules, &foo, "super::x;"), "super::x;");
}

#[test]
fn the_self_reference_of_a_unit_at_the_top_of_the_file_stays() {
    let rules = aware(&["helper_lib"]);
    let root = ModuleUnit::root("src/main", "");
    let foo = root.child("foo");
    let bar = foo.child("bar");
    assert_eq!(rewrite_import(&rules, &root, "crate::bar;"), "crate::bar;");
    assert_eq!(rewrite_import(&rules, &foo, "crate::bar;"), "crate::bar;");
    assert_eq!(rewrite_import(&rules, &bar, "crate::a::crate;"), "crate::a::crate;");
}

#[test]
fn the_dependency_aware_variant_leads_dependencies_through_the_root() {
    let rules = aware(&["helper_lib", "other"]);
    let root = ModuleUnit::root("src/main", "");
    let foo = root.child("foo");
    assert_eq!(rewrite_import(&rules, &root, "helper_lib::util;"), "crate::helper_lib::util;");
    assert_eq!(rewrite_import(&rules, &foo, "other::a::b;"), "crate::other::a::b;");
    assert_eq!(rewrite_import(&rules, &foo, "std::io;"), "std::io;");
}

#[test]
fn the_simple_variant_replaces_the_name_of_the_package_at_the_root_only() {
    let rules = simple();
    let root = ModuleUnit::root("src/main", "mypkg");
    let foo = root.child("foo");
    assert_eq!(rewrite_import(&rules, &root, "mypkg::bar;"), "crate::bar;");
    assert_eq!(rewrite_import(&rules, &root, "crate::bar;"), "crate::bar;");
    assert_eq!(rewrite_import(&rules, &foo, "mypkg::bar;"), "mypkg::bar;");
    assert_eq!(rewrite_import(&rules, &foo, "crate::bar;"), "crate::bar;");
}

#[test]
fn a_dependency_named_with_the_self_reference_is_taken_for_one() {
    let rules = aware(&["crate_utils"]);
    let top = ModuleUnit::root("src/main", "");
    let root = ModuleUnit::root_in_block("src/lib", "app");
    let foo = root.child("foo");
    assert_eq!(rewrite_import(&rules, &top, "crate_utils::x;"), "crate::crate_utils::x;");
    assert_eq!(rewrite_import(&rules, &root, "crate_utils::x;"), "crate::app_utils::x;");
    assert_eq!(rewrite_import(&rules, &foo, "crate_utils::x;"), "crate::app_utils::x;");
}

#[test]
fn an_import_that_begins_with_the_self_reference_begins_with_the_root_reference() {
    let rules = aware(&["helper_lib", "cratefoo"]);
    let top = ModuleUnit::root("src/main", "");
    let root = ModuleUnit::root_in_block("src/lib", "app");
    let deep = root.child("a").child("b");
    for path in ["crate::x;", "crate", "cratefoo::y;", "crate::crate::z;"] {
        assert!(rewrite_import(&rules, &top, path).starts_with("crate"));
        assert!(rewrite_import(&rules, &root, path).starts_with("crate::app"));
        assert!(rewrite_import(&rules, &deep, path).starts_with("crate::app"));
    }
}
