use cargo_merge::bundle::{bundle_package, Bundle};
use cargo_merge::error::{ManifestFault, MergeError};
use cargo_merge::line::Line;
use cargo_merge::opts::Opts;
use cargo_merge::source::SourceTree;

fn bundle_with(remove_error_output: bool) -> Bundle {
    Bundle::new(Opts { remove_error_output, debug: false }).unwrap()
}

fn bundle_tree(files: &[(&str, &str)]) -> SourceTree {
    let bundle = bundle_with(false);
    let mut tree = SourceTree::new();
    for (path, text) in files {
        assert!(tree.insert(path, bundle.read_source(text)));
    }
    tree
}

const MANIFEST: &str = "[package]\nname = \"mypkg\"\n";

#[test]
fn a_bundle_keeps_the_options() {
    let opts = Opts { remove_error_output: true, debug: false };
    assert_eq!(Bundle::new(opts).unwrap().opts(), opts);
}

#[test]
fn a_bundle_puts_library_and_executable_side_by_side() {
    let tree = bundle_tree(&[
        ("src/main.rs", "use mypkg::answer;\nmod cli;\n\nfn main() {\n    eprintln!(\"x\");\n}\n"),
        ("src/cli.rs", "use mypkg::answer;\nuse crate::other;\n"),
        ("src/lib.rs", "pub fn answer() -> u32 {\n    42\n}\n"),
    ]);
    assert_eq!(
        bundle_with(false).run(MANIFEST, &tree).unwrap(),
        "pub fn answer() -> u32 {\n    42\n}\n\nuse crate::answer;\npub mod cli {\nuse mypkg::answer;\nuse crate::other;\n\n}\n\nfn main() {\n    eprintln!(\"x\");\n}\n\n"
    );
    assert_eq!(
        bundle_with(true).run(MANIFEST, &tree).unwrap(),
        "pub fn answer() -> u32 {\n    42\n}\n\nuse crate::answer;\npub mod cli {\nuse mypkg::answer;\nuse crate::other;\n\n}\n\nfn main() {\n}\n\n"
    );
}

#[test]
fn a_bundled_library_module_keeps_its_self_reference() {
    let tree = bundle_tree(&[("src/lib.rs", "mod foo;\n"), ("src/foo.rs", "use crate::bar;\n")]);
    assert_eq!(
        bundle_with(false).run(MANIFEST, &tree).unwrap(),
        "pub mod foo {\nuse crate::bar;\n\n}\n\n"
    );
}

#[test]
fn a_bundle_leaves_dependencies_alone() {
    let manifest = "[package]\nname = \"mypkg\"\n[dependencies]\ndep = { path = \"dep\" }\n";
    let tree = bundle_tree(&[("src/main.rs", "use dep::x;\n")]);
    assert_eq!(bundle_with(false).run(manifest, &tree).unwrap(), "use dep::x;\n\n");
}

#[test]
fn bundle_package_gives_the_lines() {
    let tree = bundle_tree(&[("src/main.rs", "use p::x;\n")]);
    assert_eq!(
        bundle_package(&tree, "p", false),
        Ok(vec![Line::Import("crate::x;".to_string()), Line::Plain(String::new())])
    );
    assert_eq!(bundle_package(&SourceTree::new(), "p", false), Ok(vec![]));
}

#[test]
fn a_bundle_fails_as_a_merge_does() {
    let tree = bundle_tree(&[("src/lib.rs", "mod gone;\n")]);
    assert_eq!(
        bundle_with(false).run(MANIFEST, &tree),
        Err(MergeError::ModuleResolution("src/gone".to_string()))
    );
    assert_eq!(
        bundle_with(false).run("name = ", &tree),
        Err(MergeError::Manifest(ManifestFault::Syntax))
    );
    assert_eq!(
        bundle_with(false).run("", &tree),
        Err(MergeError::Manifest(ManifestFault::PackageName))
    );
}

#[test]
fn the_name_of_the_package_is_gone_from_a_bundled_import() {
    let tree = bundle_tree(&[("src/main.rs", "use mypkg::a::mypkg;\nuse mypkgmypkg;\n")]);
    let lines = bundle_package(&tree, "mypkg", false).unwrap();
    assert_eq!(
        lines,
        vec![
            Line::Import("crate::a::crate;".to_string()),
            Line::Import("cratecrate;".to_string()),
            Line::Plain(String::new()),
        ]
    );
    assert!(lines.iter().all(|line| !line.text().contains("mypkg")));
}

#[test]
fn a_name_that_shares_characters_with_the_self_reference_can_stay() {
    let tree = bundle_tree(&[("src/main.rs", "use eaa;\n")]);
    assert_eq!(
        bundle_package(&tree, "ea", false),
        Ok(vec![Line::Import("cratea;".to_string()), Line::Plain(String::new())])
    );
}
