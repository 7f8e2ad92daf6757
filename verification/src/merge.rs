//! The merge of a package with the dependencies that it has by path.

use crate::engine::{
    blank, inject_modules, lines_view, module_block, push_block, push_lines, unit_lines,
};
use crate::error::{
    lemma_prepended_nothing, lemma_prepended_twice, prepended, MergeError, MergeErrorView,
};
use crate::line::{line_views, render, rendered, Classifier, Line, LineView};
use crate::manifest::{
    load_cargo_toml, normalize, normalized, package_of_text, text_view, DependencyView,
    PackageInfo, PackageView, LIBRARY_ENTRY,
};
use crate::opts::Opts;
use crate::rewrite::{Rules, RulesView, Variant};
use crate::source::{position, FileView, SourceTree};
use crate::text::texts;
use crate::unit::{ModuleUnit, UnitView};
use vstd::prelude::*;

verus! {

/// The name of the manifest of a package.
pub const CARGO_TOML: &'static str = "Cargo.toml";

/// The entry file of the executable of a package.
pub const SIMPLE_CRATE_MAIN_RS: &'static str = "src/main.rs";

/// The entry file of the library of a package.
pub const SIMPLE_CRATE_LIB_RS: &'static str = "src/lib.rs";

/// The entry file of the executable, without its extension.
pub const SIMPLE_CRATE_MAIN: &'static str = "src/main";

/// The directory, below the package root, of the merged file.
pub const MERGE_OUTPUT_PATH: &'static str = "target/merge/";

/// The name of the merged file.
pub const MERGED_OUTPUT_FILE_NAME: &'static str = "merged.rs";

/// The names of the blocks of `dependencies`, in their order.
pub open spec fn block_names(dependencies: Seq<DependencyView>) -> Seq<Seq<char>> {
    dependencies.map_values(|dependency: DependencyView| normalized(dependency.name))
}

/// The rules by which the package `info` is merged.
pub open spec fn merge_rules(info: PackageView, remove_diagnostics: bool) -> RulesView {
    RulesView {
        variant: Variant::DependencyAware,
        dependency_names: block_names(info.external_dependencies),
        remove_diagnostics,
    }
}

/// The merged lines of the unit `name` that begins at the entry file
/// `path`, a path without extension, and is merged at the top of the file.
pub open spec fn crate_lines(
    files: Seq<FileView>,
    rules: RulesView,
    path: Seq<char>,
    name: Seq<char>,
) -> Result<Seq<LineView>, MergeErrorView> {
    unit_lines(files, rules, UnitView::root(path, name))
}

/// The merged lines of the unit that begins at the entry file `path`, a
/// path without extension, and is merged into the block `name`.
pub open spec fn block_lines(
    files: Seq<FileView>,
    rules: RulesView,
    path: Seq<char>,
    name: Seq<char>,
) -> Result<Seq<LineView>, MergeErrorView> {
    unit_lines(files, rules, UnitView::root_in_block(path, name))
}

/// The block `name` with the merged lines of the unit that is merged into
/// it.
pub open spec fn crate_block(
    files: Seq<FileView>,
    rules: RulesView,
    path: Seq<char>,
    name: Seq<char>,
) -> Result<Seq<LineView>, MergeErrorView> {
    match block_lines(files, rules, path, name) {
        Ok(inner) => Ok(module_block(name, inner)),
        Err(e) => Err(e),
    }
}

/// The blocks of the dependencies from `from` on, one after the other.
pub open spec fn dependency_blocks(
    files: Seq<FileView>,
    rules: RulesView,
    dependencies: Seq<DependencyView>,
    from: int,
) -> Result<Seq<LineView>, MergeErrorView>
    decreases dependencies.len() - from,
{
    if from < 0 || from >= dependencies.len() {
        Ok(Seq::empty())
    } else {
        match crate_block(
            files,
            rules,
            dependencies[from].root,
            normalized(dependencies[from].name),
        ) {
            Err(e) => Err(e),
            Ok(block) => prepended(block, dependency_blocks(files, rules, dependencies, from + 1)),
        }
    }
}

/// The block of the library of the package, where the tree holds its entry
/// file.
pub open spec fn library_block(files: Seq<FileView>, rules: RulesView, name: Seq<char>) -> Result<
    Seq<LineView>,
    MergeErrorView,
> {
    if position(files, SIMPLE_CRATE_LIB_RS@) is Some {
        crate_block(files, rules, LIBRARY_ENTRY@, name)
    } else {
        Ok(Seq::empty())
    }
}

/// The lines of the executable of the package and an empty line, where the
/// tree holds its entry file. They stand in no block.
pub open spec fn executable_lines(files: Seq<FileView>, rules: RulesView) -> Result<
    Seq<LineView>,
    MergeErrorView,
> {
    if position(files, SIMPLE_CRATE_MAIN_RS@) is Some {
        match crate_lines(files, rules, SIMPLE_CRATE_MAIN@, Seq::empty()) {
            Ok(lines) => Ok(lines.push(blank())),
            Err(e) => Err(e),
        }
    } else {
        Ok(Seq::empty())
    }
}

/// The lines of the merged file of the package `info`: the block of each
/// dependency by path, then the block of the library, then the lines of the
/// executable. The first unit that cannot be merged gives the error.
pub open spec fn merged_package(files: Seq<FileView>, info: PackageView, remove_diagnostics: bool)
    -> Result<Seq<LineView>, MergeErrorView> {
    let rules = merge_rules(info, remove_diagnostics);
    match dependency_blocks(files, rules, info.external_dependencies, 0) {
        Err(e) => Err(e),
        Ok(blocks) => match library_block(files, rules, info.name) {
            Err(e) => Err(e),
            Ok(library) => match executable_lines(files, rules) {
                Err(e) => Err(e),
                Ok(executable) => Ok(blocks + library + executable),
            },
        },
    }
}

/// The text of the merged file of the package whose manifest is `manifest`.
pub open spec fn merged_text(manifest: Seq<char>, files: Seq<FileView>, remove_diagnostics: bool)
    -> Result<Seq<char>, MergeErrorView> {
    match package_of_text(manifest) {
        Err(e) => Err(e),
        Ok(info) => match merged_package(files, info, remove_diagnostics) {
            Err(e) => Err(e),
            Ok(lines) => Ok(rendered(lines)),
        },
    }
}

/// The rules by which the package `info` is merged.
pub fn rules_of(info: &PackageInfo, remove_diagnostics: bool) -> (r: Rules)
    ensures
        r@ == merge_rules(info@, remove_diagnostics),
{
    let mut dependency_names: Vec<String> = Vec::new();
    let mut i: usize = 0;
    while i < info.external_dependencies.len()
        invariant
            i <= info.external_dependencies.len(),
            dependency_names.len() == i,
            forall|k: int|
                0 <= k < i ==> (#[trigger] dependency_names@[k])@ == normalized(
                    info.external_dependencies@[k].name@,
                ),
        decreases info.external_dependencies.len() - i,
    {
        dependency_names.push(normalize(info.external_dependencies[i].name.as_str()));
        i = i + 1;
    }
    let r = Rules { variant: Variant::DependencyAware, dependency_names, remove_diagnostics };
    assert(r@.dependency_names =~= block_names(info@.external_dependencies));
    r
}

/// Merges the unit `name` that begins at the entry file `path`, a path
/// without extension, and is merged at the top of the file.
pub fn inject_crate(tree: &SourceTree, rules: &Rules, path: &str, name: &str) -> (r: Result<
    Vec<Line>,
    MergeError,
>)
    ensures
        lines_view(r) == crate_lines(tree@, rules@, path@, name@),
{
    let unit = ModuleUnit::root(path, name);
    inject_modules(tree, rules, &unit)
}

/// Merges the unit that begins at the entry file `path`, a path without
/// extension, into the block `name`. Gives the block.
pub fn inject_block(tree: &SourceTree, rules: &Rules, path: &str, name: &str) -> (r: Result<
    Vec<Line>,
    MergeError,
>)
    ensures
        lines_view(r) == crate_block(tree@, rules@, path@, name@),
{
    let unit = ModuleUnit::root_in_block(path, name);
    match inject_modules(tree, rules, &unit) {
        Err(e) => Err(e),
        Ok(inner) => {
            let mut block: Vec<Line> = Vec::new();
            assert(line_views(block@) =~= Seq::<LineView>::empty());
            push_block(&mut block, name, &inner);
            assert(line_views(block@) =~= module_block(name@, line_views(inner@)));
            Ok(block)
        },
    }
}

/// Merges the package `info`: each dependency by path in a block of its
/// name, the library in a block of the package's name, and the executable.
pub fn merge_package(tree: &SourceTree, info: &PackageInfo, remove_diagnostics: bool) -> (r:
    Result<Vec<Line>, MergeError>)
    ensures
        lines_view(r) == merged_package(tree@, info@, remove_diagnostics),
{
    let rules = rules_of(info, remove_diagnostics);
    let mut out: Vec<Line> = Vec::new();
    let mut i: usize = 0;
    let ghost dependencies = info@.external_dependencies;
    let ghost whole = dependency_blocks(tree@, rules@, dependencies, 0);
    proof {
        assert(line_views(out@) =~= Seq::<LineView>::empty());
        lemma_prepended_nothing(whole);
    }
    while i < info.external_dependencies.len()
        invariant
            i <= info.external_dependencies.len(),
            dependencies == info@.external_dependencies,
            rules@ == merge_rules(info@, remove_diagnostics),
            whole == dependency_blocks(tree@, rules@, dependencies, 0),
            whole == prepended(
                line_views(out@),
                dependency_blocks(tree@, rules@, dependencies, i as int),
            ),
        decreases info.external_dependencies.len() - i,
    {
        let ghost before = line_views(out@);
        let ghost tail = dependency_blocks(tree@, rules@, dependencies, i + 1);
        let dependency = &info.external_dependencies[i];
        assert(dependencies[i as int] == dependency@);
        let name = normalize(dependency.name.as_str());
        match inject_block(tree, &rules, dependency.root.as_str(), name.as_str()) {
            Err(e) => {
                return Err(e);
            },
            Ok(block) => {
                push_lines(&mut out, &block);
                proof {
                    lemma_prepended_twice(before, line_views(block@), tail);
                }
            },
        }
        i = i + 1;
    }
    assert(line_views(out@) + Seq::<LineView>::empty() =~= line_views(out@));
    let ghost blocks = line_views(out@);
    if tree.contains(SIMPLE_CRATE_LIB_RS) {
        match inject_block(tree, &rules, LIBRARY_ENTRY, info.name.as_str()) {
            Err(e) => {
                return Err(e);
            },
            Ok(block) => {
                push_lines(&mut out, &block);
            },
        }
    } else {
        assert(blocks + Seq::<LineView>::empty() =~= blocks);
    }
    let ghost with_library = line_views(out@);
    proof {
        reveal_strlit("");
        assert(""@ =~= Seq::<char>::empty());
    }
    if tree.contains(SIMPLE_CRATE_MAIN_RS) {
        match inject_crate(tree, &rules, SIMPLE_CRATE_MAIN, "") {
            Err(e) => {
                return Err(e);
            },
            Ok(inner) => {
                push_lines(&mut out, &inner);
                let ghost filled = line_views(out@);
                out.push(Line::Plain(String::new()));
                assert(line_views(out@) =~= filled.push(blank()));
                assert(line_views(out@) =~= with_library + line_views(inner@).push(blank()));
            },
        }
    } else {
        assert(with_library + Seq::<LineView>::empty() =~= with_library);
    }
    Ok(out)
}

/// The views of directories, each with whether it holds a manifest.
pub open spec fn ancestor_views(ancestors: Seq<(String, bool)>) -> Seq<(Seq<char>, bool)> {
    ancestors.map_values(|ancestor: (String, bool)| (ancestor.0@, ancestor.1))
}

/// The first of the directories, from the place `from` on, that holds a
/// manifest. `ancestors` are the working directory and the directories
/// above it, from the nearest to the root of the file system, each with
/// whether it holds a manifest.
pub open spec fn package_root(ancestors: Seq<(Seq<char>, bool)>, from: int) -> Option<Seq<char>>
    decreases ancestors.len() - from,
{
    if from < 0 || from >= ancestors.len() {
        None
    } else if ancestors[from].1 {
        Some(ancestors[from].0)
    } else {
        package_root(ancestors, from + 1)
    }
}

/// Finds the root of the package: the nearest of the working directory and
/// the directories above it that holds a manifest. `ancestors` are those
/// directories, from the nearest to the root of the file system, each with
/// whether it holds a manifest.
pub fn detect_package_root(ancestors: &Vec<(String, bool)>) -> (r: Result<String, MergeError>)
    ensures
        match r {
            Ok(root) => package_root(ancestor_views(ancestors@), 0) == Some(root@),
            Err(e) => package_root(ancestor_views(ancestors@), 0) is None && e@
                == MergeErrorView::RootNotFound,
        },
{
    let mut i: usize = 0;
    while i < ancestors.len()
        invariant
            i <= ancestors.len(),
            package_root(ancestor_views(ancestors@), 0) == package_root(
                ancestor_views(ancestors@),
                i as int,
            ),
        decreases ancestors.len() - i,
    {
        assert(ancestor_views(ancestors@)[i as int] == (
            ancestors@[i as int].0@,
            ancestors@[i as int].1,
        ));
        if ancestors[i].1 {
            return Ok(ancestors[i].0.clone());
        }
        i = i + 1;
    }
    Err(MergeError::RootNotFound)
}

/// The merge of a package with its dependencies.
pub struct Merge {
    classifier: Classifier,
    opts: Opts,
}

impl Merge {
    /// The options of this merge.
    pub closed spec fn options(&self) -> Opts {
        self.opts
    }

    /// Prepares a merge: compiles the line patterns.
    pub fn new(opts: Opts) -> (r: Result<Merge, MergeError>)
        ensures
            r is Ok <==> crate::line::patterns_valid(),
            r matches Ok(merge) ==> merge.options() == opts,
            r matches Err(e) ==> e@ == MergeErrorView::Pattern(
                crate::line::first_invalid_pattern(),
            ),
    {
        match Classifier::new() {
            Ok(classifier) => Ok(Merge { classifier, opts }),
            Err(e) => Err(e),
        }
    }

    /// The options of this merge.
    pub fn opts(&self) -> (r: Opts)
        ensures
            r == self.options(),
    {
        self.opts
    }

    /// Reads the text of a source file: its lines, classified.
    pub fn read_source(&self, text: &str) -> (r: Vec<Line>)
        ensures
            line_views(r@) == crate::line::classified_text(text@),
    {
        self.classifier.classify_text(text)
    }

    /// Reads the lines of a source file: the lines, classified.
    pub fn read_lines(&self, lines: &Vec<String>) -> (r: Vec<Line>)
        ensures
            line_views(r@) == crate::line::classified_lines(crate::text::texts(lines@)),
    {
        self.classifier.classify_lines(lines)
    }

    /// Merges the package whose manifest is `manifest` and whose source
    /// files, with those of its dependencies by path, are in `tree`. Gives
    /// the text of the merged file.
    pub fn run(&self, manifest: &str, tree: &SourceTree) -> (r: Result<String, MergeError>)
        ensures
            text_view(r) == merged_text(manifest@, tree@, self.options().remove_error_output),
    {
        let info = match load_cargo_toml(manifest) {
            Ok(info) => info,
            Err(e) => {
                return Err(e);
            },
        };
        match merge_package(tree, &info, self.opts.remove_error_output) {
            Ok(lines) => Ok(render(&lines)),
            Err(e) => Err(e),
        }
    }
}

} // verus!
