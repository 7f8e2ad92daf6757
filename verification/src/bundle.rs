//! The bundle of a package: its library and its executable merged side by
//! side, without its dependencies.

use crate::engine::{blank, lines_view, push_lines};
use crate::error::{MergeError, MergeErrorView};
use crate::line::{line_views, render, rendered, Classifier, Line, LineView};
use crate::manifest::{get_package_name, package_name_of_text, text_view, LIBRARY_ENTRY};
use crate::merge::{
    crate_lines, inject_crate, SIMPLE_CRATE_LIB_RS, SIMPLE_CRATE_MAIN, SIMPLE_CRATE_MAIN_RS,
};
use crate::opts::Opts;
use crate::rewrite::{Rules, RulesView, Variant};
use crate::source::{position, FileView, SourceTree};
use vstd::prelude::*;

verus! {

/// The directory, below the package root, of the bundled file.
pub const BUNDLE_OUTPUT_PATH: &'static str = "target/bundle/";

/// The name of the bundled file.
pub const BUNDLE_OUTPUT_FILE_NAME: &'static str = "bundle.rs";

/// The rules by which a package is bundled.
pub open spec fn bundle_rules(remove_diagnostics: bool) -> RulesView {
    RulesView { variant: Variant::Simple, dependency_names: Seq::empty(), remove_diagnostics }
}

/// The lines of the unit whose entry file is `entry` and an empty line,
/// where the tree holds that file. `path` is `entry` without its extension.
pub open spec fn bundled_unit(
    files: Seq<FileView>,
    rules: RulesView,
    entry: Seq<char>,
    path: Seq<char>,
    name: Seq<char>,
) -> Result<Seq<LineView>, MergeErrorView> {
    if position(files, entry) is Some {
        match crate_lines(files, rules, path, name) {
            Ok(lines) => Ok(lines.push(blank())),
            Err(e) => Err(e),
        }
    } else {
        Ok(Seq::empty())
    }
}

/// The lines of the bundled file of the package `name`: the lines of the
/// library, then those of the executable.
pub open spec fn bundled_package(files: Seq<FileView>, name: Seq<char>, remove_diagnostics: bool)
    -> Result<Seq<LineView>, MergeErrorView> {
    let rules = bundle_rules(remove_diagnostics);
    match bundled_unit(files, rules, SIMPLE_CRATE_LIB_RS@, LIBRARY_ENTRY@, name) {
        Err(e) => Err(e),
        Ok(library) => match bundled_unit(
            files,
            rules,
            SIMPLE_CRATE_MAIN_RS@,
            SIMPLE_CRATE_MAIN@,
            name,
        ) {
            Err(e) => Err(e),
            Ok(executable) => Ok(library + executable),
        },
    }
}

/// The text of the bundled file of the package whose manifest is
/// `manifest`.
pub open spec fn bundled_text(manifest: Seq<char>, files: Seq<FileView>, remove_diagnostics: bool)
    -> Result<Seq<char>, MergeErrorView> {
    match package_name_of_text(manifest) {
        Err(e) => Err(e),
        Ok(name) => match bundled_package(files, name, remove_diagnostics) {
            Err(e) => Err(e),
            Ok(lines) => Ok(rendered(lines)),
        },
    }
}

/// Appends to `out` the lines of the unit whose entry file is `entry`, and
/// an empty line, where the tree holds that file.
fn push_unit(
    out: &mut Vec<Line>,
    tree: &SourceTree,
    rules: &Rules,
    entry: &str,
    path: &str,
    name: &str,
) -> (r: Result<(), MergeError>)
    ensures
        match bundled_unit(tree@, rules@, entry@, path@, name@) {
            Ok(lines) => r is Ok && line_views(final(out)@) == line_views(old(out)@) + lines,
            Err(e) => r is Err && r->Err_0@ == e,
        },
{
    let ghost before = line_views(out@);
    if tree.contains(entry) {
        match inject_crate(tree, rules, path, name) {
            Err(e) => Err(e),
            Ok(inner) => {
                push_lines(out, &inner);
                let ghost filled = line_views(out@);
                out.push(Line::Plain(String::new()));
                assert(line_views(out@) =~= filled.push(blank()));
                assert(line_views(out@) =~= before + line_views(inner@).push(blank()));
                Ok(())
            },
        }
    } else {
        assert(before + Seq::<LineView>::empty() =~= before);
        Ok(())
    }
}

/// Bundles the package `name`: its library, then its executable, both at
/// the top of the file.
pub fn bundle_package(tree: &SourceTree, name: &str, remove_diagnostics: bool) -> (r: Result<
    Vec<Line>,
    MergeError,
>)
    ensures
        lines_view(r) == bundled_package(tree@, name@, remove_diagnostics),
{
    let rules = Rules { variant: Variant::Simple, dependency_names: Vec::new(), remove_diagnostics };
    assert(rules@.dependency_names =~= Seq::<Seq<char>>::empty());
    let mut out: Vec<Line> = Vec::new();
    assert(line_views(out@) =~= Seq::<LineView>::empty());
    match push_unit(&mut out, tree, &rules, SIMPLE_CRATE_LIB_RS, LIBRARY_ENTRY, name) {
        Err(e) => {
            return Err(e);
        },
        Ok(()) => {},
    }
    let ghost library = line_views(out@);
    assert(Seq::<LineView>::empty() + library =~= library);
    match push_unit(&mut out, tree, &rules, SIMPLE_CRATE_MAIN_RS, SIMPLE_CRATE_MAIN, name) {
        Err(e) => {
            return Err(e);
        },
        Ok(()) => {},
    }
    Ok(out)
}

/// The bundle of a package.
pub struct Bundle {
    classifier: Classifier,
    opts: Opts,
}

impl Bundle {
    /// The options of this bundle.
    pub closed spec fn options(&self) -> Opts {
        self.opts
    }

    /// Prepares a bundle: compiles the line patterns.
    pub fn new(opts: Opts) -> (r: Result<Bundle, MergeError>)
        ensures
            r is Ok <==> crate::line::patterns_valid(),
            r matches Ok(bundle) ==> bundle.options() == opts,
            r matches Err(e) ==> e@ == MergeErrorView::Pattern(
                crate::line::first_invalid_pattern(),
            ),
    {
        match Classifier::new() {
            Ok(classifier) => Ok(Bundle { classifier, opts }),
            Err(e) => Err(e),
        }
    }

    /// The options of this bundle.
    pub fn opts(&self) -> (r: Opts)
        ensures
            r == self.options(),
    {
        self.opts
    }

    /// Reads the text of a source file: its lines, classified.
    pub fn read_source(&self, text: &str) -> (r: Vec<Line>)
        ensures
            line_views(r@) == crate::line::classified_text(text@),
    {
        self.classifier.classify_text(text)
    }

    /// Reads the lines of a source file: the lines, classified.
    pub fn read_lines(&self, lines: &Vec<String>) -> (r: Vec<Line>)
        ensures
            line_views(r@) == crate::line::classified_lines(crate::text::texts(lines@)),
    {
        self.classifier.classify_lines(lines)
    }

    /// Bundles the package whose manifest is `manifest` and whose source
    /// files are in `tree`. Gives the text of the bundled file.
    pub fn run(&self, manifest: &str, tree: &SourceTree) -> (r: Result<String, MergeError>)
        ensures
            text_view(r) == bundled_text(manifest@, tree@, self.options().remove_error_output),
    {
        let name = match get_package_name(manifest) {
            Ok(name) => name,
            Err(e) => {
                return Err(e);
            },
        };
        match bundle_package(tree, name.as_str(), self.opts.remove_error_output) {
            Ok(lines) => Ok(render(&lines)),
            Err(e) => Err(e),
        }
    }
}

} // verus!
