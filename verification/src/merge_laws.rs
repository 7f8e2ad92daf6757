//! What holds of every merge.

use crate::engine::{
    blank, block_close, block_open, budget, emitted, merged_lines, module_block, unit_lines,
};
use crate::error::{prepended, MergeErrorView};
use crate::line::{classified, classified_text, rendered, LineView};
use crate::manifest::{normalized, DependencyView, PackageView, LIBRARY_ENTRY};
use crate::merge::{
    block_lines, crate_block, crate_lines, dependency_blocks, executable_lines, library_block, merge_rules,
    merged_package, SIMPLE_CRATE_LIB_RS, SIMPLE_CRATE_MAIN, SIMPLE_CRATE_MAIN_RS,
};
use crate::rewrite::{rewritten, RulesView, Variant};
use crate::bundle::{bundle_rules, bundled_package, bundled_unit};
use crate::rewrite_laws::{
    apart_from_root, lemma_freestanding_import_stays, lemma_rewritten_import_is_settled,
};
use crate::source::{lemma_resolved_bound, position, resolved, FileView};
use crate::text::lines_of;
use crate::text_laws::{
    ends_lines_plainly, fits_a_line, lemma_kept_lines_are_the_text,
    lemma_rendered_lines_are_read_back, line_texts,
};
use crate::unit::UnitView;
use vstd::prelude::*;

verus! {

/// What the merged file holds for one line of `unit`: the block of the
/// module that the line declares, and for another line what is emitted
/// for it.
pub open spec fn line_block(
    files: Seq<FileView>,
    rules: RulesView,
    unit: UnitView,
    line: LineView,
) -> Result<Seq<LineView>, MergeErrorView> {
    match line {
        LineView::ModuleDeclaration(name) => match unit_lines(files, rules, unit.child(name)) {
            Ok(inner) => Ok(module_block(name, inner)),
            Err(e) => Err(e),
        },
        _ => Ok(emitted(rules, unit, line)),
    }
}

/// The lines of a unit are merged one after the other: the merged lines are
/// what the merged file holds for the first line, then the merged lines of
/// the rest.
pub proof fn lemma_merged_lines_by_line(
    files: Seq<FileView>,
    rules: RulesView,
    unit: UnitView,
    lines: Seq<LineView>,
)
    requires
        lines.len() > 0,
    ensures
        merged_lines(files, rules, unit, lines) == match line_block(files, rules, unit, lines[0]) {
            Ok(block) => prepended(block, merged_lines(files, rules, unit, lines.skip(1))),
            Err(e) => Err(e),
        },
{
}

/// The merged lines of two runs of lines, one after the other, are the
/// merged lines of the first run followed by those of the second.
pub proof fn lemma_merged_lines_append(
    files: Seq<FileView>,
    rules: RulesView,
    unit: UnitView,
    first: Seq<LineView>,
    second: Seq<LineView>,
)
    ensures
        merged_lines(files, rules, unit, first + second) == match merged_lines(
            files,
            rules,
            unit,
            first,
        ) {
            Ok(lines) => prepended(lines, merged_lines(files, rules, unit, second)),
            Err(e) => Err(e),
        },
    decreases first.len(),
{
    let after = merged_lines(files, rules, unit, second);
    if first.len() == 0 {
        assert(first + second =~= second);
        match after {
            Ok(lines) => {
                assert(Seq::<LineView>::empty() + lines =~= lines);
            },
            Err(_) => {},
        }
    } else {
        let whole = first + second;
        assert(whole[0] == first[0]);
        assert(whole.skip(1) =~= first.skip(1) + second);
        lemma_merged_lines_by_line(files, rules, unit, whole);
        lemma_merged_lines_by_line(files, rules, unit, first);
        lemma_merged_lines_append(files, rules, unit, first.skip(1), second);
        match line_block(files, rules, unit, first[0]) {
            Ok(block) => {
                match merged_lines(files, rules, unit, first.skip(1)) {
                    Ok(middle) => {
                        match after {
                            Ok(lines) => {
                                assert(block + (middle + lines) =~= (block + middle) + lines);
                            },
                            Err(_) => {},
                        }
                    },
                    Err(_) => {},
                }
            },
            Err(_) => {},
        }
    }
}

/// Whether `property` holds of each of `lines`.
pub open spec fn all_lines(lines: Seq<LineView>, property: spec_fn(LineView) -> bool) -> bool {
    forall|k: int| 0 <= k < lines.len() ==> property(#[trigger] lines[k])
}

/// Whether `property` holds of every line that a merge by `rules` can put
/// into a merged file: the lines around a block, and what is emitted for
/// a line, whichever the unit.
pub open spec fn holds_of_output(rules: RulesView, property: spec_fn(LineView) -> bool) -> bool {
    &&& property(blank())
    &&& property(block_close())
    &&& forall|name: Seq<char>| property(#[trigger] block_open(name))
    &&& forall|unit: UnitView, line: LineView|
        !(line is ModuleDeclaration) ==> all_lines(#[trigger] emitted(rules, unit, line), property)
}

/// A property of every line that a merge can put into a merged file holds
/// of each of the merged lines of a unit.
pub proof fn lemma_merged_lines_all(
    files: Seq<FileView>,
    rules: RulesView,
    unit: UnitView,
    lines: Seq<LineView>,
    property: spec_fn(LineView) -> bool,
)
    requires
        holds_of_output(rules, property),
        merged_lines(files, rules, unit, lines) is Ok,
    ensures
        all_lines(merged_lines(files, rules, unit, lines)->Ok_0, property),
    decreases budget(files, unit), lines.len(),
{
    if lines.len() > 0 {
        lemma_merged_lines_by_line(files, rules, unit, lines);
        lemma_merged_lines_all(files, rules, unit, lines.skip(1), property);
        let rest = merged_lines(files, rules, unit, lines.skip(1))->Ok_0;
        let block = line_block(files, rules, unit, lines[0])->Ok_0;
        match lines[0] {
            LineView::ModuleDeclaration(name) => {
                let child = unit.child(name);
                let at = resolved(files, child.path).unwrap();
                reveal_strlit("/");
                lemma_resolved_bound(files, child.path);
                lemma_merged_lines_all(files, rules, child, files[at].lines, property);
                let inner = merged_lines(files, rules, child, files[at].lines)->Ok_0;
                assert(block == module_block(name, inner));
                assert forall|k: int| 0 <= k < block.len() implies property(#[trigger] block[k]) by {
                    if k == 0 {
                        assert(block[k] == block_open(name));
                    } else if k <= inner.len() {
                        assert(block[k] == inner[k - 1]);
                    } else if k == inner.len() + 1 {
                        assert(block[k] == blank());
                    } else {
                        assert(block[k] == block_close());
                    }
                }
            },
            _ => {
                assert(all_lines(emitted(rules, unit, lines[0]), property));
            },
        }
        let out = block + rest;
        assert forall|k: int| 0 <= k < out.len() implies property(#[trigger] out[k]) by {
            if k < block.len() {
                assert(out[k] == block[k]);
            } else {
                assert(out[k] == rest[k - block.len()]);
            }
        }
    }
}

/// Whether a line is no diagnostic output statement.
pub open spec fn is_quiet(line: LineView) -> bool {
    !(line is DiagnosticOutput)
}

/// The property of being no diagnostic output statement.
pub open spec fn quiet() -> spec_fn(LineView) -> bool {
    |line: LineView| is_quiet(line)
}

/// The lines of a file that stay when the file is merged and declares no
/// module: all of them, but not the diagnostic output statements where
/// those are left out.
pub open spec fn kept(lines: Seq<LineView>, remove_diagnostics: bool) -> Seq<LineView> {
    if remove_diagnostics {
        lines.filter(quiet())
    } else {
        lines
    }
}

/// Whether the merge by `rules` leaves `line` of `unit` as it is: the line
/// declares no module, and where it is an import, the rewriting leaves
/// its path as it is.
pub open spec fn stays(rules: RulesView, unit: UnitView, line: LineView) -> bool {
    match line {
        LineView::ModuleDeclaration(_) => false,
        LineView::Import(path) => rewritten(rules, unit, path) == path,
        _ => true,
    }
}

/// The merged lines of a unit that declares no module, and whose imports
/// the rewriting leaves as they are, are the lines of its file, but for the
/// diagnostic output statements where those are left out.
pub proof fn lemma_flat_lines_are_kept(
    files: Seq<FileView>,
    rules: RulesView,
    unit: UnitView,
    lines: Seq<LineView>,
)
    requires
        forall|k: int| 0 <= k < lines.len() ==> stays(rules, unit, #[trigger] lines[k]),
    ensures
        merged_lines(files, rules, unit, lines) == Ok::<Seq<LineView>, MergeErrorView>(
            kept(lines, rules.remove_diagnostics),
        ),
    decreases lines.len(),
{
    if lines.len() == 0 {
        assert(lines =~= Seq::<LineView>::empty());
        assert(lines.filter(quiet()) =~= Seq::<LineView>::empty());
    } else {
        let rest = lines.skip(1);
        assert forall|k: int| 0 <= k < rest.len() implies stays(rules, unit, #[trigger] rest[k]) by {
            assert(rest[k] == lines[k + 1]);
        }
        lemma_flat_lines_are_kept(files, rules, unit, rest);
        lemma_merged_lines_by_line(files, rules, unit, lines);
        assert(stays(rules, unit, lines[0]));
        assert(seq![lines[0]] + rest =~= lines);
        rest.lemma_filter_prepend(lines[0], quiet());
        assert(line_block(files, rules, unit, lines[0]) == Ok::<Seq<LineView>, MergeErrorView>(
            emitted(rules, unit, lines[0]),
        ));
        if rules.remove_diagnostics {
            assert(emitted(rules, unit, lines[0]) =~= if quiet()(lines[0]) {
                seq![lines[0]]
            } else {
                Seq::empty()
            });
        } else {
            assert(emitted(rules, unit, lines[0]) =~= seq![lines[0]]);
        }
        assert(emitted(rules, unit, lines[0]) + kept(rest, rules.remove_diagnostics) =~= kept(
            lines,
            rules.remove_diagnostics,
        ));
    }
}

/// A unit without nested modules is merged to its entry file: where the
/// file declares no module and the rewriting leaves its imports as they
/// are, the merged lines of the unit are the lines of the file, but for the
/// diagnostic output statements where those are left out.
pub proof fn lemma_flat_unit_is_kept(files: Seq<FileView>, rules: RulesView, unit: UnitView)
    requires
        resolved(files, unit.path) is Some,
        forall|k: int|
            0 <= k < files[resolved(files, unit.path).unwrap()].lines.len() ==> stays(
                rules,
                unit,
                #[trigger] files[resolved(files, unit.path).unwrap()].lines[k],
            ),
    ensures
        unit_lines(files, rules, unit) == Ok::<Seq<LineView>, MergeErrorView>(
            kept(files[resolved(files, unit.path).unwrap()].lines, rules.remove_diagnostics),
        ),
{
    lemma_flat_lines_are_kept(files, rules, unit, files[resolved(files, unit.path).unwrap()].lines);
}

/// Whether a line is kept whole when it is classified: it is a comment, a
/// diagnostic output statement or a plain line.
pub open spec fn is_whole(line: LineView) -> bool {
    line is Comment || line is DiagnosticOutput || line is Plain
}

/// A file without imports and nested modules is merged to its own text:
/// where every line of `text` ends with a line feed, and none with a
/// carriage return before it, and every line is a comment, a diagnostic output
/// statement or a plain line, a unit whose file holds the lines of `text`
/// is merged, with the diagnostic output statements kept, to lines that are
/// written out as `text`.
pub proof fn lemma_flat_file_is_its_text(
    files: Seq<FileView>,
    rules: RulesView,
    unit: UnitView,
    text: Seq<char>,
)
    requires
        !rules.remove_diagnostics,
        ends_lines_plainly(text),
        resolved(files, unit.path) is Some,
        files[resolved(files, unit.path).unwrap()].lines == classified_text(text),
        forall|k: int|
            0 <= k < classified_text(text).len() ==> is_whole(#[trigger] classified_text(text)[k]),
    ensures
        unit_lines(files, rules, unit) is Ok,
        rendered(unit_lines(files, rules, unit)->Ok_0) == text,
{
    let lines = classified_text(text);
    assert forall|k: int| 0 <= k < lines.len() implies stays(rules, unit, #[trigger] lines[k]) by {
        assert(is_whole(lines[k]));
    }
    lemma_flat_unit_is_kept(files, rules, unit);
    assert(line_texts(lines) =~= lines_of(text)) by {
        assert forall|k: int| 0 <= k < lines.len() implies line_texts(lines)[k] == lines_of(
            text,
        )[k] by {
            assert(is_whole(lines[k]));
            assert(lines[k] == classified(lines_of(text)[k]));
        }
    }
    lemma_kept_lines_are_the_text(text, lines);
}

/// A package that is an executable without nested modules is merged to
/// its entry file and an empty line: where the package has no dependency by
/// path and no library, and the entry file of its executable declares no
/// module and has no import that the rewriting changes, the merged file
/// holds the lines of that entry file, but for the diagnostic output
/// statements where those are left out, and then an empty line.
pub proof fn lemma_flat_executable_is_kept(
    files: Seq<FileView>,
    info: PackageView,
    remove_diagnostics: bool,
)
    requires
        info.external_dependencies.len() == 0,
        position(files, SIMPLE_CRATE_LIB_RS@) is None,
        position(files, SIMPLE_CRATE_MAIN_RS@) is Some,
        resolved(files, SIMPLE_CRATE_MAIN@) is Some,
        forall|k: int|
            0 <= k < files[resolved(files, SIMPLE_CRATE_MAIN@).unwrap()].lines.len()
                ==> stays(
                merge_rules(info, remove_diagnostics),
                UnitView::root(SIMPLE_CRATE_MAIN@, Seq::empty()),
                #[trigger] files[resolved(files, SIMPLE_CRATE_MAIN@).unwrap()].lines[k],
            ),
    ensures
        merged_package(files, info, remove_diagnostics) == Ok::<Seq<LineView>, MergeErrorView>(
            kept(
                files[resolved(files, SIMPLE_CRATE_MAIN@).unwrap()].lines,
                remove_diagnostics,
            ).push(blank()),
        ),
{
    let rules = merge_rules(info, remove_diagnostics);
    let unit = UnitView::root(SIMPLE_CRATE_MAIN@, Seq::empty());
    lemma_flat_unit_is_kept(files, rules, unit);
    let lines = kept(
        files[resolved(files, SIMPLE_CRATE_MAIN@).unwrap()].lines,
        remove_diagnostics,
    ).push(blank());
    assert(Seq::<LineView>::empty() + Seq::<LineView>::empty() + lines =~= lines);
}

/// A merge that leaves the diagnostic output statements out puts none into
/// the merged file.
pub proof fn lemma_quiet_output(rules: RulesView)
    requires
        rules.remove_diagnostics,
    ensures
        holds_of_output(rules, quiet()),
{
    assert forall|unit: UnitView, line: LineView| !(line is ModuleDeclaration) implies all_lines(
        #[trigger] emitted(rules, unit, line),
        quiet(),
    ) by {
        let out = emitted(rules, unit, line);
        assert forall|k: int| 0 <= k < out.len() implies quiet()(#[trigger] out[k]) by {}
    }
}

/// Where the diagnostic output statements are left out, the merged lines
/// of a unit hold none.
pub proof fn lemma_silenced_lines_are_quiet(
    files: Seq<FileView>,
    rules: RulesView,
    unit: UnitView,
    lines: Seq<LineView>,
)
    requires
        rules.remove_diagnostics,
        merged_lines(files, rules, unit, lines) is Ok,
    ensures
        forall|k: int|
            0 <= k < merged_lines(files, rules, unit, lines)->Ok_0.len() ==> !(merged_lines(
                files,
                rules,
                unit,
                lines,
            )->Ok_0[k] is DiagnosticOutput),
{
    lemma_quiet_output(rules);
    lemma_merged_lines_all(files, rules, unit, lines, quiet());
    let out = merged_lines(files, rules, unit, lines)->Ok_0;
    assert forall|k: int| 0 <= k < out.len() implies !(out[k] is DiagnosticOutput) by {
        assert(quiet()(out[k]));
    }
}

/// A diagnostic output statement stays in its place: between the merged
/// lines of what stands before it and of what stands after it, the merged
/// file holds the statement as it is, or nothing where such statements are
/// left out.
pub proof fn lemma_diagnostic_in_place(
    files: Seq<FileView>,
    rules: RulesView,
    unit: UnitView,
    before: Seq<LineView>,
    text: Seq<char>,
    after: Seq<LineView>,
)
    requires
        merged_lines(files, rules, unit, before) is Ok,
        merged_lines(files, rules, unit, after) is Ok,
    ensures
        merged_lines(
            files,
            rules,
            unit,
            before + seq![LineView::DiagnosticOutput(text)] + after,
        ) == Ok::<Seq<LineView>, MergeErrorView>(
            merged_lines(files, rules, unit, before)->Ok_0 + (if rules.remove_diagnostics {
                Seq::empty()
            } else {
                seq![LineView::DiagnosticOutput(text)]
            }) + merged_lines(files, rules, unit, after)->Ok_0,
        ),
{
    let statement = seq![LineView::DiagnosticOutput(text)];
    lemma_merged_lines_append(files, rules, unit, before + statement, after);
    lemma_merged_lines_append(files, rules, unit, before, statement);
    lemma_merged_lines_by_line(files, rules, unit, statement);
    assert(statement.skip(1) =~= Seq::<LineView>::empty());
    let middle = emitted(rules, unit, statement[0]);
    assert(middle + Seq::<LineView>::empty() =~= middle);
}

/// A property of every line that a merge can put into a merged file holds
/// of each merged line of a unit.
pub proof fn lemma_unit_lines_all(
    files: Seq<FileView>,
    rules: RulesView,
    unit: UnitView,
    property: spec_fn(LineView) -> bool,
)
    requires
        holds_of_output(rules, property),
        unit_lines(files, rules, unit) is Ok,
    ensures
        all_lines(unit_lines(files, rules, unit)->Ok_0, property),
{
    let at = resolved(files, unit.path).unwrap();
    lemma_merged_lines_all(files, rules, unit, files[at].lines, property);
}

/// A property of every line that a merge can put into a merged file holds
/// of each line of the block of a unit.
proof fn lemma_crate_block_all(
    files: Seq<FileView>,
    rules: RulesView,
    path: Seq<char>,
    name: Seq<char>,
    property: spec_fn(LineView) -> bool,
)
    requires
        holds_of_output(rules, property),
        crate_block(files, rules, path, name) is Ok,
    ensures
        all_lines(crate_block(files, rules, path, name)->Ok_0, property),
{
    lemma_unit_lines_all(files, rules, UnitView::root_in_block(path, name), property);
    let inner = block_lines(files, rules, path, name)->Ok_0;
    let block = module_block(name, inner);
    assert forall|k: int| 0 <= k < block.len() implies property(#[trigger] block[k]) by {
        if k == 0 {
            assert(block[k] == block_open(name));
        } else if k <= inner.len() {
            assert(block[k] == inner[k - 1]);
        } else if k == inner.len() + 1 {
            assert(block[k] == blank());
        } else {
            assert(block[k] == block_close());
        }
    }
}

/// A property of every line that a merge can put into a merged file holds
/// of each line of the blocks of the dependencies.
proof fn lemma_dependency_blocks_all(
    files: Seq<FileView>,
    rules: RulesView,
    dependencies: Seq<DependencyView>,
    from: int,
    property: spec_fn(LineView) -> bool,
)
    requires
        holds_of_output(rules, property),
        dependency_blocks(files, rules, dependencies, from) is Ok,
    ensures
        all_lines(dependency_blocks(files, rules, dependencies, from)->Ok_0, property),
    decreases dependencies.len() - from,
{
    if 0 <= from < dependencies.len() {
        let name = normalized(dependencies[from].name);
        lemma_crate_block_all(files, rules, dependencies[from].root, name, property);
        lemma_dependency_blocks_all(files, rules, dependencies, from + 1, property);
        let block = crate_block(files, rules, dependencies[from].root, name)->Ok_0;
        let rest = dependency_blocks(files, rules, dependencies, from + 1)->Ok_0;
        let out = block + rest;
        assert forall|k: int| 0 <= k < out.len() implies property(#[trigger] out[k]) by {
            if k < block.len() {
                assert(out[k] == block[k]);
            } else {
                assert(out[k] == rest[k - block.len()]);
            }
        }
    }
}

/// A property of every line that a merge can put into a merged file holds
/// of each line of the merged file of a package.
pub proof fn lemma_merged_package_all(
    files: Seq<FileView>,
    info: PackageView,
    remove_diagnostics: bool,
    property: spec_fn(LineView) -> bool,
)
    requires
        holds_of_output(merge_rules(info, remove_diagnostics), property),
        merged_package(files, info, remove_diagnostics) is Ok,
    ensures
        all_lines(merged_package(files, info, remove_diagnostics)->Ok_0, property),
{
    let rules = merge_rules(info, remove_diagnostics);
    lemma_dependency_blocks_all(files, rules, info.external_dependencies, 0, property);
    let blocks = dependency_blocks(files, rules, info.external_dependencies, 0)->Ok_0;
    let library = library_block(files, rules, info.name)->Ok_0;
    let executable = executable_lines(files, rules)->Ok_0;
    if position(files, SIMPLE_CRATE_LIB_RS@) is Some {
        lemma_crate_block_all(files, rules, LIBRARY_ENTRY@, info.name, property);
    }
    if position(files, SIMPLE_CRATE_MAIN_RS@) is Some {
        lemma_unit_lines_all(
            files,
            rules,
            UnitView::root(SIMPLE_CRATE_MAIN@, Seq::empty()),
            property,
        );
        let inner = crate_lines(files, rules, SIMPLE_CRATE_MAIN@, Seq::empty())->Ok_0;
        assert forall|k: int| 0 <= k < executable.len() implies property(
            #[trigger] executable[k],
        ) by {
            if k < inner.len() {
                assert(executable[k] == inner[k]);
            } else {
                assert(executable[k] == blank());
            }
        }
    }
    let out = blocks + library + executable;
    assert forall|k: int| 0 <= k < out.len() implies property(#[trigger] out[k]) by {
        if k < blocks.len() {
            assert(out[k] == blocks[k]);
        } else if k < blocks.len() + library.len() {
            assert(out[k] == library[k - blocks.len()]);
        } else {
            assert(out[k] == executable[k - blocks.len() - library.len()]);
        }
    }
}

/// Where the diagnostic output statements are left out, the merged file of
/// a package holds none.
pub proof fn lemma_silenced_package_is_quiet(files: Seq<FileView>, info: PackageView)
    requires
        merged_package(files, info, true) is Ok,
    ensures
        forall|k: int|
            0 <= k < merged_package(files, info, true)->Ok_0.len() ==> !(merged_package(
                files,
                info,
                true,
            )->Ok_0[k] is DiagnosticOutput),
{
    lemma_quiet_output(merge_rules(info, true));
    lemma_merged_package_all(files, info, true, quiet());
    let out = merged_package(files, info, true)->Ok_0;
    assert forall|k: int| 0 <= k < out.len() implies !(out[k] is DiagnosticOutput) by {
        assert(quiet()(out[k]));
    }
}

/// Whether a line of a merged file needs no further rewriting: merged again
/// by `rules` as a line of the merge root `top`, it stays as it is.
pub open spec fn settled(rules: RulesView, top: UnitView, line: LineView) -> bool {
    stays(rules, top, line) && (rules.remove_diagnostics ==> is_quiet(line))
}

/// The property of needing no further rewriting.
pub open spec fn settled_lines(rules: RulesView, top: UnitView) -> spec_fn(LineView) -> bool {
    |line: LineView| settled(rules, top, line)
}

/// In the dependency aware variant, where the names of the dependencies are
/// apart from the root prefix, every line that a merge can put into a
/// merged file needs no further rewriting.
pub proof fn lemma_settled_output(rules: RulesView, top: UnitView)
    requires
        rules.variant == Variant::DependencyAware,
        apart_from_root(rules.dependency_names),
        top.block is None,
    ensures
        holds_of_output(rules, settled_lines(rules, top)),
{
    let property = settled_lines(rules, top);
    assert forall|unit: UnitView, line: LineView| !(line is ModuleDeclaration) implies all_lines(
        #[trigger] emitted(rules, unit, line),
        property,
    ) by {
        let out = emitted(rules, unit, line);
        assert forall|k: int| 0 <= k < out.len() implies property(#[trigger] out[k]) by {
            match line {
                LineView::Import(path) => {
                    lemma_rewritten_import_is_settled(rules, unit, top, path);
                },
                _ => {},
            }
        }
    }
    assert forall|name: Seq<char>| property(#[trigger] block_open(name)) by {}
}

/// The lines that need no further rewriting are merged to themselves.
pub proof fn lemma_settled_lines_are_kept(
    files: Seq<FileView>,
    rules: RulesView,
    top: UnitView,
    lines: Seq<LineView>,
)
    requires
        all_lines(lines, settled_lines(rules, top)),
    ensures
        merged_lines(files, rules, top, lines) == Ok::<Seq<LineView>, MergeErrorView>(lines),
    decreases lines.len(),
{
    if lines.len() == 0 {
        assert(lines =~= Seq::<LineView>::empty());
    } else {
        let rest = lines.skip(1);
        assert forall|k: int| 0 <= k < rest.len() implies settled_lines(rules, top)(
            #[trigger] rest[k],
        ) by {
            assert(rest[k] == lines[k + 1]);
        }
        lemma_settled_lines_are_kept(files, rules, top, rest);
        lemma_merged_lines_by_line(files, rules, top, lines);
        assert(settled_lines(rules, top)(lines[0]));
        assert(emitted(rules, top, lines[0]) =~= seq![lines[0]]);
        assert(seq![lines[0]] + rest =~= lines);
    }
}

/// The merged file needs no further rewriting. Where the names of the
/// dependencies are apart from the root prefix, the lines of the merged
/// file of a package, merged again by the same rules as the only file of a
/// unit, give the same lines.
pub proof fn lemma_merged_package_is_settled(
    files: Seq<FileView>,
    info: PackageView,
    remove_diagnostics: bool,
    again: Seq<FileView>,
    top: UnitView,
)
    requires
        apart_from_root(merge_rules(info, remove_diagnostics).dependency_names),
        merged_package(files, info, remove_diagnostics) is Ok,
        top.block is None,
        resolved(again, top.path) is Some,
        again[resolved(again, top.path).unwrap()].lines == merged_package(
            files,
            info,
            remove_diagnostics,
        )->Ok_0,
    ensures
        unit_lines(again, merge_rules(info, remove_diagnostics), top) == merged_package(
            files,
            info,
            remove_diagnostics,
        ),
{
    let rules = merge_rules(info, remove_diagnostics);
    lemma_settled_output(rules, top);
    lemma_merged_package_all(files, info, remove_diagnostics, settled_lines(rules, top));
    lemma_settled_lines_are_kept(
        again,
        rules,
        top,
        merged_package(files, info, remove_diagnostics)->Ok_0,
    );
}

/// The rules by which a file that stands alone is merged: the dependency
/// aware variant without dependencies.
pub open spec fn freestanding_rules(remove_diagnostics: bool) -> RulesView {
    RulesView {
        variant: Variant::DependencyAware,
        dependency_names: Seq::empty(),
        remove_diagnostics,
    }
}

/// Every line that a merge can put into a merged file needs no further
/// rewriting when the file stands alone: whatever the rules of the merge,
/// each such line stays as it is when it is merged as a line of a unit at
/// the top of a file, without dependencies and with the diagnostic output
/// statements left out or kept as in the merge.
pub proof fn lemma_freestanding_output(rules: RulesView, top: UnitView)
    requires
        top.block is None,
    ensures
        holds_of_output(
            rules,
            settled_lines(freestanding_rules(rules.remove_diagnostics), top),
        ),
{
    let alone = freestanding_rules(rules.remove_diagnostics);
    let property = settled_lines(alone, top);
    assert forall|unit: UnitView, line: LineView| !(line is ModuleDeclaration) implies all_lines(
        #[trigger] emitted(rules, unit, line),
        property,
    ) by {
        let out = emitted(rules, unit, line);
        assert forall|k: int| 0 <= k < out.len() implies property(#[trigger] out[k]) by {
            match line {
                LineView::Import(path) => {
                    lemma_freestanding_import_stays(alone, top, rewritten(rules, unit, path));
                },
                _ => {},
            }
        }
    }
    assert forall|name: Seq<char>| property(#[trigger] block_open(name)) by {}
}

/// The merged file, standing alone, needs no further rewriting: the lines of
/// the merged file of a package, merged again as the only file of a unit at
/// the top of a file and without dependencies, give the same lines.
pub proof fn lemma_merged_package_stands_alone(
    files: Seq<FileView>,
    info: PackageView,
    remove_diagnostics: bool,
    again: Seq<FileView>,
    top: UnitView,
)
    requires
        merged_package(files, info, remove_diagnostics) is Ok,
        top.block is None,
        resolved(again, top.path) is Some,
        again[resolved(again, top.path).unwrap()].lines == merged_package(
            files,
            info,
            remove_diagnostics,
        )->Ok_0,
    ensures
        unit_lines(again, freestanding_rules(remove_diagnostics), top) == merged_package(
            files,
            info,
            remove_diagnostics,
        ),
{
    let alone = freestanding_rules(remove_diagnostics);
    lemma_freestanding_output(merge_rules(info, remove_diagnostics), top);
    lemma_merged_package_all(files, info, remove_diagnostics, settled_lines(alone, top));
    lemma_settled_lines_are_kept(
        again,
        alone,
        top,
        merged_package(files, info, remove_diagnostics)->Ok_0,
    );
}

/// A property of every line that a merge can put into a merged file holds
/// of each line of the bundled file of a package.
pub proof fn lemma_bundled_package_all(
    files: Seq<FileView>,
    name: Seq<char>,
    remove_diagnostics: bool,
    property: spec_fn(LineView) -> bool,
)
    requires
        holds_of_output(bundle_rules(remove_diagnostics), property),
        bundled_package(files, name, remove_diagnostics) is Ok,
    ensures
        all_lines(bundled_package(files, name, remove_diagnostics)->Ok_0, property),
{
    let rules = bundle_rules(remove_diagnostics);
    let library = bundled_unit(files, rules, SIMPLE_CRATE_LIB_RS@, LIBRARY_ENTRY@, name)->Ok_0;
    let executable = bundled_unit(
        files,
        rules,
        SIMPLE_CRATE_MAIN_RS@,
        SIMPLE_CRATE_MAIN@,
        name,
    )->Ok_0;
    if position(files, SIMPLE_CRATE_LIB_RS@) is Some {
        lemma_unit_lines_all(files, rules, UnitView::root(LIBRARY_ENTRY@, name), property);
        let inner = crate_lines(files, rules, LIBRARY_ENTRY@, name)->Ok_0;
        assert forall|k: int| 0 <= k < library.len() implies property(#[trigger] library[k]) by {
            if k < inner.len() {
                assert(library[k] == inner[k]);
            } else {
                assert(library[k] == blank());
            }
        }
    }
    if position(files, SIMPLE_CRATE_MAIN_RS@) is Some {
        lemma_unit_lines_all(files, rules, UnitView::root(SIMPLE_CRATE_MAIN@, name), property);
        let inner = crate_lines(files, rules, SIMPLE_CRATE_MAIN@, name)->Ok_0;
        assert forall|k: int| 0 <= k < executable.len() implies property(
            #[trigger] executable[k],
        ) by {
            if k < inner.len() {
                assert(executable[k] == inner[k]);
            } else {
                assert(executable[k] == blank());
            }
        }
    }
    let out = library + executable;
    assert forall|k: int| 0 <= k < out.len() implies property(#[trigger] out[k]) by {
        if k < library.len() {
            assert(out[k] == library[k]);
        } else {
            assert(out[k] == executable[k - library.len()]);
        }
    }
}

/// The bundled file, standing alone, needs no further rewriting: the lines
/// of the bundled file of a package, merged again as the only file of a
/// unit at the top of a file and without dependencies, give the same lines.
pub proof fn lemma_bundled_package_stands_alone(
    files: Seq<FileView>,
    name: Seq<char>,
    remove_diagnostics: bool,
    again: Seq<FileView>,
    top: UnitView,
)
    requires
        bundled_package(files, name, remove_diagnostics) is Ok,
        top.block is None,
        resolved(again, top.path) is Some,
        again[resolved(again, top.path).unwrap()].lines == bundled_package(
            files,
            name,
            remove_diagnostics,
        )->Ok_0,
    ensures
        unit_lines(again, freestanding_rules(remove_diagnostics), top) == bundled_package(
            files,
            name,
            remove_diagnostics,
        ),
{
    let alone = freestanding_rules(remove_diagnostics);
    lemma_freestanding_output(bundle_rules(remove_diagnostics), top);
    lemma_bundled_package_all(files, name, remove_diagnostics, settled_lines(alone, top));
    lemma_settled_lines_are_kept(
        again,
        alone,
        top,
        bundled_package(files, name, remove_diagnostics)->Ok_0,
    );
}

/// The text of the merged file needs no further rewriting. Where the names
/// of the dependencies are apart from the root prefix, each line of the
/// merged file can be a line of a file, and the line patterns read each
/// line of the merged file as the merge wrote it, the text of the merged
/// file of a package, read and merged again by the same rules as the only
/// file of a unit, gives the same lines.
pub proof fn lemma_merged_text_is_settled(
    files: Seq<FileView>,
    info: PackageView,
    remove_diagnostics: bool,
    again: Seq<FileView>,
    top: UnitView,
)
    requires
        apart_from_root(merge_rules(info, remove_diagnostics).dependency_names),
        merged_package(files, info, remove_diagnostics) is Ok,
        forall|k: int|
            0 <= k < merged_package(files, info, remove_diagnostics)->Ok_0.len() ==> {
                let line = #[trigger] merged_package(files, info, remove_diagnostics)->Ok_0[k];
                fits_a_line(line.text()) && classified(line.text()) == line
            },
        top.block is None,
        resolved(again, top.path) is Some,
        again[resolved(again, top.path).unwrap()].lines == classified_text(
            rendered(merged_package(files, info, remove_diagnostics)->Ok_0),
        ),
    ensures
        unit_lines(again, merge_rules(info, remove_diagnostics), top) == merged_package(
            files,
            info,
            remove_diagnostics,
        ),
{
    let lines = merged_package(files, info, remove_diagnostics)->Ok_0;
    assert forall|k: int| 0 <= k < lines.len() implies fits_a_line(#[trigger] lines[k].text()) by {
        let line = merged_package(files, info, remove_diagnostics)->Ok_0[k];
        assert(fits_a_line(line.text()));
    }
    lemma_rendered_lines_are_read_back(lines);
    assert(classified_text(rendered(lines)) =~= lines) by {
        assert forall|k: int| 0 <= k < lines.len() implies classified_text(rendered(lines))[k]
            == lines[k] by {
            let line = merged_package(files, info, remove_diagnostics)->Ok_0[k];
            assert(classified(line.text()) == line);
            assert(line_texts(lines)[k] == lines[k].text());
        }
    }
    lemma_merged_package_is_settled(files, info, remove_diagnostics, again, top);
}

} // verus!
