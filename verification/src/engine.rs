//! The merge engine: the lines of a unit with the files of its modules
//! inlined, one module block in another.

use crate::error::{
    lemma_prepended_nothing, lemma_prepended_twice, prepended, MergeError, MergeErrorView,
};
use crate::line::{line_views, Line, LineView};
use crate::rewrite::{rewrite_import, rewritten, Rules, RulesView};
use crate::source::{lemma_resolved_bound, longest_path, resolved, FileView, SourceTree};
use crate::text::chain3;
use crate::unit::{ModuleUnit, UnitView};
use vstd::prelude::*;

verus! {

/// The line that opens the block of the module `name`.
pub open spec fn block_open(name: Seq<char>) -> LineView {
    LineView::Plain("pub mod "@ + name + " {"@)
}

/// The line that closes a module block.
pub open spec fn block_close() -> LineView {
    LineView::Plain("}"@)
}

/// The empty line.
pub open spec fn blank() -> LineView {
    LineView::Plain(Seq::empty())
}

/// The block of the module `name`: the opening line, the lines of the
/// module, an empty line and the closing line.
pub open spec fn module_block(name: Seq<char>, inner: Seq<LineView>) -> Seq<LineView> {
    seq![block_open(name)] + inner + seq![blank(), block_close()]
}

/// What the merged file holds for a line of `unit` that declares no module:
/// the line itself, but an import with its path rewritten, and nothing for a
/// diagnostic output statement where those are left out.
pub open spec fn emitted(rules: RulesView, unit: UnitView, line: LineView) -> Seq<LineView> {
    match line {
        LineView::Import(path) => seq![LineView::Import(rewritten(rules, unit, path))],
        LineView::DiagnosticOutput(_) => if rules.remove_diagnostics {
            Seq::empty()
        } else {
            seq![line]
        },
        _ => seq![line],
    }
}

/// A bound on how many modules can be nested below `unit`: every module
/// below a merge root has a longer path than the module that declares it,
/// and no path is longer than the longest in the tree.
pub open spec fn budget(files: Seq<FileView>, unit: UnitView) -> nat {
    if unit.is_merge_root() {
        longest_path(files) + 2
    } else if unit.path.len() > longest_path(files) {
        0
    } else {
        (longest_path(files) + 1 - unit.path.len()) as nat
    }
}

/// What the merged file holds for the lines `lines` of `unit`. A line that
/// declares a module becomes the block of that module, which holds the
/// merged lines of the module's file; where the tree has no file for a
/// declared module, the merge fails with the path of the first such module.
pub open spec fn merged_lines(
    files: Seq<FileView>,
    rules: RulesView,
    unit: UnitView,
    lines: Seq<LineView>,
) -> Result<Seq<LineView>, MergeErrorView>
    decreases budget(files, unit), lines.len(),
{
    if lines.len() == 0 {
        Ok(Seq::empty())
    } else {
        match lines[0] {
            LineView::ModuleDeclaration(name) => {
                let child = unit.child(name);
                match resolved(files, child.path) {
                    None => Err(MergeErrorView::ModuleResolution(child.path)),
                    Some(i) => {
                        proof {
                            reveal_strlit("/");
                            lemma_resolved_bound(files, child.path);
                        }
                        match merged_lines(files, rules, child, files[i].lines) {
                            Err(e) => Err(e),
                            Ok(inner) => prepended(
                                module_block(name, inner),
                                merged_lines(files, rules, unit, lines.skip(1)),
                            ),
                        }
                    },
                }
            },
            line => prepended(
                emitted(rules, unit, line),
                merged_lines(files, rules, unit, lines.skip(1)),
            ),
        }
    }
}

/// The merged lines of the module `unit`, whose file the tree holds; the
/// failure with the path of `unit` where it holds none.
pub open spec fn unit_lines(files: Seq<FileView>, rules: RulesView, unit: UnitView) -> Result<
    Seq<LineView>,
    MergeErrorView,
> {
    match resolved(files, unit.path) {
        None => Err(MergeErrorView::ModuleResolution(unit.path)),
        Some(i) => merged_lines(files, rules, unit, files[i].lines),
    }
}

/// The view of the result of a merge.
pub open spec fn lines_view(r: Result<Vec<Line>, MergeError>) -> Result<
    Seq<LineView>,
    MergeErrorView,
> {
    match r {
        Ok(lines) => Ok(line_views(lines@)),
        Err(e) => Err(e@),
    }
}

/// Appends copies of the lines `more` to `out`.
pub fn push_lines(out: &mut Vec<Line>, more: &Vec<Line>)
    ensures
        line_views(final(out)@) == line_views(old(out)@) + line_views(more@),
{
    let mut i: usize = 0;
    assert(line_views(out@) =~= line_views(old(out)@) + line_views(more@).take(0));
    while i < more.len()
        invariant
            i <= more.len(),
            line_views(out@) == line_views(old(out)@) + line_views(more@).take(i as int),
        decreases more.len() - i,
    {
        let ghost before = line_views(out@);
        let line = more[i].copy();
        out.push(line);
        i = i + 1;
        assert(line_views(out@) =~= before.push(more@[i - 1]@));
        assert(line_views(more@).take(i as int) =~= line_views(more@).take(i - 1).push(
            more@[i - 1]@,
        ));
    }
    assert(line_views(more@).take(more.len() as int) == line_views(more@));
}

/// Appends to `out` the block of the module `name` with the lines `inner`.
pub fn push_block(out: &mut Vec<Line>, name: &str, inner: &Vec<Line>)
    ensures
        line_views(final(out)@) == line_views(old(out)@) + module_block(name@, line_views(inner@)),
{
    let ghost before = line_views(out@);
    out.push(Line::Plain(chain3("pub mod ", name, " {")));
    assert(line_views(out@) =~= before.push(block_open(name@)));
    push_lines(out, inner);
    let ghost filled = line_views(out@);
    out.push(Line::Plain(String::new()));
    assert(line_views(out@) =~= filled.push(blank()));
    out.push(Line::Plain("}".to_owned()));
    assert(line_views(out@) =~= filled.push(blank()).push(block_close()));
    assert(line_views(out@) =~= before + module_block(name@, line_views(inner@)));
}

/// Appends to `out` what the merged file holds for `line` of `unit`, a line
/// that declares no module.
pub fn push_emitted(out: &mut Vec<Line>, rules: &Rules, unit: &ModuleUnit, line: &Line)
    ensures
        line_views(final(out)@) == line_views(old(out)@) + emitted(rules@, unit@, line@),
{
    let ghost before = line_views(out@);
    match line {
        Line::Import(path) => {
            out.push(Line::Import(rewrite_import(rules, unit, path.as_str())));
        },
        Line::DiagnosticOutput(text) => {
            if !rules.remove_diagnostics {
                out.push(Line::DiagnosticOutput(text.clone()));
            }
        },
        other => {
            out.push(other.copy());
        },
    }
    assert(line_views(out@) =~= before + emitted(rules@, unit@, line@));
}

/// Merges the module `unit`: reads its file line by line, inlines the
/// modules it declares, each in a block of its own, and rewrites the paths of
/// its imports.
pub fn inject_modules(tree: &SourceTree, rules: &Rules, unit: &ModuleUnit) -> (r: Result<
    Vec<Line>,
    MergeError,
>)
    ensures
        lines_view(r) == unit_lines(tree@, rules@, unit@),
    decreases budget(tree@, unit@),
{
    let found = tree.resolve(unit.path.as_str());
    let at = match found {
        Some(at) => at,
        None => {
            return Err(MergeError::ModuleResolution(unit.path.clone()));
        },
    };
    let file = tree.file(at);
    let ghost lines = file@.lines;
    let mut out: Vec<Line> = Vec::new();
    let mut i: usize = 0;
    proof {
        lemma_resolved_bound(tree@, unit@.path);
        assert(lines.skip(0) == lines);
        assert(line_views(out@) =~= Seq::<LineView>::empty());
        lemma_prepended_nothing(merged_lines(tree@, rules@, unit@, lines));
    }
    while i < file.lines.len()
        invariant
            i <= file.lines.len(),
            lines == line_views(file.lines@),
            unit@.path.len() + 3 <= longest_path(tree@),
            unit_lines(tree@, rules@, unit@) == merged_lines(tree@, rules@, unit@, lines),
            prepended(
                line_views(out@),
                merged_lines(tree@, rules@, unit@, lines.skip(i as int)),
            ) == merged_lines(tree@, rules@, unit@, lines),
        decreases file.lines.len() - i,
    {
        let ghost before = line_views(out@);
        let ghost rest = lines.skip(i as int);
        let ghost tail = merged_lines(tree@, rules@, unit@, rest.skip(1));
        assert(rest.skip(1) == lines.skip(i + 1));
        assert(rest[0] == file.lines@[i as int]@);
        match &file.lines[i] {
            Line::ModuleDeclaration(name) => {
                let child = unit.child(name.as_str());
                proof {
                    reveal_strlit("/");
                    assert(!child@.is_merge_root());
                    assert(!unit@.is_merge_root() ==> child@.path.len() > unit@.path.len());
                }
                match inject_modules(tree, rules, &child) {
                    Err(e) => {
                        return Err(e);
                    },
                    Ok(inner) => {
                        push_block(&mut out, name.as_str(), &inner);
                        proof {
                            lemma_prepended_twice(
                                before,
                                module_block(name@, line_views(inner@)),
                                tail,
                            );
                        }
                    },
                }
            },
            other => {
                push_emitted(&mut out, rules, unit, other);
                proof {
                    lemma_prepended_twice(before, emitted(rules@, unit@, rest[0]), tail);
                }
            },
        }
        i = i + 1;
    }
    assert(line_views(out@) + Seq::<LineView>::empty() =~= line_views(out@));
    Ok(out)
}

} // verus!
