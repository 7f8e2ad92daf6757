//! The line classifier: what kind of statement a source line holds.

use crate::error::MergeError;
use crate::text::{lines_of, trim, trimmed};
use regex::Regex;
use vstd::prelude::*;
use vstd::string::*;

verus! {

/// A line comment: white space, then `//`.
pub const COMMENT_PATTERN: &'static str = r"^\s*//";

/// An import: `use`, then the path, which is the first group.
pub const IMPORT_PATTERN: &'static str = r"^\s*use\s+(.*)\s*$";

/// A module declaration: `mod`, then the name, which is the second group,
/// then `;`.
pub const MODULE_PATTERN: &'static str = r"^\s*(pub\s+)?mod\s+(.*)\s*;\s*$";

/// A statement that prints to the standard error output.
pub const DIAGNOSTIC_PATTERN: &'static str = r"^\s*eprint(ln)?!";

/// `regex::Regex`, a compiled regular expression, is handed on as it is.
#[verifier::external_type_specification]
#[verifier::external_body]
pub struct ExRegex(Regex);

/// `regex::Error`, the error of a pattern that does not compile, is handed
/// on as it is.
#[verifier::external_type_specification]
#[verifier::external_body]
pub struct ExRegexError(regex::Error);

/// Whether `pattern` is a regular expression that `Regex::new` compiles.
pub uninterp spec fn regex_valid(pattern: Seq<char>) -> bool;

/// The pattern that `re` was compiled from.
pub uninterp spec fn regex_source(re: Regex) -> Seq<char>;

/// Whether the regular expression `pattern` matches somewhere in `text`.
pub uninterp spec fn regex_is_match(pattern: Seq<char>, text: Seq<char>) -> bool;

/// What the group `group` of the regular expression `pattern` holds in the
/// leftmost match in `text`; nothing where there is no match or the group took
/// no part in it.
pub uninterp spec fn regex_group(pattern: Seq<char>, text: Seq<char>, group: nat) -> Option<
    Seq<char>,
>;

/// `Regex::new` compiles a pattern with the default options. Whether it
/// succeeds depends on the pattern alone, and the regular expression keeps the
/// pattern it was made from.
#[verifier::external_body]
fn regex_new(pattern: &str) -> (r: Result<Regex, regex::Error>)
    ensures
        r is Ok <==> regex_valid(pattern@),
        r matches Ok(re) ==> regex_source(re) == pattern@,
{
    Regex::new(pattern)
}

/// `Regex::is_match` tells whether there is a match anywhere in the text. For
/// a regular expression that `Regex::new` made, the answer depends on the
/// pattern and the text alone.
#[verifier::external_body]
fn regex_match(re: &Regex, text: &str) -> (r: bool)
    ensures
        r == regex_is_match(regex_source(*re), text@),
{
    re.is_match(text)
}

/// `Regex::captures` finds the leftmost match, `Captures::get` the group of
/// that number in it, and `Match::as_str` the part of the text that the group
/// matched. For a regular expression that `Regex::new` made, all three depend
/// on the pattern and the text alone.
#[verifier::external_body]
fn regex_capture(re: &Regex, text: &str, group: usize) -> (r: Option<String>)
    ensures
        r is Some <==> regex_group(regex_source(*re), text@, group as nat) is Some,
        r matches Some(s) ==> s@ == regex_group(regex_source(*re), text@, group as nat).unwrap(),
{
    re.captures(text).and_then(|found| found.get(group)).map(|part| part.as_str().to_owned())
}

/// The view of a captured group.
pub open spec fn group_view(group: Option<String>) -> Option<Seq<char>> {
    match group {
        Some(text) => Some(text@),
        None => None,
    }
}

/// A line pattern, compiled.
pub struct Pattern {
    compiled: Regex,
}

impl Pattern {
    /// The regular expression that the pattern was compiled from.
    pub closed spec fn source(&self) -> Seq<char> {
        regex_source(self.compiled)
    }

    /// Compiles a line pattern.
    pub fn compile(source: &str) -> (r: Result<Pattern, MergeError>)
        ensures
            r is Ok <==> regex_valid(source@),
            r matches Ok(pattern) ==> pattern.source() == source@,
            r matches Err(e) ==> e@ == crate::error::MergeErrorView::Pattern(source@),
    {
        match regex_new(source) {
            Ok(compiled) => Ok(Pattern { compiled }),
            Err(_) => Err(MergeError::Pattern(source.to_owned())),
        }
    }

    /// Whether the pattern matches somewhere in `text`.
    pub fn is_match(&self, text: &str) -> (r: bool)
        ensures
            r == regex_is_match(self.source(), text@),
    {
        regex_match(&self.compiled, text)
    }

    /// What the group `group` of the pattern holds in the leftmost match in
    /// `text`.
    pub fn capture(&self, text: &str, group: usize) -> (r: Option<String>)
        ensures
            group_view(r) == regex_group(self.source(), text@, group as nat),
    {
        regex_capture(&self.compiled, text, group)
    }
}

/// A source line with the statement it holds.
#[derive(Debug, Clone, PartialEq, Eq)]
pub enum Line {
    /// A line comment, with the whole line.
    Comment(String),
    /// An import, with its path and what follows the path on the line.
    Import(String),
    /// The declaration of a module that lives in a file of its own, with the
    /// module's name.
    ModuleDeclaration(String),
    /// A statement that prints to the standard error output, with the whole
    /// line.
    DiagnosticOutput(String),
    /// Any other line, whole.
    Plain(String),
}

/// A `Line` with its text as a sequence of characters.
pub enum LineView {
    Comment(Seq<char>),
    Import(Seq<char>),
    ModuleDeclaration(Seq<char>),
    DiagnosticOutput(Seq<char>),
    Plain(Seq<char>),
}

impl View for Line {
    type V = LineView;

    open spec fn view(&self) -> LineView {
        match self {
            Line::Comment(text) => LineView::Comment(text@),
            Line::Import(path) => LineView::Import(path@),
            Line::ModuleDeclaration(name) => LineView::ModuleDeclaration(name@),
            Line::DiagnosticOutput(text) => LineView::DiagnosticOutput(text@),
            Line::Plain(text) => LineView::Plain(text@),
        }
    }
}

/// The views of a sequence of lines.
pub open spec fn line_views(lines: Seq<Line>) -> Seq<LineView> {
    lines.map_values(|line: Line| line@)
}

impl LineView {
    /// The line as it is written in a source file, without the line feed.
    pub open spec fn text(self) -> Seq<char> {
        match self {
            LineView::Comment(text) => text,
            LineView::Import(path) => "use "@ + path,
            LineView::ModuleDeclaration(name) => "mod "@ + name + ";"@,
            LineView::DiagnosticOutput(text) => text,
            LineView::Plain(text) => text,
        }
    }
}

impl Line {
    /// A copy of the line.
    pub fn copy(&self) -> (r: Line)
        ensures
            r@ == self@,
    {
        match self {
            Line::Comment(text) => Line::Comment(text.clone()),
            Line::Import(path) => Line::Import(path.clone()),
            Line::ModuleDeclaration(name) => Line::ModuleDeclaration(name.clone()),
            Line::DiagnosticOutput(text) => Line::DiagnosticOutput(text.clone()),
            Line::Plain(text) => Line::Plain(text.clone()),
        }
    }

    /// The line as it is written in a source file, without the line feed.
    pub fn text(&self) -> (r: String)
        ensures
            r@ == self@.text(),
    {
        match self {
            Line::Comment(text) => text.clone(),
            Line::Import(path) => crate::text::chain("use ", path.as_str()),
            Line::ModuleDeclaration(name) => crate::text::chain3("mod ", name.as_str(), ";"),
            Line::DiagnosticOutput(text) => text.clone(),
            Line::Plain(text) => text.clone(),
        }
    }
}

/// The text of a file that holds `lines`: each line as it is written, with a
/// line feed after it.
pub open spec fn rendered(lines: Seq<LineView>) -> Seq<char>
    decreases lines.len(),
{
    if lines.len() == 0 {
        Seq::empty()
    } else {
        rendered(lines.drop_last()) + lines.last().text() + "\n"@
    }
}

/// Writes `lines` out as the text of a file.
pub fn render(lines: &Vec<Line>) -> (r: String)
    ensures
        r@ == rendered(line_views(lines@)),
{
    let mut r = String::new();
    let mut i: usize = 0;
    assert(line_views(lines@).take(0) =~= Seq::<LineView>::empty());
    while i < lines.len()
        invariant
            i <= lines.len(),
            r@ == rendered(line_views(lines@).take(i as int)),
        decreases lines.len() - i,
    {
        let text = lines[i].text();
        r.append(text.as_str());
        r.append("\n");
        assert(line_views(lines@).take(i + 1).drop_last() == line_views(lines@).take(i as int));
        i = i + 1;
    }
    assert(line_views(lines@).take(i as int) == line_views(lines@));
    r
}

/// The kind of `line`, given what the four patterns found in it: the first of
/// comment, import, module declaration and diagnostic output that matched
/// decides, and a line that none matched is plain. `import` and `module` are
/// the groups that the patterns captured; a group is kept without the white
/// space around it.
pub open spec fn line_of_matches(
    line: Seq<char>,
    comment: bool,
    import: Option<Seq<char>>,
    module: Option<Seq<char>>,
    diagnostic: bool,
) -> LineView {
    if comment {
        LineView::Comment(line)
    } else if import is Some {
        LineView::Import(trimmed(import.unwrap()))
    } else if module is Some {
        LineView::ModuleDeclaration(trimmed(module.unwrap()))
    } else if diagnostic {
        LineView::DiagnosticOutput(line)
    } else {
        LineView::Plain(line)
    }
}

/// Classifies a line from what the four patterns found in it.
pub fn classify_matches(
    line: &str,
    comment: bool,
    import: Option<String>,
    module: Option<String>,
    diagnostic: bool,
) -> (r: Line)
    ensures
        r@ == line_of_matches(line@, comment, group_view(import), group_view(module), diagnostic),
{
    if comment {
        Line::Comment(line.to_owned())
    } else if let Some(path) = import {
        Line::Import(trim(path.as_str()))
    } else if let Some(name) = module {
        Line::ModuleDeclaration(trim(name.as_str()))
    } else if diagnostic {
        Line::DiagnosticOutput(line.to_owned())
    } else {
        Line::Plain(line.to_owned())
    }
}

/// The kind of `line`, by the four line patterns.
pub open spec fn classified(line: Seq<char>) -> LineView {
    line_of_matches(
        line,
        regex_is_match(COMMENT_PATTERN@, line),
        regex_group(IMPORT_PATTERN@, line, 1),
        regex_group(MODULE_PATTERN@, line, 2),
        regex_is_match(DIAGNOSTIC_PATTERN@, line),
    )
}

/// `lines`, each with its kind.
pub open spec fn classified_lines(lines: Seq<Seq<char>>) -> Seq<LineView> {
    lines.map_values(|line: Seq<char>| classified(line))
}

/// The lines of `text`, each with its kind.
pub open spec fn classified_text(text: Seq<char>) -> Seq<LineView> {
    classified_lines(lines_of(text))
}

/// Whether the four line patterns are regular expressions.
pub open spec fn patterns_valid() -> bool {
    &&& regex_valid(COMMENT_PATTERN@)
    &&& regex_valid(IMPORT_PATTERN@)
    &&& regex_valid(MODULE_PATTERN@)
    &&& regex_valid(DIAGNOSTIC_PATTERN@)
}

/// The first of the four patterns, in the order comment, module, import,
/// diagnostic, that is no regular expression.
pub open spec fn first_invalid_pattern() -> Seq<char> {
    if !regex_valid(COMMENT_PATTERN@) {
        COMMENT_PATTERN@
    } else if !regex_valid(MODULE_PATTERN@) {
        MODULE_PATTERN@
    } else if !regex_valid(IMPORT_PATTERN@) {
        IMPORT_PATTERN@
    } else {
        DIAGNOSTIC_PATTERN@
    }
}

/// The line classifier, with its four patterns compiled.
pub struct Classifier {
    comment: Pattern,
    import: Pattern,
    module: Pattern,
    diagnostic: Pattern,
}

impl Classifier {
    #[verifier::type_invariant]
    spec fn well_formed(self) -> bool {
        &&& self.comment.source() == COMMENT_PATTERN@
        &&& self.import.source() == IMPORT_PATTERN@
        &&& self.module.source() == MODULE_PATTERN@
        &&& self.diagnostic.source() == DIAGNOSTIC_PATTERN@
    }

    /// Compiles the four line patterns.
    pub fn new() -> (r: Result<Classifier, MergeError>)
        ensures
            r is Ok <==> patterns_valid(),
            r matches Err(e) ==> e@ == crate::error::MergeErrorView::Pattern(
                first_invalid_pattern(),
            ),
    {
        let comment = match Pattern::compile(COMMENT_PATTERN) {
            Ok(pattern) => pattern,
            Err(e) => {
                return Err(e);
            },
        };
        let module = match Pattern::compile(MODULE_PATTERN) {
            Ok(pattern) => pattern,
            Err(e) => {
                return Err(e);
            },
        };
        let import = match Pattern::compile(IMPORT_PATTERN) {
            Ok(pattern) => pattern,
            Err(e) => {
                return Err(e);
            },
        };
        let diagnostic = match Pattern::compile(DIAGNOSTIC_PATTERN) {
            Ok(pattern) => pattern,
            Err(e) => {
                return Err(e);
            },
        };
        Ok(Classifier { comment, import, module, diagnostic })
    }

    /// Classifies one line of source text.
    pub fn classify(&self, line: &str) -> (r: Line)
        ensures
            r@ == classified(line@),
    {
        proof {
            use_type_invariant(self);
        }
        let comment = self.comment.is_match(line);
        let import = self.import.capture(line, 1);
        let module = self.module.capture(line, 2);
        let diagnostic = self.diagnostic.is_match(line);
        classify_matches(line, comment, import, module, diagnostic)
    }

    /// Classifies lines of source text, in their order.
    pub fn classify_lines(&self, lines: &Vec<String>) -> (r: Vec<Line>)
        ensures
            line_views(r@) == classified_lines(crate::text::texts(lines@)),
    {
        let mut out: Vec<Line> = Vec::new();
        let mut i: usize = 0;
        while i < lines.len()
            invariant
                i <= lines.len(),
                out.len() == i,
                forall|k: int| 0 <= k < i ==> (#[trigger] out@[k])@ == classified(lines@[k]@),
            decreases lines.len() - i,
        {
            let line = self.classify(lines[i].as_str());
            out.push(line);
            i = i + 1;
        }
        assert(line_views(out@) =~= classified_lines(crate::text::texts(lines@)));
        out
    }

    /// Classifies the lines of a source text, in their order.
    pub fn classify_text(&self, text: &str) -> (r: Vec<Line>)
        ensures
            line_views(r@) == classified_text(text@),
    {
        let lines = crate::text::split_lines(text);
        self.classify_lines(&lines)
    }
}

} // verus!
