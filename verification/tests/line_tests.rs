use cargo_merge::error::MergeError;
use cargo_merge::line::{
    classify_matches, render, Classifier, Line, Pattern, COMMENT_PATTERN, DIAGNOSTIC_PATTERN,
    IMPORT_PATTERN, MODULE_PATTERN,
};

fn classify(line: &str) -> Line {
    Classifier::new().unwrap().classify(line)
}

#[test]
fn the_four_patterns_compile() {
    for pattern in [COMMENT_PATTERN, IMPORT_PATTERN, MODULE_PATTERN, DIAGNOSTIC_PATTERN] {
        assert!(Pattern::compile(pattern).is_ok());
    }
    assert!(Classifier::new().is_ok());
}

#[test]
fn a_pattern_that_is_no_regular_expression_gives_the_pattern_error() {
    match Pattern::compile("foo(bar") {
        Err(e) => assert_eq!(e, MergeError::Pattern("foo(bar".to_string())),
        Ok(_) => panic!("an unclosed group compiled"),
    }
}

#[test]
fn a_pattern_matches_anywhere_in_the_text() {
    let pattern = Pattern::compile("b+c").ok().unwrap();
    assert!(pattern.is_match("aabbbcc"));
    assert!(pattern.is_match("bc"));
    assert!(!pattern.is_match("b c"));
    assert!(!pattern.is_match(""));
    let anchored = Pattern::compile("^b").ok().unwrap();
    assert!(anchored.is_match("bc"));
    assert!(!anchored.is_match("abc"));
}

#[test]
fn a_pattern_captures_the_groups_of_the_leftmost_match() {
    let pattern = Pattern::compile("(a+)(x)?(b*)").ok().unwrap();
    assert_eq!(pattern.capture("--aab-ab", 0), Some("aab".to_string()));
    assert_eq!(pattern.capture("--aab-ab", 1), Some("aa".to_string()));
    assert_eq!(pattern.capture("--aab-ab", 2), None);
    assert_eq!(pattern.capture("--aab-ab", 3), Some("b".to_string()));
    assert_eq!(pattern.capture("--aab-ab", 4), None);
    assert_eq!(pattern.capture("--a", 3), Some("".to_string()));
    assert_eq!(pattern.capture("bbb", 0), None);
}

#[test]
fn a_comment_is_kept_whole() {
    assert_eq!(classify("// a comment"), Line::Comment("// a comment".to_string()));
    assert_eq!(classify("   /// doc"), Line::Comment("   /// doc".to_string()));
    assert_eq!(classify("\t//"), Line::Comment("\t//".to_string()));
}

#[test]
fn an_import_keeps_its_path_and_terminator() {
    assert_eq!(classify("use crate::bar;"), Line::Import("crate::bar;".to_string()));
    assert_eq!(classify("    use  a::b ;  "), Line::Import("a::b ;".to_string()));
    assert_eq!(classify("use std::{"), Line::Import("std::{".to_string()));
    assert_eq!(classify("use a::b; // why"), Line::Import("a::b; // why".to_string()));
}

#[test]
fn a_module_declaration_keeps_the_name() {
    assert_eq!(classify("mod foo;"), Line::ModuleDeclaration("foo".to_string()));
    assert_eq!(classify("  pub mod foo ; "), Line::ModuleDeclaration("foo".to_string()));
    assert_eq!(classify("pub   mod\tfoo;"), Line::ModuleDeclaration("foo".to_string()));
}

#[test]
fn a_module_with_a_body_is_plain() {
    assert_eq!(classify("mod foo {"), Line::Plain("mod foo {".to_string()));
    assert_eq!(classify("pub mod foo {"), Line::Plain("pub mod foo {".to_string()));
    assert_eq!(classify("mod foo; // x"), Line::Plain("mod foo; // x".to_string()));
    assert_eq!(classify("pub(crate) mod foo;"), Line::Plain("pub(crate) mod foo;".to_string()));
}

#[test]
fn a_diagnostic_output_statement_is_kept_whole() {
    assert_eq!(
        classify("    eprintln!(\"x = {}\", x);"),
        Line::DiagnosticOutput("    eprintln!(\"x = {}\", x);".to_string())
    );
    assert_eq!(classify("eprint!(\"x\");"), Line::DiagnosticOutput("eprint!(\"x\");".to_string()));
}

#[test]
fn other_lines_are_plain() {
    assert_eq!(classify(""), Line::Plain("".to_string()));
    assert_eq!(classify("fn main() {}"), Line::Plain("fn main() {}".to_string()));
    assert_eq!(classify("println!(\"x\");"), Line::Plain("println!(\"x\");".to_string()));
    assert_eq!(classify("user_fn();"), Line::Plain("user_fn();".to_string()));
    assert_eq!(classify("let x = 1; // eprintln!"), Line::Plain("let x = 1; // eprintln!".to_string()));
    assert_eq!(classify("}"), Line::Plain("}".to_string()));
}

#[test]
fn the_first_pattern_that_matches_decides() {
    assert_eq!(classify("// use a::b;"), Line::Comment("// use a::b;".to_string()));
    assert_eq!(classify("// mod foo;"), Line::Comment("// mod foo;".to_string()));
    assert_eq!(classify("// eprintln!(\"x\");"), Line::Comment("// eprintln!(\"x\");".to_string()));
    assert_eq!(classify("use mod foo;"), Line::Import("mod foo;".to_string()));
}

#[test]
fn classify_matches_follows_the_priority() {
    let group = |text: &str| Some(text.to_string());
    assert_eq!(
        classify_matches("l", true, group(" a "), group(" m "), true),
        Line::Comment("l".to_string())
    );
    assert_eq!(
        classify_matches("l", false, group(" a "), group(" m "), true),
        Line::Import("a".to_string())
    );
    assert_eq!(
        classify_matches("l", false, None, group(" m "), true),
        Line::ModuleDeclaration("m".to_string())
    );
    assert_eq!(
        classify_matches("l", false, None, None, true),
        Line::DiagnosticOutput("l".to_string())
    );
    assert_eq!(classify_matches("l", false, None, None, false), Line::Plain("l".to_string()));
}

#[test]
fn classify_text_classifies_line_by_line() {
    let lines = Classifier::new().unwrap().classify_text("mod a;\r\nuse a::b;\nfn f() {}");
    assert_eq!(
        lines,
        vec![
            Line::ModuleDeclaration("a".to_string()),
            Line::Import("a::b;".to_string()),
            Line::Plain("fn f() {}".to_string()),
        ]
    );
    assert_eq!(Classifier::new().unwrap().classify_text(""), Vec::<Line>::new());
}

#[test]
fn each_kind_of_line_has_its_text() {
    assert_eq!(Line::Comment("// c".to_string()).text(), "// c");
    assert_eq!(Line::Import("a::b;".to_string()).text(), "use a::b;");
    assert_eq!(Line::ModuleDeclaration("foo".to_string()).text(), "mod foo;");
    assert_eq!(Line::DiagnosticOutput("eprint!(\"\");".to_string()).text(), "eprint!(\"\");");
    assert_eq!(Line::Plain("x".to_string()).text(), "x");
    let line = Line::Import("a".to_string());
    assert_eq!(line.copy(), line);
}

#[test]
fn render_ends_each_line_with_a_line_feed() {
    let lines = vec![
        Line::Comment("// c".to_string()),
        Line::Import("a::b;".to_string()),
        Line::Plain("".to_string()),
        Line::Plain("}".to_string()),
    ];
    assert_eq!(render(&lines), "// c\nuse a::b;\n\n}\n");
    assert_eq!(render(&Vec::new()), "");
}

#[test]
fn classify_lines_takes_each_line_as_it_is() {
    let lines = vec!["mod a;".to_string(), "x\r".to_string(), "use b; ".to_string()];
    assert_eq!(
        Classifier::new().unwrap().classify_lines(&lines),
        vec![
            Line::ModuleDeclaration("a".to_string()),
            Line::Plain("x\r".to_string()),
            Line::Import("b;".to_string()),
        ]
    );
}
