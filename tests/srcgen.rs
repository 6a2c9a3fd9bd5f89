use codegen_meta::dedent::parse_multiline;
use codegen_meta::match_arms::_Match;
use codegen_meta::srcgen::{Formatter, _indent};

#[test]
fn adding_arms_works() {
    let mut m = _Match::_new("x");
    m._arm("Orange", vec!["a", "b"], "some body");
    m._arm("Yellow", vec!["a", "b"], "some body");
    m._arm("Green", vec!["a", "b"], "different body");
    m._arm("Blue", vec!["x", "y"], "some body");
    assert_eq!(m.arm_count(), 3);
}

#[test]
fn parse_multiline_works() {
    let input = "\n    hello\n    world\n";
    let expected = vec!["hello", "world"];
    let output = parse_multiline(input);
    assert_eq!(output, expected);
}

#[test]
fn get_indent_works() {
    let mut fmt = Formatter::new();
    let expected_results = vec!["", "    ", "        ", ""];

    let actual_results = Vec::with_capacity(4);
    (0..3).for_each(|_| {
        fmt.get_indent();
        fmt._indent_push();
    });
    (0..3).for_each(|_| fmt._indent_pop());
    fmt.get_indent();

    actual_results
        .into_iter()
        .zip(expected_results.into_iter())
        .for_each(|(actual, expected): (String, &str)| assert_eq!(&actual, expected));
}

#[test]
fn fmt_can_add_type_to_lines() {
    let mut fmt = Formatter::new();
    fmt.line(&format!("pub const {}: Type = Type({:#x});", "example", 0,));
    let expected_lines = vec!["pub const example: Type = Type(0x0);\n"];
    assert_eq!(fmt.lines(), &expected_lines);
}

#[test]
fn fmt_can_add_indented_line() {
    let mut fmt = Formatter::new();
    fmt.line("hello");
    fmt._indent_push();
    fmt.line("world");
    let expected_lines = vec!["hello\n", "    world\n"];
    assert_eq!(fmt.lines(), &expected_lines);
}

#[test]
fn get_indent_grows_by_four_spaces() {
    let mut fmt = Formatter::new();
    assert_eq!(fmt.get_indent(), "");
    fmt._indent_push();
    assert_eq!(fmt.get_indent(), "    ");
    fmt._indent_push();
    assert_eq!(fmt.get_indent(), "        ");
    assert_eq!(fmt._get_outdent(), "    ");
}

#[test]
fn indent_balance() {
    let mut fmt = Formatter::new();
    fmt._indent_push();
    fmt._indent_push();
    fmt._indent_pop();
    fmt._indent_pop();
    assert_eq!(fmt.indent_level(), 0);
    assert_eq!(fmt.get_indent(), "");
}

#[test]
fn empty_line_has_no_indentation() {
    let mut fmt = Formatter::new();
    fmt._indent_push();
    fmt.line("");
    fmt.line("x");
    assert_eq!(fmt.lines(), &vec!["\n", "    x\n"]);
}

#[test]
fn comment_and_outdented_line() {
    let mut fmt = Formatter::new();
    fmt._indent_push();
    fmt._comment("note");
    fmt._outdented_line("}");
    assert_eq!(fmt.lines(), &vec!["    // note\n", "}\n"]);
}

#[test]
fn doc_comment_dedents_and_prefixes() {
    let mut fmt = Formatter::new();
    fmt._indent_push();
    fmt.doc_comment("\n    First line.\n\n      indented\n    ");
    assert_eq!(
        fmt.lines(),
        &vec!["    /// First line.\n", "    /// \n", "    ///   indented\n"]
    );
}

#[test]
fn multi_line_emits_each_line() {
    let mut fmt = Formatter::new();
    fmt._multi_line("a\n  b\n  c");
    assert_eq!(fmt.lines(), &vec!["a\n", "b\n", "c\n"]);
    assert_eq!(fmt.contents(), "a\nb\nc\n");
}

#[test]
fn indented_scope_wraps_block() {
    let mut fmt = Formatter::new();
    fmt.line("fn f() {");
    let mut scope = fmt._indented(Some("match x {"), Some("}"));
    scope._enter();
    let mut fmt = scope.into_formatter();
    fmt.line("_ => {}");
    let mut scope = fmt._indented(None, Some("}"));
    scope._exit();
    let fmt = scope.into_formatter();
    assert_eq!(
        fmt.lines(),
        &vec!["fn f() {\n", "match x {\n", "    _ => {}\n", "}\n"]
    );
}

#[test]
fn indent_of_line() {
    assert_eq!(_indent(""), None);
    assert_eq!(_indent("x"), Some(0));
    assert_eq!(_indent("   x "), Some(3));
    assert_eq!(_indent("  "), Some(2));
}

#[test]
fn arm_dedup_ignores_repeated_names() {
    let mut m = _Match::_new("x");
    m._arm("Orange", vec!["a"], "b");
    m._arm("Orange", vec!["a"], "b");
    m._arm("Red", vec!["a"], "b");
    assert_eq!(m.arm_count(), 1);
    m._arm("Blue", vec![], "b");
    m._arm("Green", vec!["a"], "c");
    assert_eq!(m.arm_count(), 3);
}
