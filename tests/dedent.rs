use codegen_meta::dedent::parse_multiline;
use codegen_meta::srcgen::Formatter;

#[test]
fn dedent_empty_and_blank_input() {
    assert!(parse_multiline("").is_empty());
    assert!(parse_multiline("   \n\t\n  ").is_empty());
}

#[test]
fn dedent_single_line_is_trimmed() {
    assert_eq!(parse_multiline("   hello  "), vec!["hello"]);
}

#[test]
fn dedent_first_line_is_special() {
    assert_eq!(
        parse_multiline("  Summary.\n      more\n        deeper\n"),
        vec!["Summary.", "more", "  deeper"]
    );
}

#[test]
fn dedent_keeps_interior_blank_lines() {
    assert_eq!(
        parse_multiline("a\n    b\n\n    c   \n\n"),
        vec!["a", "b", "", "c"]
    );
}

#[test]
fn dedent_zero_common_indentation() {
    assert_eq!(parse_multiline("x\ny\n  z"), vec!["x", "y", "  z"]);
}

#[test]
fn dedent_expands_tabs() {
    assert_eq!(parse_multiline("x\n\ty\n\t\tz"), vec!["x", "y", "    z"]);
}

#[test]
fn dedent_blank_lines_do_not_set_indentation() {
    assert_eq!(parse_multiline("x\n \n    y"), vec!["x", "", "y"]);
}

#[test]
fn dedent_idempotence() {
    let input = "First.\n        body line\n          nested\n\n        last\n";
    let first = parse_multiline(input);
    let mut fmt = Formatter::new();
    fmt._indent_push();
    fmt._indent_push();
    for l in first.iter() {
        fmt.line(l);
    }
    let again = parse_multiline(&fmt.contents());
    assert_eq!(again, first);
    assert_eq!(first, vec!["First.", "body line", "  nested", "", "last"]);
}
