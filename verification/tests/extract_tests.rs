use rusty_tools::extract::extract_clippy_todos;
use rusty_tools::extract::extract_diagnostics;
use rusty_tools::extract::parse_error_line;

#[test]
fn coded_diagnostic_round_trip() {
    let records = extract_diagnostics("error[E0308]: mismatched types\n");
    assert_eq!(records.len(), 1);
    let r = &records[0];
    assert_eq!(r.code.as_deref(), Some("E0308"));
    assert_eq!(r.message, "mismatched types");
    assert!(r.file.is_none());
    assert!(r.line.is_none());
    assert!(r.suggestion.is_none());
}

#[test]
fn warning_line_gets_warning_code() {
    let records = extract_diagnostics("warning: unused variable: `x`\n");
    assert_eq!(records.len(), 1);
    let r = &records[0];
    assert_eq!(r.code.as_deref(), Some("WARNING"));
    assert_eq!(r.message, "unused variable: `x`");
    assert!(r.file.is_none());
    assert!(r.line.is_none());
    assert!(r.suggestion.is_none());
}

#[test]
fn help_line_becomes_suggestion() {
    let records = extract_diagnostics("help: consider using `_x` instead\n");
    assert_eq!(records.len(), 1);
    let r = &records[0];
    assert!(r.code.is_none());
    assert_eq!(r.message, "Help");
    assert!(r.file.is_none());
    assert!(r.line.is_none());
    assert_eq!(r.suggestion.as_deref(), Some("consider using `_x` instead"));
}

#[test]
fn location_line_yields_file_and_line() {
    let records = extract_diagnostics("shown at --> src/main.rs:10:5\n");
    assert_eq!(records.len(), 1);
    let r = &records[0];
    assert!(r.code.is_none());
    assert_eq!(r.message, "Error at src/main.rs:10:5");
    assert_eq!(r.file.as_deref(), Some("src/main.rs"));
    assert_eq!(r.line, Some(10));
    assert!(r.suggestion.is_none());
}

#[test]
fn location_without_numeric_line_keeps_file() {
    let r = parse_error_line("seen --> src/lib.rs:abc").unwrap();
    assert_eq!(r.file.as_deref(), Some("src/lib.rs"));
    assert_eq!(r.line, None);
    assert_eq!(r.message, "Error at src/lib.rs:abc");
}

#[test]
fn leading_arrow_location_line_matches() {
    let r = parse_error_line("  --> src/main.rs:10:5").unwrap();
    assert!(r.code.is_none());
    assert_eq!(r.message, "Error at src/main.rs:10:5");
    assert_eq!(r.file.as_deref(), Some("src/main.rs"));
    assert_eq!(r.line, Some(10));
    assert!(r.suggestion.is_none());
}

#[test]
fn leading_arrow_with_second_arrow_is_refused() {
    assert!(parse_error_line("--> a --> b:1").is_none());
}

#[test]
fn coded_rule_wins_over_warning() {
    let r = parse_error_line("warning: error[E0599]: no method named `foo`").unwrap();
    assert_eq!(r.code.as_deref(), Some("E0599"));
    assert_eq!(r.message, "no method named `foo`");
}

#[test]
fn unrecognized_lines_yield_nothing() {
    let records = extract_diagnostics("Compiling foo v0.1.0\n   note: something\n\n");
    assert_eq!(records.len(), 0);
}

#[test]
fn empty_coded_message_is_dropped() {
    assert!(parse_error_line("error[E0001]:    ").is_none());
}

#[test]
fn empty_warning_message_is_dropped() {
    assert!(parse_error_line("warning:   ").is_none());
}

#[test]
fn records_come_in_line_order() {
    let text = "error[E0308]: mismatched types\n  --> src/main.rs:3:1\nhelp: fix it\n";
    let records = extract_diagnostics(text);
    assert_eq!(records.len(), 3);
    assert_eq!(records[0].code.as_deref(), Some("E0308"));
    assert_eq!(records[1].file.as_deref(), Some("src/main.rs"));
    assert_eq!(records[2].suggestion.as_deref(), Some("fix it"));
}

#[test]
fn clippy_warning_becomes_todo() {
    let todos = extract_clippy_todos(
        "warning: this returns unnecessarily  #[warn(clippy::needless_return)]\n",
    );
    assert_eq!(todos.len(), 1);
    assert_eq!(todos[0].source, "clippy");
    assert_eq!(
        todos[0].description,
        "this returns unnecessarily  #[warn(clippy::needless_return)]"
    );
}

#[test]
fn clippy_help_becomes_todo() {
    let todos = extract_clippy_todos("help: remove the return keyword\n");
    assert_eq!(todos.len(), 1);
    assert_eq!(todos[0].source, "clippy_help");
    assert_eq!(todos[0].description, "remove the return keyword");
}

#[test]
fn plain_warning_is_no_clippy_todo() {
    let todos = extract_clippy_todos("warning: unused variable: `x`\n");
    assert_eq!(todos.len(), 0);
}

#[test]
fn help_line_feeds_both_passes() {
    let text = "help: consider removing this\n";
    let diags = extract_diagnostics(text);
    let todos = extract_clippy_todos(text);
    assert_eq!(diags.len(), 1);
    assert_eq!(diags[0].message, "Help");
    assert_eq!(todos.len(), 1);
    assert_eq!(todos[0].source, "clippy_help");
}

#[test]
fn two_arrows_disable_location_rule() {
    assert!(parse_error_line("a --> b:1 --> c:2").is_none());
}

#[test]
fn lines_are_trimmed_before_matching() {
    let r = parse_error_line("   help: pad me   ").unwrap();
    assert_eq!(r.suggestion.as_deref(), Some("pad me"));
}
