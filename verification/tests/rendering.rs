use context_error::{BasicKind, Context, CustomError, FilePosition, Highlight};

/// Every rendered character is printable: a line feed or anything above the
/// C0 control range, and never DEL.
fn test_characters(text: &str) {
    for c in text.chars() {
        assert!(
            c == '\n' || (c as u32 > 31 && c != '\u{007F}'),
            "{} ({}) is invalid range\n{}",
            c,
            c as u32,
            text
        );
    }
}

#[test]
fn empty() {
    let error = CustomError::new(BasicKind::Error, "test", "test", Context::none());
    let string = error.to_string();
    assert_eq!(string, "error: test\ntest\n");
    test_characters(&string);
}

#[test]
fn full_line() {
    let error = CustomError::new(
        BasicKind::Warning,
        "test",
        "test",
        Context::full_line(0, "testing line"),
    );
    let string = error.to_string();
    assert_eq!(string, "warning: test\n  ╷\n1 │ testing line\n  ╵\ntest\n");
    test_characters(&string);
}

#[test]
fn range() {
    let start = FilePosition {
        text: "hello world\nthis is a multiline\npiece of teXt".to_string(),
        line_index: 0,
        column: 0,
    };
    let end = FilePosition {
        text: String::new(),
        line_index: 3,
        column: 13,
    };
    let error = CustomError::new(
        BasicKind::Warning,
        "test",
        "test error",
        Context::range(&start, &end),
    );
    let string = error.to_string();
    assert_eq!(
        string,
        "warning: test\n  ╷\n1 │ hello world\n2 │ this is a multiline\n3 │ piece of teXt\n  ╵\ntest error\n"
    );
    test_characters(&string);
}

#[test]
fn suggestion() {
    let error = CustomError::new(
        BasicKind::Error,
        "Invalid path",
        "This file does not exist",
        Context::show("fileee.txt"),
    )
    .suggestions(&vec!["file.txt".to_string()]);
    let string = error.to_string();
    assert_eq!(
        string,
        "error: Invalid path\n ╷\n │ fileee.txt\n ╵\nThis file does not exist\nDid you mean: file.txt?\n"
    );
    test_characters(&string);
}

#[test]
fn suggestions() {
    let error = CustomError::new(
        BasicKind::Error,
        "Invalid path",
        "This file does not exist",
        Context::show("fileee.txt"),
    )
    .suggestions(&vec!["file.txt".to_string(), "filet.txt".to_string()]);
    let string = error.to_string();
    assert_eq!(
        string,
        "error: Invalid path\n ╷\n │ fileee.txt\n ╵\nThis file does not exist\nDid you mean any of: file.txt, filet.txt?\n"
    );
    test_characters(&string);
}

#[test]
fn version() {
    let error = CustomError::new(
        BasicKind::Error,
        "Invalid number",
        "This columns is not a number",
        Context::default()
            .lines(0, "null,80o0,YES,,67.77")
            .add_highlight(Highlight::from_range(0, 5..9)),
    )
    .version("Software AB v2025.42");
    let string = error.to_string();
    assert_eq!(
        string,
        "error: Invalid number\n ╷\n │ null,80o0,YES,,67.77\n ╎      ╶──╴\n ╵\nThis columns is not a number\nVersion: Software AB v2025.42\n"
    );
    test_characters(&string);
}

#[test]
fn merged() {
    let error = CustomError::new(
        BasicKind::Error,
        "Invalid number",
        "This columns is not a number",
        Context::default()
            .line_index(2)
            .lines(0, "null,80o0,YES,,67.77")
            .add_highlight(Highlight::from_range(0, 5..9)),
    )
    .version("Software AB v2025.42")
    .add_context(
        Context::default()
            .line_index(12)
            .lines(0, "null,7oo1,NO,-1,23.11")
            .add_highlight(Highlight::from_range(0, 5..9)),
    )
    .add_context(
        Context::default()
            .line_index(34)
            .lines(0, "HOMOSAPIENS,12i1,YES,,1.23")
            .add_highlight(Highlight::from_range(0, 12..16)),
    );
    let string = error.to_string();
    assert_eq!(
        string,
        "error: Invalid number\n   ╷\n3  │ null,80o0,YES,,67.77\n   ╎      ╶──╴\n13 │ null,7oo1,NO,-1,23.11\n   ╎      ╶──╴\n35 │ HOMOSAPIENS,12i1,YES,,1.23\n   ╎             ╶──╴\n   ╵\nThis columns is not a number\nVersion: Software AB v2025.42\n"
    );
    test_characters(&string);
}

#[test]
fn underlying_error() {
    let error = CustomError::new(
        BasicKind::Error,
        "Invalid csv line",
        "This column is not a number",
        Context::default()
            .lines(0, "null,80o0,YES,,67.77")
            .add_highlight(Highlight::from_range(0, 5..9)),
    )
    .add_underlying_error(CustomError::new(
        BasicKind::Error,
        "Invalid number",
        "The number contains invalid digit(s)",
        Context::default()
            .lines(0, "null,80o0,YES,,67.77")
            .add_highlight(Highlight::from_range(0, 7..8)),
    ));
    let string = error.to_string();
    assert_eq!(
        string,
        "error: Invalid csv line\n ╷\n │ null,80o0,YES,,67.77\n ╎      ╶──╴\n ╵\nThis column is not a number\nUnderlying error:\nerror: Invalid number\n ╷\n │ null,80o0,YES,,67.77\n ╎        ⁃\n ╵\nThe number contains invalid digit(s)\n"
    );
    test_characters(&string);
}

#[test]
fn line_highlight_three_rows() {
    let context = Context::line(Some(0), "#[derive(Clone)]", 10, 5);
    let string = context.to_string();
    assert_eq!(string, "  ╷\n1 │ #[derive(Clone)]\n  ╎           ╶───╴\n  ╵");
    let rows: Vec<&str> = string.split('\n').collect();
    assert_eq!(rows.len(), 4);
    assert!(rows[1].starts_with("1 │ "));
    test_characters(&string);
}

#[test]
fn point_highlight_renders_point_glyph() {
    let context = Context::default()
        .lines(0, "abc")
        .add_highlight(Highlight::new(0, 1, 0));
    let string = context.to_string();
    assert_eq!(string, " ╷\n │ abc\n ╎  ò\n ╵");
    assert!(string.contains('ò'));
    assert!(!string.contains('─'));
}

#[test]
fn overlong_highlight_is_clipped() {
    let context = Context::default()
        .lines(0, "short")
        .add_highlight(Highlight::new(0, 2, 50));
    let string = context.to_string();
    assert_eq!(string, " ╷\n │ short\n ╎   ╶─╴\n ╵");
    for row in string.split('\n') {
        assert!(row.chars().count() <= " │ short".chars().count());
    }
}

#[test]
fn empty_context_renders_nothing() {
    assert!(Context::none().is_empty());
    assert_eq!(Context::none().to_string(), "");
}

#[test]
fn locator_without_text() {
    let context = Context::none().source("file.rs").line_index(4);
    assert_eq!(context.to_string(), "[file.rs:5]");
    let with_column = Context::line(Some(4), "", 7, 2);
    assert_eq!(with_column.to_string(), "[:5:8]");
}

#[test]
fn control_characters_are_substituted() {
    let context = Context::default().lines(0, "a\tb");
    let string = context.to_string();
    assert!(string.contains('\u{2409}'));
    test_characters(&string);
}

#[test]
fn control_characters_in_comments_are_substituted() {
    let context = Context::default()
        .lines(0, "abc")
        .add_highlight(Highlight::with_comment(0, 0, 2, "tab\there"));
    let string = context.to_string();
    assert!(string.contains("tab\u{2409}here"), "{}", string);
    test_characters(&string);
}

#[test]
fn leading_empty_context_keeps_the_decoration() {
    let with_empty = CustomError::new(BasicKind::Error, "t", "l", Context::none())
        .add_context(Context::full_line(0, "code"));
    let without = CustomError::new(BasicKind::Error, "t", "l", Context::full_line(0, "code"));
    assert_eq!(with_empty.to_string(), without.to_string());
}

#[test]
fn trailing_empty_context_keeps_the_decoration() {
    let with_empty = CustomError::new(
        BasicKind::Error,
        "t",
        "l",
        Context::full_line(0, "code"),
    )
    .add_context(Context::none());
    let without = CustomError::new(BasicKind::Error, "t", "l", Context::full_line(0, "code"));
    assert_eq!(with_empty.to_string(), without.to_string());
    assert_eq!(with_empty.to_string().matches('╵').count(), 1);
}

#[test]
fn long_line_wraps_into_rows_with_ellipses() {
    let mut line = String::new();
    for _ in 0..200 {
        line.push('x');
    }
    let context = Context::default()
        .lines(0, &line)
        .add_highlight(Highlight::from_range(0, 50..160));
    let string = context.to_string();
    let rows: Vec<&str> = string.split('\n').collect();
    let text_rows: Vec<&&str> = rows.iter().filter(|r| r.starts_with(" │ ")).collect();
    assert!(text_rows.len() >= 2, "expected at least two continuation rows:\n{}", string);
    for row in &text_rows {
        assert!(row.contains('…'), "row without an ellipsis: {}", row);
    }
    let strip_rows: Vec<&&str> = rows.iter().filter(|r| r.starts_with(" ╎ ")).collect();
    assert!(!strip_rows.is_empty());
    assert!(string.contains('╶'));
    test_characters(&string);
}

#[test]
fn highlight_comment_is_printed() {
    let context = Context::default()
        .lines(0, "null,80o0")
        .add_highlight(Highlight::with_comment(0, 5, 4, "not a number"));
    let string = context.to_string();
    assert!(string.contains("not a number"), "{}", string);
}

#[test]
fn position_highlights_line_start() {
    let pos = FilePosition {
        text: "first line\nsecond".to_string(),
        line_index: 6,
        column: 0,
    };
    let context = Context::position(&pos);
    let string = context.to_string();
    assert_eq!(string, "  ╷\n7 │ first line\n  ╎ ╶─╴\n  ╵");
}

#[test]
fn non_colliding_highlights_share_one_strip() {
    let context = Context::default()
        .lines(0, "abcdefghijklmnop")
        .add_highlight(Highlight::new(0, 0, 2))
        .add_highlight(Highlight::new(0, 10, 2));
    let string = context.to_string();
    let strip_rows: Vec<&str> = string.split('\n').filter(|r| r.starts_with(" ╎ ")).collect();
    assert_eq!(strip_rows.len(), 1, "{}", string);
    assert_eq!(strip_rows[0].matches('╶').count(), 2, "{}", string);
}

#[test]
fn colliding_highlights_stack_into_strips() {
    let context = Context::default()
        .lines(0, "abcdefghijklmnop")
        .add_highlight(Highlight::with_comment(0, 0, 2, "a long comment that reaches past ten"))
        .add_highlight(Highlight::new(0, 10, 2));
    let string = context.to_string();
    let strip_rows: Vec<&str> = string.split('\n').filter(|r| r.starts_with(" ╎ ")).collect();
    assert_eq!(strip_rows.len(), 2, "{}", string);
}

#[test]
fn long_comment_wraps_at_the_column_budget() {
    let mut comment = String::new();
    for _ in 0..150 {
        comment.push('c');
    }
    let context = Context::default()
        .lines(0, "ab")
        .add_highlight(Highlight::with_comment(0, 0, 1, &comment));
    let string = context.to_string();
    let strip_rows: Vec<&str> = string.split('\n').filter(|r| r.starts_with(" ╎ ")).collect();
    assert!(strip_rows.len() >= 2, "{}", string);
    let printed: usize = strip_rows.iter().map(|r| r.matches('c').count()).sum();
    assert_eq!(printed, 150, "{}", string);
}

#[test]
fn merged_rendering_appends_decoration_once() {
    let one = CustomError::new(BasicKind::Error, "t", "l", Context::full_line(0, "first"));
    let many = CustomError::new(BasicKind::Error, "t", "l", Context::full_line(0, "first"))
        .add_context(Context::full_line(1, "second"))
        .add_context(Context::full_line(2, "third"));
    for error in [one, many] {
        let string = error.to_string();
        assert_eq!(string.matches('╷').count(), 1, "{}", string);
        assert_eq!(string.matches('╵').count(), 1, "{}", string);
    }
    let none = CustomError::new(BasicKind::Error, "t", "l", Context::none());
    let string = none.to_string();
    assert_eq!(string.matches('╷').count(), 0);
    assert_eq!(string.matches('╵').count(), 0);
}
