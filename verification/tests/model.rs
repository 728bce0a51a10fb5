use context_error::{
    BasicKind, BoxedError, Context, CustomError, ErrorKind, ErrorPayload, ErrorPayloadExt,
    FilePosition, Highlight, NoPayload, ToHtml,
};

/// Packages a rendered diagnostic so that it can travel as a standard
/// error object.
struct RenderedError(String);

impl std::fmt::Display for RenderedError {
    fn fmt(&self, f: &mut std::fmt::Formatter<'_>) -> std::fmt::Result {
        f.write_str(&self.0)
    }
}

impl std::fmt::Debug for RenderedError {
    fn fmt(&self, f: &mut std::fmt::Formatter<'_>) -> std::fmt::Result {
        f.write_str(&self.0)
    }
}

impl std::error::Error for RenderedError {}

#[test]
fn test_level() {
    let a = CustomError::new(BasicKind::Error, "test", "test", Context::none());
    assert!(a.get_kind().is_error(()));
    let a = CustomError::new(BasicKind::Warning, "test", "test", Context::none());
    assert!(!a.get_kind().is_error(()));
}

#[test]
fn test_well_behaved() {
    let a = CustomError::new(BasicKind::Error, "test", "test", Context::none());
    let _io_packaged = std::io::Error::other(RenderedError(a.to_string()));
}

#[test]
fn highlight_range_reads_back() {
    let h = Highlight::from_range(3, 5..9);
    assert_eq!(h.line, 3);
    assert_eq!(h.offset, 5);
    assert_eq!(h.length, 4);
    assert!(h.comment.is_none());
    let h = Highlight::from_range(0, 0..0);
    assert_eq!(h.offset, 0);
    assert_eq!(h.length, 0);
    let h = Highlight::from_range_with_comment(1, 2..7, "note");
    assert_eq!(h.length, 5);
    assert_eq!(h.comment.as_deref(), Some("note"));
}

#[test]
fn highlight_to_owned_keeps_fields() {
    let h = Highlight::with_comment(1, 2, 3, "why").to_owned();
    assert_eq!(h.line, 1);
    assert_eq!(h.offset, 2);
    assert_eq!(h.length, 3);
    assert_eq!(h.comment.as_deref(), Some("why"));
}

#[test]
fn context_builders_compose() {
    let context = Context::none().source("data.csv").line_index(11).lines(0, "a,b,c");
    assert!(!context.is_empty());
    let rendered = context.to_string();
    assert!(rendered.contains("data.csv"), "{}", rendered);
    assert!(rendered.contains("12 │ a,b,c"), "{}", rendered);
}

#[test]
fn context_to_owned_keeps_rendering() {
    let context = Context::line(Some(0), "text", 1, 2);
    let before = context.to_string();
    let owned = context.to_owned();
    assert_eq!(owned.to_string(), before);
}

#[test]
fn multiple_highlights_render_in_order() {
    let context = Context::multiple_highlights(
        Some(0),
        "null,80o0,YES",
        &vec![(0usize, 0..4, None), (0usize, 5..9, Some("bad".to_string()))],
    );
    let rendered = context.to_string();
    assert!(rendered.contains("bad"), "{}", rendered);
    assert!(rendered.contains('╶'), "{}", rendered);
}

#[test]
fn error_builders_compose() {
    let error = CustomError::new(BasicKind::Error, "short", "long", Context::none())
        .long_description("longer")
        .version("v1")
        .suggestions(&vec!["a".to_string()]);
    assert_eq!(error.get_short_description(), "short");
    assert_eq!(error.get_long_description(), "longer");
    assert_eq!(error.get_version(), "v1");
    assert_eq!(error.get_suggestions().len(), 1);
    assert_eq!(error.get_underlying_errors().len(), 0);
    let owned = error.to_owned();
    assert_eq!(owned.get_short_description(), "short");
}

#[test]
fn replace_and_overwrite_contexts() {
    let error = CustomError::new(
        BasicKind::Error,
        "short",
        "long",
        Context::full_line(0, "first"),
    )
    .replace_context(Context::full_line(0, "second"))
    .overwrite_line_index(41);
    let rendered = error.to_string();
    assert!(rendered.contains("42 │ second"), "{}", rendered);
    assert!(!rendered.contains("first"), "{}", rendered);
}

#[test]
fn boxed_error_matches_custom_error() {
    let boxed = BoxedError::new(
        BasicKind::Warning,
        "test",
        "test",
        Context::full_line(0, "testing line"),
    );
    let plain = CustomError::new(
        BasicKind::Warning,
        "test",
        "test",
        Context::full_line(0, "testing line"),
    );
    let expected = plain.to_string();
    assert_eq!(boxed.to_string(), expected);
    assert!(!boxed.get_kind().is_error(()));
    assert!(boxed.could_merge(&BoxedError::from_error(plain.to_owned())));
    let unboxed = boxed.to_owned().into_inner();
    assert_eq!(unboxed.to_string(), expected);
}

#[test]
fn error_eq_compares_contexts_too() {
    let a = CustomError::new(BasicKind::Error, "s", "l", Context::full_line(0, "x"));
    let b = CustomError::new(BasicKind::Error, "s", "l", Context::full_line(0, "x"));
    let c = CustomError::new(BasicKind::Error, "s", "l", Context::full_line(1, "x"));
    assert!(a.error_eq(&b));
    assert!(!a.error_eq(&c));
    assert!(a.could_merge(&c));
}

#[test]
fn descriptors_name_the_kinds() {
    assert_eq!(BasicKind::Error.descriptor(), "error");
    assert_eq!(BasicKind::Warning.descriptor(), "warning");
    assert!(!BasicKind::Error.ignored(()));
    assert!(!BasicKind::Warning.ignored(()));
    assert_eq!(BasicKind::default(), BasicKind::Error);
    assert_eq!(ErrorKind::descriptor(&BasicKind::Error), "error");
    assert!(ErrorKind::is_error(&BasicKind::Error, ()));
    assert!(!ErrorKind::ignored(&BasicKind::Warning, ()));
}

#[test]
fn position_of_empty_text() {
    let pos = FilePosition {
        text: String::new(),
        line_index: 2,
        column: 0,
    };
    let context = Context::position(&pos);
    assert_eq!(context.to_string(), "[:3:1]");
}

#[test]
fn range_on_one_line() {
    let start = FilePosition {
        text: "hello world".to_string(),
        line_index: 4,
        column: 6,
    };
    let end = FilePosition {
        text: "world".to_string(),
        line_index: 4,
        column: 11,
    };
    let context = Context::range(&start, &end);
    let rendered = context.to_string();
    assert!(rendered.contains("5 │ …hello"), "{}", rendered);
    assert!(rendered.contains('╶'), "{}", rendered);
}

#[test]
fn html_of_simple_error() {
    let error = CustomError::new(
        BasicKind::Error,
        "Invalid path",
        "This file does not exist",
        Context::show("fileee.txt"),
    )
    .suggestions(&vec!["file.txt".to_string()]);
    let html = error.to_html();
    assert_eq!(
        html,
        "<div class='error'><p class='title'>Invalid path</p><div class='contexts'><div class='context'><span class='line-number'></span><span class='line'>fileee.txt</span></div></div><p class='description'>This file does not exist</p><p>Did you mean?</p><ul><li class='suggestion'>file.txt</li></ul></div>"
    );
}

#[test]
fn html_highlight_spans() {
    let context = Context::default()
        .lines(0, "null,80o0")
        .add_highlight(Highlight::with_comment(0, 5, 4, "bad"));
    let html = ToHtml::to_html(&context);
    assert!(html.contains("<span class='highlight' title='bad'>8"), "{}", html);
    assert!(html.contains("</span>"), "{}", html);
}

#[test]
fn html_of_boxed_matches_unboxed() {
    let plain = CustomError::new(BasicKind::Warning, "t", "l", Context::show("x"));
    let expected = plain.to_html();
    let boxed = BoxedError::from_error(plain);
    assert_eq!(boxed.to_html(), expected);
}

struct ColumnPayload;

impl ErrorPayload for ColumnPayload {
    type Settings = ();
    fn is_error(&self, _settings: ()) -> bool {
        true
    }
    fn ignored(&self, _settings: ()) -> bool {
        false
    }
}

impl ErrorPayloadExt for ColumnPayload {
    fn short_description(&self) -> &'static str {
        "Invalid column"
    }
    fn long_description(&self) -> &'static str {
        "This column does not parse"
    }
}

#[test]
fn payload_builds_an_error() {
    let error = ColumnPayload.create_error((), Context::none());
    assert_eq!(error.to_string(), "error: Invalid column\nThis column does not parse\n");
    assert!(NoPayload::Error.is_error(()));
    assert!(!NoPayload::Warning.is_error(()));
    assert!(!NoPayload::Error.ignored(()));
}

#[test]
fn line_range_covers_the_half_open_range() {
    let context = Context::line_range(None, "null,80o0,YES,,67.77", 5..9);
    assert_eq!(context.to_string(), " ╷\n │ null,80o0,YES,,67.77\n ╎      ╶──╴\n ╵");
    let with_comment = Context::line_range_with_comment(None, "null,80o0", 5..9, Some("bad"));
    assert!(with_comment.to_string().contains("bad"));
}

#[test]
fn inclusive_range_covers_both_bounds() {
    let h = Highlight::from_range_inclusive(0, 5, 8);
    assert_eq!(h.offset, 5);
    assert_eq!(h.length, 4);
    let h = Highlight::from_range_inclusive(0, 3, 3);
    assert_eq!(h.length, 1);
    let h = Highlight::from_range_inclusive(0, 4, 3);
    assert_eq!(h.length, 0);
    let context = Context::line_range_inclusive(None, "null,80o0,YES,,67.77", 5, 8);
    assert_eq!(context.to_string(), " ╷\n │ null,80o0,YES,,67.77\n ╎      ╶──╴\n ╵");
}
