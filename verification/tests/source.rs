use unnamed::Position;
use unnamed::Source;
use unnamed::Span;

#[test]
fn test_source_new() {
    let source = Source::new("content", "file.rs");
    assert_eq!(source.content, "content");
    assert_eq!(source.file_name, "file.rs");
}

#[test]
fn test_source_unknown() {
    let source = Source::new("content", "unknown");
    assert_eq!(source.content, "content");
    assert_eq!(source.file_name, "unknown");
}

#[test]
fn test_position_from_span_single_line() {
    let content = "hello world";
    let source = Source::new(content, "unknown");

    let span = Span::new(0, 1);
    let position = source.position(span);
    assert_eq!(position.line, 1);
    assert_eq!(position.column, 1);
    assert_eq!(position.line_start, 0);
    assert_eq!(position.line_end, 11);

    let span = Span::new(6, 7);
    let position = source.position(span);
    assert_eq!(position.line, 1);
    assert_eq!(position.column, 7);
    assert_eq!(position.line_start, 0);
    assert_eq!(position.line_end, 11);
}

#[test]
fn test_position_from_span_multiple_lines() {
    let content = "first line\nsecond line\nthird line";
    let source = Source::new(content, "unknown");

    let span = Span::new(5, 6);
    let position = source.position(span);
    assert_eq!(position.line, 1);
    assert_eq!(position.column, 6);
    assert_eq!(position.line_start, 0);
    assert_eq!(position.line_end, 10);

    let span = Span::new(11, 12);
    let position = source.position(span);
    assert_eq!(position.line, 2);
    assert_eq!(position.column, 1);
    assert_eq!(position.line_start, 11);
    assert_eq!(position.line_end, 22);

    let span = Span::new(15, 16);
    let position = source.position(span);
    assert_eq!(position.line, 2);
    assert_eq!(position.column, 5);
    assert_eq!(position.line_start, 11);
    assert_eq!(position.line_end, 22);

    let span = Span::new(22, 23);
    let position = source.position(span);
    assert_eq!(position.line, 3);
    assert_eq!(position.column, 1);
    assert_eq!(position.line_start, 23);
    assert_eq!(position.line_end, 33);
}

#[test]
fn test_position_from_span_with_unicode() {
    let content = "Hello!\n🚀 Unicode test\nLine with café\nÑandú é açaí";
    let source = Source::new(content, "unknown");

    let span1 = Span::new(0, 1);
    let pos1 = source.position(span1);
    assert_eq!(pos1, Position::new(1, 1, 0, 6));

    let span2 = Span::new(7, 11);
    let pos2 = source.position(span2);
    assert_eq!(pos2, Position::new(2, 1, 7, 24));

    let span3 = Span::new(30, 32);
    let pos3 = source.position(span3);
    assert_eq!(pos3, Position::new(3, 6, 25, 40));

    let span4 = Span::new(41, 43);
    let pos4 = source.position(span4);
    assert_eq!(pos4, Position::new(4, 1, 41, 58));
}

#[test]
fn test_position_from_span_empty_content() {
    let content = "";
    let source = Source::new(content, "unknown");

    let span = Span::new(0, 0);
    let position = source.position(span);
    assert_eq!(position.line, 1);
    assert_eq!(position.column, 1);
    assert_eq!(position.line_start, 0);
    assert_eq!(position.line_end, 0);
}

#[test]
fn position_on_a_newline_is_the_next_line() {
    let source = Source::new("ab\ncd\n\nef", "unknown");
    assert_eq!(source.position(Span::new(2, 3)), Position::new(2, 1, 3, 5));
    assert_eq!(source.position(Span::new(5, 6)), Position::new(3, 1, 6, 6));
    assert_eq!(source.position(Span::new(6, 7)), Position::new(4, 1, 7, 9));
    assert_eq!(source.position(Span::new(3, 4)), Position::new(2, 1, 3, 5));
    assert_eq!(source.position(Span::new(4, 5)), Position::new(2, 2, 3, 5));
    let source = Source::new("ab\n", "unknown");
    assert_eq!(source.position(Span::new(2, 3)), Position::new(2, 1, 3, 3));
    let source = Source::new("\n", "unknown");
    assert_eq!(source.position(Span::new(0, 1)), Position::new(2, 1, 1, 1));
}

#[test]
fn position_at_the_end_of_the_text() {
    let source = Source::new("ab\ncd", "unknown");
    assert_eq!(source.position(Span::new(5, 5)), Position::new(2, 3, 3, 5));
    let source = Source::new("ab\n", "unknown");
    assert_eq!(source.position(Span::new(3, 3)), Position::new(2, 1, 3, 3));
    let source = Source::new("é\nçà", "unknown");
    assert_eq!(source.position(Span::new(7, 7)), Position::new(2, 3, 3, 7));
    assert_eq!(source.position(Span::new(5, 7)), Position::new(2, 2, 3, 7));
}

#[test]
fn source_span_carries_the_file_name() {
    let source = Source::new("content", "file.rs");
    let located = source.span(Span::new(2, 5));
    assert_eq!(located.source(), "file.rs");
    assert_eq!(located.start(), 2);
    assert_eq!(located.end(), 5);
    let located = unnamed::SourceSpan::new("other.rs", Span::new(1, 1));
    assert_eq!(located.source(), "other.rs");
    assert_eq!((located.start(), located.end()), (1, 1));
}
