use unnamed::Cursor;
use unnamed::Source;
use unnamed::Span;

#[test]
fn test_cursor_next_char() {
    let source = Source::new("abc", "test_file");
    let mut cursor = Cursor::new(source);

    assert_eq!(cursor.next_char().unwrap(), 'a');
    assert_eq!(cursor.next_char().unwrap(), 'b');
    assert_eq!(cursor.next_char().unwrap(), 'c');
    assert!(cursor.next_char().is_err());
}

#[test]
fn test_cursor_span() {
    let source = Source::new("abc", "test_file");
    let mut cursor = Cursor::new(source);

    cursor.next_char().unwrap();
    assert_eq!(cursor.span(), Span::new(0, 1));

    cursor.next_char().unwrap();
    assert_eq!(cursor.span(), Span::new(0, 2));

    cursor.consume();
    cursor.next_char().unwrap();
    assert_eq!(cursor.span(), Span::new(2, 3));
}

#[test]
fn test_cursor_slice() {
    let source = Source::new("hello world", "test_file");
    let mut cursor = Cursor::new(source);

    for _ in 0..5 {
        cursor.next_char().unwrap();
    }

    assert_eq!(cursor.slice(), "hello");
    cursor.consume();

    for _ in 0..6 {
        cursor.next_char().unwrap();
    }

    assert_eq!(cursor.slice(), " world");
}

#[test]
fn test_cursor_consume() {
    let source = Source::new("hello world", "test_file");
    let mut cursor = Cursor::new(source);

    for _ in 0..5 {
        cursor.next_char().unwrap();
    }

    let (slice, span) = cursor.consume();
    assert_eq!(slice, "hello");
    assert_eq!(span, Span::new(0, 5));

    cursor.next_char().unwrap();

    let (slice, span) = cursor.consume();
    assert_eq!(slice, " ");
    assert_eq!(span, Span::new(5, 6));
}

#[test]
fn test_utf8_characters() {
    let source = Source::new("héllö wörld", "test_file");
    let mut cursor = Cursor::new(source);

    assert_eq!(cursor.next_char().unwrap(), 'h');
    assert_eq!(cursor.next_char().unwrap(), 'é');
    assert_eq!(cursor.current(), 3);

    cursor.next_char().unwrap();
    cursor.next_char().unwrap();
    cursor.next_char().unwrap();

    let (slice, ..) = cursor.consume();
    assert_eq!(slice, "héllö");
}

#[test]
fn test_empty_source() {
    let source = Source::new("", "test_file");
    let mut cursor = Cursor::new(source);

    assert!(cursor.next_char().is_err());
    assert_eq!(cursor.slice(), "");
    assert_eq!(cursor.span(), Span::new(0, 0));

    let (slice, span) = cursor.consume();
    assert_eq!(slice, "");
    assert_eq!(span, Span::new(0, 0));
}

#[test]
fn test_consecutive_consumes() {
    let source = Source::new("one two three", "test_file");
    let mut cursor = Cursor::new(source);

    for _ in 0..3 {
        cursor.next_char().unwrap();
    }

    let (slice, ..) = cursor.consume();
    assert_eq!(slice, "one");

    cursor.next_char().unwrap();
    let (slice, ..) = cursor.consume();
    assert_eq!(slice, " ");

    for _ in 0..3 {
        cursor.next_char().unwrap();
    }

    let (slice, ..) = cursor.consume();
    assert_eq!(slice, "two");
}

#[test]
fn test_consume_spans_are_correct() {
    let source = Source::new("abc def", "test_file");
    let mut cursor = Cursor::new(source);

    cursor.next_char().unwrap();
    cursor.next_char().unwrap();

    let (.., span) = cursor.consume();
    assert_eq!(span, Span::new(0, 2));

    cursor.next_char().unwrap();
    cursor.next_char().unwrap();

    let (.., span) = cursor.consume();
    assert_eq!(span, Span::new(2, 4));
}

#[test]
fn peek_does_not_consume() {
    let mut cursor = Cursor::new(Source::new("xy", "test_file"));
    assert_eq!(cursor.peek().unwrap(), 'x');
    assert_eq!(cursor.peek().unwrap(), 'x');
    assert_eq!(cursor.current(), 0);
    assert_eq!(cursor.next_char().unwrap(), 'x');
    assert_eq!(cursor.peek().unwrap(), 'y');
    cursor.next_char().unwrap();
    assert!(cursor.is_eof());
    let error = cursor.peek().unwrap_err();
    assert_eq!(error.kind, unnamed::ErrorKind::UnexpectedEof);
    assert_eq!(error.span, Span::new(0, 0));
    assert_eq!(cursor.next_char().unwrap_err(), error);
    assert_eq!(cursor.current(), 2);
}

#[test]
fn lookahead_counts_characters() {
    let mut cursor = Cursor::new(Source::new("a€b😀", "test_file"));
    assert_eq!(cursor.lookahead(0), Some('a'));
    assert_eq!(cursor.lookahead(1), Some('€'));
    assert_eq!(cursor.lookahead(2), Some('b'));
    assert_eq!(cursor.lookahead(3), Some('😀'));
    assert_eq!(cursor.lookahead(4), None);
    assert_eq!(cursor.lookahead(40), None);
    cursor.next_char().unwrap();
    cursor.next_char().unwrap();
    assert_eq!(cursor.current(), 4);
    assert_eq!(cursor.lookahead(0), Some('b'));
    assert_eq!(cursor.lookahead(1), Some('😀'));
    assert_eq!(cursor.lookahead(2), None);
    assert_eq!(cursor.current(), 4);
}

#[test]
fn skip_steps_over_characters() {
    let mut cursor = Cursor::new(Source::new("a€b😀", "test_file"));
    assert!(cursor.skip(0).is_ok());
    assert_eq!(cursor.current(), 0);
    assert!(cursor.skip(2).is_ok());
    assert_eq!(cursor.current(), 4);
    assert_eq!(cursor.slice(), "a€");
    assert!(cursor.skip(3).is_err());
    assert_eq!(cursor.current(), 9);
    assert!(cursor.is_eof());
    assert_eq!(cursor.span(), Span::new(0, 9));
}

#[test]
fn slice_at_a_span() {
    let mut cursor = Cursor::new(Source::new("héllö wörld", "test_file"));
    assert_eq!(cursor.slice_at(Span::new(0, 3)), "hé");
    assert_eq!(cursor.slice_at(Span::new(8, 14)), "wörld");
    assert_eq!(cursor.slice_at(Span::new(5, 5)), "");
    cursor.next_char().unwrap();
    assert_eq!(cursor.slice_at(Span::new(1, 3)), "é");
}

#[test]
fn current_span_is_the_character_read_last() {
    let mut cursor = Cursor::new(Source::new("ab€c😀", "test_file"));
    assert_eq!(cursor.current_span().unwrap_err(), unnamed::Error::unexpected_eof());
    cursor.next_char().unwrap();
    assert_eq!(cursor.current_span().unwrap(), Span::new(0, 1));
    cursor.next_char().unwrap();
    assert_eq!(cursor.current_span().unwrap(), Span::new(1, 2));
    cursor.next_char().unwrap();
    assert_eq!(cursor.current_span().unwrap(), Span::new(2, 5));
    cursor.consume();
    cursor.next_char().unwrap();
    assert_eq!(cursor.current_span().unwrap(), Span::new(5, 6));
    cursor.next_char().unwrap();
    assert!(cursor.is_eof());
    assert_eq!(cursor.current_span().unwrap(), Span::new(6, 10));
    assert_eq!(cursor.current(), 10);
    assert_eq!(cursor.span(), Span::new(5, 10));
}

#[test]
fn a_clone_reads_on_by_itself() {
    let mut cursor = Cursor::new(Source::new("abc", "test_file"));
    cursor.next_char().unwrap();
    let mut other = cursor.clone();
    assert_eq!(other.next_char().unwrap(), 'b');
    assert_eq!(cursor.current(), 1);
    assert_eq!(other.current(), 2);
    assert_eq!(cursor.next_char().unwrap(), 'b');
}
