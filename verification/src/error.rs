//! Lexical errors.

use crate::source::Source;
use crate::span::Span;
use vstd::prelude::*;

verus! {

/// What went wrong while scanning a token.
#[derive(Debug, Clone, Copy, PartialEq, Eq, Structural)]
pub enum ErrorKind {
    /// A character that starts no token.
    InvalidToken,
    /// The cursor was asked for a character behind the end of the input.
    UnexpectedEof,
    /// The input ended inside a string literal.
    UnclosedStringLiteral,
    /// A backslash in a string literal was followed by a character that
    /// names no escape.
    InvalidEscapeSequence,
}

/// A lexical error: its kind and the span it is reported at.
#[derive(Debug, Clone, Copy, PartialEq, Eq, Structural)]
pub struct Error {
    pub span: Span,
    pub kind: ErrorKind,
}

/// The plain parts of a diagnostic: where it points, its primary message,
/// its secondary note, if it has one, and the text of the label on the
/// span.
#[derive(Debug, Clone, Copy)]
pub struct Diagnostic<'s> {
    pub file_name: &'s str,
    pub span: Span,
    pub message: &'static str,
    pub note: Option<&'static str>,
    pub label: &'static str,
}

/// The primary message of each kind of error.
pub open spec fn message_of(kind: ErrorKind) -> &'static str {
    match kind {
        ErrorKind::InvalidToken => "invalid token",
        ErrorKind::UnexpectedEof => "unexpected eof",
        ErrorKind::UnclosedStringLiteral => "unclosed string literal",
        ErrorKind::InvalidEscapeSequence => "invalid escape sequence",
    }
}

/// The secondary note of each kind of error: only an unclosed string
/// literal has one, pointing at where the literal was opened.
pub open spec fn note_of(kind: ErrorKind) -> Option<&'static str> {
    match kind {
        ErrorKind::UnclosedStringLiteral => Some("this string literal is not closed"),
        _ => None,
    }
}

/// The text on the labelled span: the note if there is one, else the
/// primary message.
pub open spec fn label_of(kind: ErrorKind) -> &'static str {
    match note_of(kind) {
        Some(note) => note,
        None => message_of(kind),
    }
}

impl Error {
    /// The error that the cursor reports at the end of the input. It has no
    /// text to point at and carries the zero span.
    pub open spec fn eof() -> Error {
        Error { span: Span::zero(), kind: ErrorKind::UnexpectedEof }
    }

    /// An error of `kind`, reported at `span`.
    pub fn new(span: Span, kind: ErrorKind) -> (e: Error)
        ensures
            e == (Error { span, kind }),
    {
        Error { span, kind }
    }

    /// The character at `span` starts no token.
    pub fn invalid_token(span: Span) -> (e: Error)
        ensures
            e == (Error { span, kind: ErrorKind::InvalidToken }),
    {
        Error::new(span, ErrorKind::InvalidToken)
    }

    /// The string literal that opens at `span` is not closed.
    pub fn unclosed_string_literal(span: Span) -> (e: Error)
        ensures
            e == (Error { span, kind: ErrorKind::UnclosedStringLiteral }),
    {
        Error::new(span, ErrorKind::UnclosedStringLiteral)
    }

    /// The character at `span`, behind a backslash, names no escape.
    pub fn invalid_escape_sequence(span: Span) -> (e: Error)
        ensures
            e == (Error { span, kind: ErrorKind::InvalidEscapeSequence }),
    {
        Error::new(span, ErrorKind::InvalidEscapeSequence)
    }

    /// A character was asked for behind the end of the input.
    pub fn unexpected_eof() -> (e: Error)
        ensures
            e == Error::eof(),
    {
        Error::new(Span::dummy(), ErrorKind::UnexpectedEof)
    }

    /// The primary message of the error.
    pub fn message(&self) -> (text: &'static str)
        ensures
            text == message_of(self.kind),
    {
        match self.kind {
            ErrorKind::InvalidToken => "invalid token",
            ErrorKind::UnexpectedEof => "unexpected eof",
            ErrorKind::UnclosedStringLiteral => "unclosed string literal",
            ErrorKind::InvalidEscapeSequence => "invalid escape sequence",
        }
    }

    /// The secondary note of the error, if its kind has one.
    pub fn note(&self) -> (text: Option<&'static str>)
        ensures
            text == note_of(self.kind),
    {
        match self.kind {
            ErrorKind::UnclosedStringLiteral => Some("this string literal is not closed"),
            _ => None,
        }
    }

    /// The parts of the diagnostic that reports this error in `source`.
    pub fn diagnostic<'s>(&self, source: Source<'s>) -> (d: Diagnostic<'s>)
        ensures
            d.file_name == source.file_name,
            d.span == self.span,
            d.message == message_of(self.kind),
            d.note == note_of(self.kind),
            d.label == label_of(self.kind),
    {
        let message = self.message();
        let note = self.note();
        let label = match note {
            Some(note) => note,
            None => message,
        };
        Diagnostic { file_name: source.file_name, span: self.span, message, note, label }
    }
}

} // verus!
