//! Source buffers and the resolution of byte offsets to lines and columns.

use crate::span::Position;
use crate::span::Span;
use crate::text::is_position;
use crate::text::lemma_piece_valid;
use crate::text::lemma_position_after_ascii;
use crate::text::lemma_str_bytes;
use crate::text::lemma_text_len_bounded;
use crate::text::slice_between;
use crate::text::text_between;
use vstd::prelude::*;
use vstd::string::StrSliceExecFns;
use vstd::string::StringSliceAdditionalSpecFns;
use vstd::utf8::*;

verus! {

/// The byte that ends a line.
pub const NEWLINE: u8 = 0x0A;

/// An immutable view of one source file: its text and its name.
#[derive(Debug, Clone, Copy, PartialEq, Eq, Hash)]
pub struct Source<'s> {
    pub content: &'s str,
    pub file_name: &'s str,
}

/// A span together with the name of the file it points into.
#[derive(Debug, Clone, Copy)]
pub struct SourceSpan<'s> {
    file_name: &'s str,
    span: Span,
}

/// Number of line ends among the first `pos` bytes.
pub open spec fn newlines_before(bytes: Seq<u8>, pos: int) -> nat
    decreases pos,
{
    if pos <= 0 {
        0
    } else {
        newlines_before(bytes, pos - 1) + if bytes[pos - 1] == NEWLINE {
            1nat
        } else {
            0nat
        }
    }
}

/// Offset of the first byte of the line that holds the bytes before `pos`:
/// just behind the last line end before `pos`, or 0.
pub open spec fn line_start_of(bytes: Seq<u8>, pos: int) -> int
    decreases pos,
{
    if pos <= 0 {
        0
    } else if bytes[pos - 1] == NEWLINE {
        pos
    } else {
        line_start_of(bytes, pos - 1)
    }
}

/// Offset of the first line end at or behind `pos`, or the length of the
/// text if there is none.
pub open spec fn line_end_of(bytes: Seq<u8>, pos: int) -> int
    decreases bytes.len() - pos,
{
    if pos >= bytes.len() {
        bytes.len() as int
    } else if pos >= 0 && bytes[pos] == NEWLINE {
        pos
    } else {
        line_end_of(bytes, pos + 1)
    }
}

/// True when a line end sits at byte `pos`.
pub open spec fn at_newline(bytes: Seq<u8>, pos: int) -> bool {
    0 <= pos < bytes.len() && bytes[pos] == NEWLINE
}

/// The position that byte offset `pos` resolves to.
///
/// An offset that sits on a line end is reported as the start of the next
/// line: column 1, with the bounds of that next line. Any other offset is
/// reported on the line that holds it, the column counting the characters
/// between the line's start and the offset.
pub open spec fn position_of(bytes: Seq<u8>, pos: int) -> Position {
    if at_newline(bytes, pos) {
        Position {
            line: (newlines_before(bytes, pos) + 2) as usize,
            column: 1,
            line_start: (pos + 1) as usize,
            line_end: line_end_of(bytes, pos + 1) as usize,
        }
    } else {
        Position {
            line: (newlines_before(bytes, pos) + 1) as usize,
            column: (text_between(bytes, line_start_of(bytes, pos), pos).len() + 1) as usize,
            line_start: line_start_of(bytes, pos) as usize,
            line_end: line_end_of(bytes, pos) as usize,
        }
    }
}

/// There are no more line ends before an offset than bytes.
pub proof fn lemma_newlines_bounded(bytes: Seq<u8>, pos: int)
    requires
        0 <= pos,
    ensures
        newlines_before(bytes, pos) <= pos,
    decreases pos,
{
    if pos > 0 {
        lemma_newlines_bounded(bytes, pos - 1);
    }
}

/// What `line_start_of` picks: an offset at or before `pos` that opens a
/// line, with no line end between it and `pos`.
pub proof fn lemma_line_start(bytes: Seq<u8>, pos: int)
    requires
        0 <= pos <= bytes.len(),
    ensures
        0 <= line_start_of(bytes, pos) <= pos,
        line_start_of(bytes, pos) == 0 || bytes[line_start_of(bytes, pos) - 1] == NEWLINE,
        forall|i: int| line_start_of(bytes, pos) <= i < pos ==> bytes[i] != NEWLINE,
    decreases pos,
{
    if pos > 0 && bytes[pos - 1] != NEWLINE {
        lemma_line_start(bytes, pos - 1);
    }
}

/// What `line_end_of` picks: the first offset at or behind `pos` that holds
/// a line end, or the end of the text.
pub proof fn lemma_line_end(bytes: Seq<u8>, pos: int)
    requires
        0 <= pos <= bytes.len(),
    ensures
        pos <= line_end_of(bytes, pos) <= bytes.len(),
        line_end_of(bytes, pos) == bytes.len() || bytes[line_end_of(bytes, pos)] == NEWLINE,
        forall|i: int| pos <= i < line_end_of(bytes, pos) ==> bytes[i] != NEWLINE,
    decreases bytes.len() - pos,
{
    if pos < bytes.len() && bytes[pos] != NEWLINE {
        lemma_line_end(bytes, pos + 1);
    }
}

/// The start of a line is a position of the text.
pub proof fn lemma_line_start_is_position(bytes: Seq<u8>, pos: int)
    requires
        valid_utf8(bytes),
        0 <= pos <= bytes.len(),
    ensures
        is_position(bytes, line_start_of(bytes, pos)),
{
    lemma_line_start(bytes, pos);
    let start = line_start_of(bytes, pos);
    if start > 0 {
        lemma_position_after_ascii(bytes, start - 1);
    }
}

/// Every position of the text, its end included, resolves to a line and a
/// column that count from 1, on a line that lies in the text; an offset
/// that is not on a line end lies on the line it resolves to.
pub proof fn lemma_position_valid(bytes: Seq<u8>, pos: int)
    requires
        valid_utf8(bytes),
        is_position(bytes, pos),
        bytes.len() < usize::MAX,
    ensures
        position_of(bytes, pos).line >= 1,
        position_of(bytes, pos).column >= 1,
        position_of(bytes, pos).line_start <= position_of(bytes, pos).line_end <= bytes.len(),
        !at_newline(bytes, pos) ==> position_of(bytes, pos).line_start <= pos <= position_of(
            bytes,
            pos,
        ).line_end,
{
    lemma_newlines_bounded(bytes, pos);
    lemma_line_start(bytes, pos);
    lemma_line_end(bytes, pos);
    if at_newline(bytes, pos) {
        lemma_line_end(bytes, pos + 1);
    } else {
        lemma_line_start_is_position(bytes, pos);
        lemma_piece_valid(bytes, line_start_of(bytes, pos), pos);
        lemma_text_len_bounded(bytes.subrange(line_start_of(bytes, pos), pos));
    }
}

/// An offset on a line end resolves to the next line, column 1.
pub proof fn lemma_position_at_newline(bytes: Seq<u8>, pos: int)
    requires
        at_newline(bytes, pos),
    ensures
        position_of(bytes, pos).line == (newlines_before(bytes, pos) + 2) as usize,
        position_of(bytes, pos).column == 1,
        position_of(bytes, pos).line_start == (pos + 1) as usize,
{
}

impl<'s> Source<'s> {
    /// The bytes of the content.
    pub open spec fn bytes(self) -> Seq<u8> {
        self.content.spec_bytes()
    }

    /// The source with text `content`, read from the file `file_name`.
    pub fn new(content: &'s str, file_name: &'s str) -> (source: Source<'s>)
        ensures
            source.content == content,
            source.file_name == file_name,
    {
        Source { content, file_name }
    }

    /// Attaches this source's file name to `span`.
    pub fn span(&self, span: Span) -> (located: SourceSpan<'s>)
        ensures
            located.spec_source() == self.file_name,
            located.spec_span() == span,
    {
        SourceSpan::new(self.file_name, span)
    }

    /// Resolves the start of `span` to a line and a column.
    pub fn position(&self, span: Span) -> (p: Position)
        requires
            is_position(self.bytes(), span.start as int),
            self.bytes().len() < usize::MAX,
        ensures
            p == position_of(self.bytes(), span.start as int),
    {
        let bytes = self.content.as_bytes();
        let len = bytes.len();
        let start = span.start;
        let ghost text = self.bytes();
        proof {
            lemma_str_bytes(self.content);
        }

        let mut count: usize = 0;
        let mut i: usize = 0;
        while i < start
            invariant
                i <= start <= len,
                len == text.len(),
                bytes@ == text,
                count == newlines_before(text, i as int),
                count <= i,
            decreases start - i,
        {
            if bytes[i] == NEWLINE {
                count = count + 1;
            }
            i = i + 1;
        }

        if start < len && bytes[start] == NEWLINE {
            let next_line_start = start + 1;
            let line_end = Self::find_line_end(bytes, next_line_start);
            return Position::new(count + 2, 1, next_line_start, line_end);
        }
        let mut line_start: usize = start;
        while line_start > 0 && bytes[line_start - 1] != NEWLINE
            invariant
                line_start <= start <= len,
                len == text.len(),
                bytes@ == text,
                line_start_of(text, line_start as int) == line_start_of(text, start as int),
            decreases line_start,
        {
            line_start = line_start - 1;
        }
        proof {
            lemma_line_start_is_position(text, start as int);
            lemma_piece_valid(text, line_start as int, start as int);
            lemma_text_len_bounded(text.subrange(line_start as int, start as int));
        }
        let column = slice_between(self.content, line_start, start).unicode_len() + 1;
        let line_end = Self::find_line_end(bytes, start);
        Position::new(count + 1, column, line_start, line_end)
    }

    /// Offset of the first line end at or behind `from`.
    fn find_line_end(bytes: &[u8], from: usize) -> (end: usize)
        requires
            from <= bytes@.len(),
        ensures
            end == line_end_of(bytes@, from as int),
            from <= end <= bytes@.len(),
    {
        let mut end: usize = from;
        while end < bytes.len() && bytes[end] != NEWLINE
            invariant
                from <= end <= bytes@.len(),
                line_end_of(bytes@, end as int) == line_end_of(bytes@, from as int),
            decreases bytes@.len() - end,
        {
            end = end + 1;
        }
        end
    }
}

impl<'s> SourceSpan<'s> {
    /// The name of the file, as a specification.
    pub closed spec fn spec_source(&self) -> &'s str {
        self.file_name
    }

    /// The span, as a specification.
    pub closed spec fn spec_span(&self) -> Span {
        self.span
    }

    /// `span` in the file `file_name`.
    pub fn new(file_name: &'s str, span: Span) -> (located: SourceSpan<'s>)
        ensures
            located.spec_source() == file_name,
            located.spec_span() == span,
    {
        SourceSpan { file_name, span }
    }

    /// The name of the file that the span points into.
    pub fn source(&self) -> (name: &'s str)
        ensures
            name == self.spec_source(),
    {
        self.file_name
    }

    /// Offset of the first byte of the span.
    pub fn start(&self) -> (offset: usize)
        ensures
            offset == self.spec_span().start,
    {
        self.span.start
    }

    /// Offset just behind the last byte of the span.
    pub fn end(&self) -> (offset: usize)
        ensures
            offset == self.spec_span().end,
    {
        self.span.end
    }
}

} // verus!
