//! A cursor over source text.
//!
//! The cursor reads one character at a time and moves by that character's
//! width in bytes, so it only ever rests where a character starts. It keeps
//! a mark at the start of the token that is being read; `consume` hands out
//! the text and the span since the mark and moves the mark up.

use crate::error::Error;
use crate::source::Source;
use crate::span::Span;
use crate::text::byte_len;
use crate::text::char_at;
use crate::text::char_at_pos;
use crate::text::char_start_before;
use crate::text::is_position;
use crate::text::lemma_step;
use crate::text::lemma_step_back;
use crate::text::lemma_str_bytes;
use crate::text::lemma_text_from_end;
use crate::text::next_pos;
use crate::text::prev_pos;
use crate::text::slice_between;
use crate::text::text_between;
use crate::text::text_from;
use crate::text::utf8_width;
use vstd::prelude::*;
use vstd::string::StringSliceAdditionalSpecFns;

verus! {

/// A reading position in a source, with the start of the current token.
#[derive(Debug)]
pub struct Cursor<'s> {
    source: Source<'s>,
    current: usize,
    previous: usize,
}

/// The offset reached from `pos` by stepping over `n` characters, or the end
/// of the text if fewer than `n` remain.
pub open spec fn advance(bytes: Seq<u8>, pos: int, n: nat) -> int
    decreases n,
{
    if n == 0 || pos >= bytes.len() {
        pos
    } else {
        advance(bytes, next_pos(bytes, pos), (n - 1) as nat)
    }
}

impl<'s> Clone for Cursor<'s> {
    fn clone(&self) -> (cursor: Cursor<'s>)
        ensures
            cursor == *self,
    {
        proof {
            use_type_invariant(self);
        }
        Cursor { source: self.source, current: self.current, previous: self.previous }
    }
}

impl<'s> Cursor<'s> {
    /// The source that the cursor reads.
    pub closed spec fn source(&self) -> Source<'s> {
        self.source
    }

    /// The bytes of the source text.
    pub open spec fn bytes(&self) -> Seq<u8> {
        self.source().bytes()
    }

    /// Offset of the next character to read.
    pub closed spec fn pos(&self) -> usize {
        self.current
    }

    /// Offset at which the token that is being read starts.
    pub closed spec fn mark(&self) -> usize {
        self.previous
    }

    /// The mark and the reading position are offsets at which characters
    /// start, and the mark is not behind the position.
    #[verifier::type_invariant]
    pub open spec fn inv(&self) -> bool {
        &&& is_position(self.bytes(), self.mark() as int)
        &&& is_position(self.bytes(), self.pos() as int)
        &&& self.mark() <= self.pos()
    }

    /// True when no character is left to read.
    pub open spec fn at_end(&self) -> bool {
        self.pos() == self.bytes().len()
    }

    /// The next character to read, where one is left.
    pub open spec fn next(&self) -> char {
        char_at(self.bytes(), self.pos() as int)
    }

    /// The text that is left to read.
    pub open spec fn rest(&self) -> Seq<char> {
        text_from(self.bytes(), self.pos() as int)
    }

    /// `self` reads the same source as `other`, from the same mark.
    pub open spec fn same_token(&self, other: &Cursor<'s>) -> bool {
        self.source() == other.source() && self.mark() == other.mark()
    }

    /// A cursor at the start of `source`.
    pub fn new(source: Source<'s>) -> (cursor: Cursor<'s>)
        ensures
            cursor.source() == source,
            cursor.pos() == 0,
            cursor.mark() == 0,
    {
        proof {
            lemma_str_bytes(source.content);
        }
        Cursor { source, current: 0, previous: 0 }
    }

    /// Reads the next character and steps over it.
    pub fn next_char(&mut self) -> (r: Result<char, Error>)
        ensures
            final(self).same_token(old(self)),
            old(self).at_end() ==> r == Err::<char, Error>(Error::eof()) && final(self).pos()
                == old(self).pos(),
            !old(self).at_end() ==> r == Ok::<char, Error>(old(self).next()) && final(self).pos()
                == next_pos(old(self).bytes(), old(self).pos() as int),
    {
        proof {
            use_type_invariant(&*self);
            lemma_str_bytes(self.source.content);
        }
        if self.current == byte_len(self.source.content) {
            return Err(Error::unexpected_eof());
        }
        let c = char_at_pos(self.source.content, self.current);
        let width = utf8_width(c);
        proof {
            lemma_step(self.bytes(), self.current as int);
        }
        self.current = self.current + width;
        Ok(c)
    }

    /// Reads the next character without stepping over it.
    pub fn peek(&mut self) -> (r: Result<char, Error>)
        ensures
            *final(self) == *old(self),
            old(self).at_end() ==> r == Err::<char, Error>(Error::eof()),
            !old(self).at_end() ==> r == Ok::<char, Error>(old(self).next()),
    {
        proof {
            use_type_invariant(&*self);
            lemma_str_bytes(self.source.content);
        }
        if self.current == byte_len(self.source.content) {
            return Err(Error::unexpected_eof());
        }
        Ok(char_at_pos(self.source.content, self.current))
    }

    /// True when no character is left to read.
    pub fn is_eof(&self) -> (b: bool)
        ensures
            b == self.at_end(),
    {
        self.current == byte_len(self.source.content)
    }

    /// Offset of the next character to read.
    pub fn current(&self) -> (offset: usize)
        ensures
            offset == self.pos(),
    {
        self.current
    }

    /// The span from the mark to the reading position.
    pub fn span(&self) -> (span: Span)
        ensures
            span == (Span { start: self.mark(), end: self.pos() }),
            span.wf(),
    {
        proof {
            use_type_invariant(self);
        }
        Span::new(self.previous, self.current)
    }

    /// The span of the character that was read last: the one that ends at
    /// the reading position. Before anything is read there is none.
    pub fn current_span(&mut self) -> (r: Result<Span, Error>)
        ensures
            *final(self) == *old(self),
            old(self).pos() == 0 ==> r == Err::<Span, Error>(Error::eof()),
            old(self).pos() != 0 ==> r == Ok::<Span, Error>(
                Span {
                    start: prev_pos(old(self).bytes(), old(self).pos() as int) as usize,
                    end: old(self).pos(),
                },
            ),
    {
        if self.current == 0 {
            return Err(Error::unexpected_eof());
        }
        proof {
            use_type_invariant(&*self);
            lemma_str_bytes(self.source.content);
            lemma_step_back(self.bytes(), self.current as int);
        }
        Ok(Span::new(char_start_before(self.source.content, self.current), self.current))
    }

    /// The text from the mark to the reading position.
    pub fn slice(&self) -> (text: &'s str)
        ensures
            text.spec_bytes() == self.bytes().subrange(self.mark() as int, self.pos() as int),
            text@ == text_between(self.bytes(), self.mark() as int, self.pos() as int),
    {
        proof {
            use_type_invariant(self);
        }
        slice_between(self.source.content, self.previous, self.current)
    }

    /// The text that `span` covers.
    pub fn slice_at(&self, span: Span) -> (text: &'s str)
        requires
            span.wf(),
            is_position(self.bytes(), span.start as int),
            is_position(self.bytes(), span.end as int),
        ensures
            text.spec_bytes() == self.bytes().subrange(span.start as int, span.end as int),
            text@ == text_between(self.bytes(), span.start as int, span.end as int),
    {
        slice_between(self.source.content, span.start, span.end)
    }

    /// Hands out the text and the span since the mark, and moves the mark
    /// up to the reading position.
    pub fn consume(&mut self) -> (r: (&'s str, Span))
        ensures
            final(self).source() == old(self).source(),
            final(self).pos() == old(self).pos(),
            final(self).mark() == old(self).pos(),
            r.0.spec_bytes() == old(self).bytes().subrange(
                old(self).mark() as int,
                old(self).pos() as int,
            ),
            r.0@ == text_between(old(self).bytes(), old(self).mark() as int, old(self).pos() as int),
            r.1 == (Span { start: old(self).mark(), end: old(self).pos() }),
            r.1.wf(),
            is_position(old(self).bytes(), r.1.start as int),
            is_position(old(self).bytes(), r.1.end as int),
    {
        proof {
            use_type_invariant(&*self);
        }
        let slice = self.slice();
        let span = self.span();
        self.previous = self.current;
        (slice, span)
    }

    /// The character `n` characters behind the next one, if the text
    /// reaches that far. `lookahead(0)` is the next character.
    pub fn lookahead(&self, n: usize) -> (r: Option<char>)
        ensures
            r == (if n < self.rest().len() {
                Some(self.rest()[n as int])
            } else {
                None
            }),
    {
        let content = self.source.content;
        let len = byte_len(content);
        let ghost bytes = self.bytes();
        let ghost rest = self.rest();
        proof {
            use_type_invariant(self);
            lemma_str_bytes(content);
        }
        let mut at: usize = self.current;
        let mut i: usize = 0;
        while i < n && at < len
            invariant
                bytes == content.spec_bytes(),
                vstd::utf8::valid_utf8(bytes),
                len == bytes.len(),
                is_position(bytes, at as int),
                i <= n,
                i <= rest.len(),
                text_from(bytes, at as int) =~= rest.skip(i as int),
            decreases len - at,
        {
            let c = char_at_pos(content, at);
            proof {
                lemma_step(bytes, at as int);
                assert(text_from(bytes, next_pos(bytes, at as int)) =~= text_from(
                    bytes,
                    at as int,
                ).skip(1));
                assert(rest.skip(i as int).skip(1) =~= rest.skip(i + 1));
            }
            at = at + utf8_width(c);
            i = i + 1;
        }
        if at < len {
            proof {
                lemma_step(bytes, at as int);
            }
            Some(char_at_pos(content, at))
        } else {
            proof {
                lemma_text_from_end(bytes);
            }
            None
        }
    }

    /// Steps over `n` characters, or to the end of the text if fewer
    /// remain, which is an error.
    pub fn skip(&mut self, n: usize) -> (r: Result<(), Error>)
        ensures
            final(self).same_token(old(self)),
            final(self).pos() == advance(old(self).bytes(), old(self).pos() as int, n as nat),
            n <= old(self).rest().len() ==> r is Ok,
            n > old(self).rest().len() ==> r == Err::<(), Error>(Error::eof()),
    {
        let ghost bytes = self.bytes();
        let ghost start = self.pos();
        let ghost rest = self.rest();
        proof {
            use_type_invariant(&*self);
            lemma_str_bytes(self.source.content);
        }
        let mut i: usize = 0;
        while i < n
            invariant
                self.same_token(old(self)),
                self.bytes() == bytes,
                bytes == old(self).bytes(),
                start == old(self).pos(),
                rest == old(self).rest(),
                vstd::utf8::valid_utf8(bytes),
                is_position(bytes, self.pos() as int),
                i <= n,
                i <= rest.len(),
                self.rest() =~= rest.skip(i as int),
                advance(bytes, self.pos() as int, (n - i) as nat) == advance(
                    bytes,
                    start as int,
                    n as nat,
                ),
            decreases n - i,
        {
            let ghost before = self.pos();
            proof {
                if self.pos() < bytes.len() {
                    lemma_step(bytes, self.pos() as int);
                    assert(text_from(bytes, next_pos(bytes, before as int)) =~= text_from(
                        bytes,
                        before as int,
                    ).skip(1));
                    assert(rest.skip(i as int).skip(1) =~= rest.skip(i + 1));
                } else {
                    lemma_text_from_end(bytes);
                }
            }
            match self.next_char() {
                Ok(_) => {},
                Err(e) => {
                    proof {
                        assert(before == bytes.len());
                        assert(rest.skip(i as int).len() == 0);
                        assert(rest.len() == i);
                        assert(advance(bytes, before as int, (n - i) as nat) == before);
                    }
                    return Err(e);
                },
            }
            i = i + 1;
        }
        Ok(())
    }
}

} // verus!
