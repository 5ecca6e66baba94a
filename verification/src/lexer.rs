//! The tokenizer.
//!
//! A `Lexer` pulls tokens out of a source one at a time. Each scanner reads
//! exactly what its counterpart in `scan` describes.

use crate::chars::ascii_digit;
use crate::chars::ident_start;
use crate::chars::is_ascii_digit;
use crate::chars::is_ident_start;
use crate::chars::is_xid_continue;
use crate::chars::xid_continue;
use crate::chars::CharClass;
use crate::cursor::Cursor;
use crate::error::Error;
use crate::scan::literal_value;
use crate::scan::number_value;
use crate::scan::lemma_prepend_nothing;
use crate::scan::lemma_prepend_twice;
use crate::scan::lemma_run_end;
use crate::scan::lemma_run_text;
use crate::scan::lemma_scan_progress;
use crate::scan::lemma_token_extent;
use crate::scan::operator_of;
use crate::scan::prepend;
use crate::scan::radix_marker;
use crate::scan::run_end;
use crate::scan::scan_ident;
use crate::scan::scan_number;
use crate::scan::scan_operator;
use crate::scan::scan_string;
use crate::scan::scan_token;
use crate::scan::stream;
use crate::scan::string_body;
use crate::scan::unescape;
use crate::scan::word_kind;
use crate::scan::Payload;
use crate::scan::Scan;
use crate::source::Source;
use crate::span::Span;
use crate::text::byte_len;
use crate::text::char_at_pos;
use crate::text::is_position;
use crate::text::lemma_back_and_forth;
use crate::text::lemma_step;
use crate::text::lemma_str_bytes;
use crate::text::lemma_text_from_end;
use crate::text::next_pos;
use crate::text::push_char;
use crate::text::suffix;
use crate::text::text_eq;
use crate::text::text_from;
use crate::text::utf8_width;
use crate::token::to_digit;
use crate::token::Base;
use crate::token::Token;
use crate::token::TokenData;
use crate::token::TokenKind;
use vstd::arithmetic::div_mod::lemma_add_mod_noop;
use vstd::arithmetic::div_mod::lemma_mul_mod_noop_left;
use vstd::arithmetic::div_mod::lemma_small_mod;
use vstd::prelude::*;
use vstd::string::StringSliceAdditionalSpecFns;
use vstd::utf8::valid_utf8;

verus! {

/// A tokenizer over one source.
#[derive(Debug, Clone)]
pub struct Lexer<'s> {
    cursor: Cursor<'s>,
}

/// The payload of a token, as a mathematical value.
pub open spec fn payload_of(data: Option<TokenData>) -> Option<Payload> {
    match data {
        None => None,
        Some(TokenData::Number(value)) => Some(Payload::Number(value)),
        Some(TokenData::String(content)) => Some(Payload::Text(content@)),
    }
}

/// `token` is the token of `kind` that covers the bytes `start..end` of the
/// text and carries `data`: its span is that range and its slice is the
/// text in it.
pub open spec fn token_is(
    token: Token,
    bytes: Seq<u8>,
    start: int,
    kind: TokenKind,
    end: int,
    data: Option<Payload>,
) -> bool {
    &&& token.kind == kind
    &&& token.span.start == start
    &&& token.span.end == end
    &&& token.slice.spec_bytes() == bytes.subrange(start, end)
    &&& payload_of(token.data) == data
}

impl<'s> Lexer<'s> {
    /// The cursor of the tokenizer.
    pub closed spec fn cursor(&self) -> Cursor<'s> {
        self.cursor
    }

    /// The source that is read.
    pub open spec fn source(&self) -> Source<'s> {
        self.cursor().source()
    }

    /// The bytes of the source text.
    pub open spec fn bytes(&self) -> Seq<u8> {
        self.cursor().bytes()
    }

    /// Offset of the next character to read.
    pub open spec fn pos(&self) -> int {
        self.cursor().pos() as int
    }

    /// Offset at which the token that is being read starts.
    pub open spec fn mark(&self) -> int {
        self.cursor().mark() as int
    }

    /// True when no character is left to read.
    pub open spec fn at_end(&self) -> bool {
        self.cursor().at_end()
    }

    /// The next character to read, where one is left.
    pub open spec fn next(&self) -> char {
        self.cursor().next()
    }

    /// True when nothing has been read since the last token was handed out.
    pub open spec fn at_token_start(&self) -> bool {
        self.mark() == self.pos()
    }

    /// `self` is the tokenizer that `before` becomes, and `r` the result it
    /// gives, when it reads what `scan` describes.
    pub open spec fn yields(
        &self,
        before: &Lexer<'s>,
        r: Result<Token<'s>, Error>,
        scan: Scan,
    ) -> bool {
        &&& self.source() == before.source()
        &&& match scan {
            Scan::Token { kind, end, data } => {
                &&& r matches Ok(token)
                &&& token_is(token, before.bytes(), before.mark(), kind, end, data)
                &&& self.pos() == end
                &&& self.mark() == end
            },
            Scan::Fail { error, stop, mark } => {
                &&& r == Err::<Token<'s>, Error>(error)
                &&& self.pos() == stop
                &&& self.mark() == mark
            },
        }
    }

    /// What peeking at the next character gives: the end of the input is
    /// an error, any other character is judged by `test`.
    pub open spec fn peeked(&self, r: Result<bool, Error>, test: spec_fn(char) -> bool) -> bool {
        if self.at_end() {
            r == Err::<bool, Error>(Error::eof())
        } else {
            r == Ok::<bool, Error>(test(self.next()))
        }
    }

    /// A tokenizer at the start of `source`.
    pub fn new(source: Source<'s>) -> (lexer: Lexer<'s>)
        ensures
            lexer.source() == source,
            lexer.pos() == 0,
            lexer.mark() == 0,
    {
        Lexer { cursor: Cursor::new(source) }
    }

    /// True when the next character is a decimal digit.
    pub fn is_number_start(&mut self) -> (r: Result<bool, Error>)
        ensures
            *final(self) == *old(self),
            old(self).peeked(r, |c: char| ascii_digit(c)),
    {
        match self.cursor.peek() {
            Ok(c) => Ok(is_ascii_digit(c)),
            Err(e) => Err(e),
        }
    }

    /// True when the next character is a digit of `base` or an underscore.
    pub fn is_number(&mut self, base: Base) -> (r: Result<bool, Error>)
        ensures
            *final(self) == *old(self),
            old(self).peeked(r, |c: char| CharClass::Digit(base).holds(c)),
    {
        match self.cursor.peek() {
            Ok(c) => Ok(CharClass::Digit(base).contains(c)),
            Err(e) => Err(e),
        }
    }

    /// True when the next character is a double quote.
    pub fn is_string_start(&mut self) -> (r: Result<bool, Error>)
        ensures
            *final(self) == *old(self),
            old(self).peeked(r, |c: char| c == '"'),
    {
        match self.cursor.peek() {
            Ok(c) => Ok(c == '"'),
            Err(e) => Err(e),
        }
    }

    /// True when the next character may start an identifier.
    pub fn is_ident_start(&mut self) -> (r: Result<bool, Error>)
        ensures
            *final(self) == *old(self),
            old(self).peeked(r, |c: char| ident_start(c)),
    {
        match self.cursor.peek() {
            Ok(c) => Ok(is_ident_start(c)),
            Err(e) => Err(e),
        }
    }

    /// True when the next character may continue an identifier.
    pub fn is_ident_continue(&mut self) -> (r: Result<bool, Error>)
        ensures
            *final(self) == *old(self),
            old(self).peeked(r, |c: char| xid_continue(c)),
    {
        match self.cursor.peek() {
            Ok(c) => Ok(is_xid_continue(c)),
            Err(e) => Err(e),
        }
    }

    /// True when a character is left and belongs to `class`.
    fn run_goes_on(&mut self, class: CharClass) -> (more: bool)
        ensures
            *final(self) == *old(self),
            more == (!old(self).at_end() && class.holds(old(self).next())),
    {
        match self.cursor.peek() {
            Ok(c) => class.contains(c),
            Err(_) => false,
        }
    }

    /// Steps over the longest run of characters of `class`.
    fn take_run(&mut self, class: CharClass)
        ensures
            final(self).cursor().same_token(&old(self).cursor()),
            final(self).pos() == run_end(old(self).bytes(), old(self).pos(), class),
    {
        let mut more = self.run_goes_on(class);
        while more
            invariant
                self.cursor().same_token(&old(self).cursor()),
                run_end(self.bytes(), self.pos(), class) == run_end(
                    old(self).bytes(),
                    old(self).pos(),
                    class,
                ),
                more == (!self.at_end() && class.holds(self.next())),
            decreases self.bytes().len() - self.pos(),
        {
            proof {
                use_type_invariant(&self.cursor);
                lemma_str_bytes(self.source().content);
                lemma_step(self.bytes(), self.pos());
            }
            let _ = self.cursor.next_char();
            proof {
                use_type_invariant(&self.cursor);
            }
            more = self.run_goes_on(class);
        }
        proof {
            use_type_invariant(&self.cursor);
        }
    }

    /// Steps over the white space in front of the next token.
    pub fn skip_whitespaces(&mut self) -> (r: Result<(), Error>)
        ensures
            r is Ok,
            final(self).source() == old(self).source(),
            final(self).pos() == run_end(old(self).bytes(), old(self).pos(), CharClass::Whitespace),
            final(self).at_token_start(),
    {
        self.take_run(CharClass::Whitespace);
        let _ = self.cursor.consume();
        Ok(())
    }

    /// The value of a run of digits of `base`, with underscores between
    /// them ignored. A value that does not fit in 64 bits wraps around.
    pub fn parse_number(slice: &str, base: Base) -> (value: u64)
        requires
            forall|i: int| 0 <= i < slice@.len() ==> CharClass::Digit(base).holds(#[trigger] slice@[i]),
        ensures
            value == literal_value(slice@, base),
    {
        let len = byte_len(slice);
        let radix = base.radix();
        let ghost bytes = slice.spec_bytes();
        let ghost text = slice@;
        proof {
            lemma_str_bytes(slice);
            assert(suffix(bytes, 0) =~= bytes);
            assert(text.take(0) =~= Seq::<char>::empty());
        }
        let mut at: usize = 0;
        let mut value: u64 = 0;
        let ghost mut read: int = 0;
        while at < len
            invariant
                bytes == slice.spec_bytes(),
                text == slice@,
                valid_utf8(bytes),
                len == bytes.len(),
                radix == base.spec_radix(),
                is_position(bytes, at as int),
                0 <= read <= text.len(),
                text_from(bytes, at as int) =~= text.skip(read),
                value == literal_value(text.take(read), base),
            decreases len - at,
        {
            let c = char_at_pos(slice, at);
            proof {
                lemma_step(bytes, at as int);
                assert(text_from(bytes, next_pos(bytes, at as int)) =~= text_from(
                    bytes,
                    at as int,
                ).skip(1));
                assert(text.skip(read).skip(1) =~= text.skip(read + 1));
                assert(text.skip(read)[0] == text[read]);
                assert(text.take(read + 1).drop_last() =~= text.take(read));
                assert(text.take(read + 1).last() == c);
            }
            match to_digit(c, radix) {
                Some(digit) => {
                    proof {
                        let front = number_value(text.take(read), radix) as int;
                        let modulus = 0x1_0000_0000_0000_0000int;
                        lemma_mul_mod_noop_left(front, radix as int, modulus);
                        lemma_add_mod_noop(front * radix, digit as int, modulus);
                        lemma_small_mod(digit as nat, modulus as nat);
                    }
                    value = value.wrapping_mul(radix as u64).wrapping_add(digit as u64);
                },
                None => {},
            }
            at = at + utf8_width(c);
            proof {
                read = read + 1;
            }
        }
        proof {
            lemma_text_from_end(bytes);
            assert(text.skip(read).len() == 0);
            assert(text.take(read) =~= text);
        }
        value
    }

    /// Reads a numeric literal.
    pub fn number(&mut self) -> (r: Result<Token<'s>, Error>)
        requires
            old(self).at_token_start(),
        ensures
            final(self).yields(
                old(self),
                r,
                scan_number(old(self).bytes(), old(self).mark(), old(self).pos()),
            ),
    {
        let ghost bytes = self.bytes();
        let ghost start = self.pos();
        proof {
            use_type_invariant(&self.cursor);
            lemma_str_bytes(self.source().content);
        }
        let first = match self.cursor.peek() {
            Ok(c) => c,
            Err(e) => {
                return Err(e);
            },
        };
        proof {
            lemma_step(bytes, start);
        }
        let (base_span, base) = if first == '0' {
            let _ = self.cursor.next_char();
            let marker = match self.cursor.peek() {
                Ok(c) => radix_of(c),
                Err(_) => None,
            };
            match marker {
                None => {
                    let (slice, span) = self.cursor.consume();
                    return Ok(
                        Token::new(span, slice, TokenKind::Int).with_data(TokenData::Number(0)),
                    );
                },
                Some(base) => {
                    proof {
                        use_type_invariant(&self.cursor);
                        lemma_step(bytes, self.pos());
                    }
                    let _ = self.cursor.next_char();
                    let (_, span) = self.cursor.consume();
                    (span, base)
                },
            }
        } else {
            (self.cursor.span(), Base::Decimal)
        };
        let ghost digits_start = self.pos();
        proof {
            use_type_invariant(&self.cursor);
            lemma_run_end(bytes, digits_start, CharClass::Digit(base));
            lemma_run_text(bytes, digits_start, CharClass::Digit(base));
        }
        self.take_run(CharClass::Digit(base));
        let (digits, span) = self.cursor.consume();
        let span = base_span + span;
        let value = Self::parse_number(digits, base);
        let slice = self.cursor.slice_at(span);
        Ok(Token::new(span, slice, TokenKind::Int).with_data(TokenData::Number(value)))
    }

    /// True when a character is left and is not a double quote.
    fn string_goes_on(&mut self) -> (more: bool)
        ensures
            *final(self) == *old(self),
            more == (!old(self).at_end() && old(self).next() != '"'),
    {
        match self.cursor.peek() {
            Ok(c) => c != '"',
            Err(_) => false,
        }
    }

    /// Reads a string literal and decodes its escapes.
    pub fn string(&mut self) -> (r: Result<Token<'s>, Error>)
        ensures
            final(self).yields(
                old(self),
                r,
                scan_string(old(self).bytes(), old(self).mark(), old(self).pos()),
            ),
    {
        let ghost bytes = self.bytes();
        proof {
            use_type_invariant(&self.cursor);
            lemma_str_bytes(self.source().content);
            if !self.at_end() {
                lemma_step(bytes, self.pos());
            }
        }
        match self.cursor.next_char() {
            Ok(_) => {},
            Err(e) => {
                return Err(e);
            },
        }
        let left_delimiter_span = self.cursor.span();
        let ghost opened = self.pos();
        let mut content = String::new();
        proof {
            lemma_prepend_nothing(string_body(bytes, opened));
        }
        let mut more = self.string_goes_on();
        while more
            invariant
                self.cursor().same_token(&old(self).cursor()),
                bytes == self.bytes(),
                bytes == old(self).bytes(),
                valid_utf8(bytes),
                old(self).pos() < bytes.len(),
                opened == next_pos(bytes, old(self).pos()),
                left_delimiter_span == (Span {
                    start: old(self).cursor().mark(),
                    end: opened as usize,
                }),
                string_body(bytes, opened) == prepend(content@, string_body(bytes, self.pos())),
                more == (!self.at_end() && self.next() != '"'),
            decreases bytes.len() - self.pos(),
        {
            let ghost at = self.pos();
            proof {
                use_type_invariant(&self.cursor);
                lemma_step(bytes, at);
            }
            let c = match self.cursor.next_char() {
                Ok(c) => c,
                Err(e) => {
                    return Err(e);
                },
            };
            let ghost behind = self.pos();
            if c == '\\' {
                proof {
                    use_type_invariant(&self.cursor);
                    if !self.at_end() {
                        lemma_step(bytes, behind);
                    }
                }
                let escaped = match self.cursor.next_char() {
                    Ok(c) => c,
                    Err(_) => {
                        proof {
                            assert(string_body(bytes, at) is Unclosed);
                        }
                        return Err(Error::unclosed_string_literal(left_delimiter_span));
                    },
                };
                match unescape_char(escaped) {
                    Some(decoded) => {
                        proof {
                            lemma_prepend_twice(
                                content@,
                                seq![decoded],
                                string_body(bytes, self.pos()),
                            );
                            assert(content@ + seq![decoded] =~= content@.push(decoded));
                        }
                        push_char(&mut content, decoded);
                    },
                    None => {
                        proof {
                            lemma_back_and_forth(bytes, behind);
                        }
                        return match self.cursor.current_span() {
                            Ok(span) => Err(Error::invalid_escape_sequence(span)),
                            Err(e) => Err(e),
                        };
                    },
                }
            } else {
                proof {
                    lemma_prepend_twice(content@, seq![c], string_body(bytes, self.pos()));
                    assert(content@ + seq![c] =~= content@.push(c));
                }
                push_char(&mut content, c);
            }
            proof {
                use_type_invariant(&self.cursor);
            }
            more = self.string_goes_on();
        }
        proof {
            use_type_invariant(&self.cursor);
            if !self.at_end() {
                lemma_step(bytes, self.pos());
                assert(content@ + Seq::<char>::empty() =~= content@);
            }
        }
        match self.cursor.next_char() {
            Ok(_) => {},
            Err(_) => {
                return Err(Error::unclosed_string_literal(left_delimiter_span));
            },
        }
        let (slice, span) = self.cursor.consume();
        Ok(Token::new(span, slice, TokenKind::Str).with_data(TokenData::String(content)))
    }

    /// Reads an identifier or a keyword.
    pub fn ident(&mut self) -> (r: Result<Token<'s>, Error>)
        ensures
            final(self).yields(
                old(self),
                r,
                scan_ident(old(self).bytes(), old(self).mark(), old(self).pos()),
            ),
    {
        match self.cursor.next_char() {
            Ok(_) => {},
            Err(e) => {
                return Err(e);
            },
        }
        self.take_run(CharClass::IdentContinue);
        let (slice, span) = self.cursor.consume();
        let kind = keyword_of(slice);
        Ok(Token::new(span, slice, kind))
    }

    /// Reads an operator or a punctuation mark.
    pub fn operator(&mut self) -> (r: Result<Token<'s>, Error>)
        ensures
            final(self).yields(
                old(self),
                r,
                scan_operator(old(self).bytes(), old(self).mark(), old(self).pos()),
            ),
    {
        let ghost bytes = self.bytes();
        proof {
            use_type_invariant(&self.cursor);
            lemma_str_bytes(self.source().content);
        }
        let first = match self.cursor.peek() {
            Ok(c) => c,
            Err(e) => {
                return Err(e);
            },
        };
        let second = self.cursor.lookahead(1);
        proof {
            lemma_step(bytes, self.pos());
        }
        match operator_for(first, second) {
            Some((kind, chars)) => {
                match self.cursor.skip(chars) {
                    Ok(_) => {},
                    Err(e) => {
                        return Err(e);
                    },
                }
                let (slice, span) = self.cursor.consume();
                Ok(Token::new(span, slice, kind))
            },
            None => {
                let _ = self.cursor.next_char();
                let (_, span) = self.cursor.consume();
                Err(Error::invalid_token(span))
            },
        }
    }

    /// Reads the token that starts at the next character.
    pub fn token(&mut self) -> (r: Result<Token<'s>, Error>)
        requires
            old(self).at_token_start(),
        ensures
            final(self).yields(
                old(self),
                r,
                scan_token(old(self).bytes(), old(self).mark(), old(self).pos()),
            ),
            r matches Ok(token) ==> token.reads(old(self).bytes()),
    {
        proof {
            use_type_invariant(&self.cursor);
            lemma_str_bytes(self.source().content);
            if !self.at_end() {
                lemma_token_extent(self.bytes(), self.pos());
            }
        }
        let number = match self.is_number_start() {
            Ok(b) => b,
            Err(e) => {
                return Err(e);
            },
        };
        let string = match self.is_string_start() {
            Ok(b) => b,
            Err(e) => {
                return Err(e);
            },
        };
        let ident = match self.is_ident_start() {
            Ok(b) => b,
            Err(e) => {
                return Err(e);
            },
        };
        let r = if number {
            self.number()
        } else if string {
            self.string()
        } else if ident {
            self.ident()
        } else {
            self.operator()
        };
        proof {
            if r is Ok {
                lemma_str_bytes(r->Ok_0.slice);
            }
        }
        r
    }

    /// Offset at which the next token starts: behind the white space in
    /// front of it.
    pub open spec fn token_start(&self) -> int {
        run_end(self.bytes(), self.pos(), CharClass::Whitespace)
    }

    /// `self` is the tokenizer that `before` becomes, and `r` the result it
    /// gives, when it skips white space and reads the next token, if one
    /// is left.
    pub open spec fn yields_next(
        &self,
        before: &Lexer<'s>,
        r: Result<Option<Token<'s>>, Error>,
    ) -> bool {
        let start = before.token_start();
        &&& self.source() == before.source()
        &&& if start >= before.bytes().len() {
            &&& r == Ok::<Option<Token<'s>>, Error>(None)
            &&& self.pos() == start
            &&& self.mark() == start
        } else {
            match scan_token(before.bytes(), start, start) {
                Scan::Token { kind, end, data } => {
                    &&& r matches Ok(Some(token))
                    &&& token_is(token, before.bytes(), start, kind, end, data)
                    &&& self.pos() == end
                    &&& self.mark() == end
                },
                Scan::Fail { error, stop, mark } => {
                    &&& r == Err::<Option<Token<'s>>, Error>(error)
                    &&& self.pos() == stop
                    &&& self.mark() == mark
                },
            }
        }
    }

    /// `r` is what reading `scan` at the offset `start` of the text gives:
    /// the token that covers the bytes from `start` on, or the error.
    pub open spec fn outcome_is(
        r: Result<Token<'s>, Error>,
        bytes: Seq<u8>,
        start: int,
        scan: Scan,
    ) -> bool {
        match scan {
            Scan::Token { kind, end, data } => r matches Ok(token) && token_is(
                token,
                bytes,
                start,
                kind,
                end,
                data,
            ),
            Scan::Fail { error, stop, mark } => r == Err::<Token<'s>, Error>(error),
        }
    }

    /// Reads on to the end of the input and hands out every token and
    /// every error on the way, in order. Reading goes on behind an error.
    pub fn tokens(&mut self) -> (out: Vec<Result<Token<'s>, Error>>)
        ensures
            final(self).source() == old(self).source(),
            final(self).at_end(),
            out@.len() == stream(old(self).bytes(), old(self).pos()).len(),
            forall|i: int|
                0 <= i < out@.len() ==> Self::outcome_is(
                    #[trigger] out@[i],
                    old(self).bytes(),
                    stream(old(self).bytes(), old(self).pos())[i].0,
                    stream(old(self).bytes(), old(self).pos())[i].1,
                ),
    {
        let ghost bytes = self.bytes();
        let ghost all = stream(bytes, self.pos());
        let ghost mut done: Seq<(int, Scan)> = Seq::empty();
        let mut out: Vec<Result<Token<'s>, Error>> = Vec::new();
        proof {
            use_type_invariant(&self.cursor);
            lemma_str_bytes(self.source().content);
        }
        loop
            invariant
                self.source() == old(self).source(),
                bytes == old(self).bytes(),
                all == stream(bytes, old(self).pos()),
                valid_utf8(bytes),
                is_position(bytes, self.pos()),
                done + stream(bytes, self.pos()) =~= all,
                done.len() == out@.len(),
                forall|i: int|
                    0 <= i < out@.len() ==> Self::outcome_is(
                        #[trigger] out@[i],
                        bytes,
                        done[i].0,
                        done[i].1,
                    ),
            ensures
                self.source() == old(self).source(),
                self.at_end(),
                done =~= all,
                done.len() == out@.len(),
                forall|i: int|
                    0 <= i < out@.len() ==> Self::outcome_is(
                        #[trigger] out@[i],
                        bytes,
                        done[i].0,
                        done[i].1,
                    ),
            decreases bytes.len() - self.pos(),
        {
            let ghost start = self.token_start();
            proof {
                lemma_run_end(bytes, self.pos(), CharClass::Whitespace);
                if start < bytes.len() {
                    lemma_scan_progress(bytes, start);
                }
            }
            let item = match self.next_token() {
                Ok(Some(token)) => Ok(token),
                Ok(None) => {
                    break;
                },
                Err(error) => Err(error),
            };
            proof {
                done = done.push((start, scan_token(bytes, start, start)));
                use_type_invariant(&self.cursor);
            }
            out.push(item);
        }
        out
    }

    /// Skips white space and reads the next token. At the end of the input
    /// there is none, which is no error.
    pub fn next_token(&mut self) -> (r: Result<Option<Token<'s>>, Error>)
        ensures
            final(self).yields_next(old(self), r),
            r matches Ok(Some(token)) ==> token.reads(old(self).bytes()) && token.span.start
                == old(self).token_start(),
    {
        proof {
            use_type_invariant(&self.cursor);
            lemma_str_bytes(self.source().content);
            lemma_run_end(self.bytes(), self.pos(), CharClass::Whitespace);
        }
        let _ = self.skip_whitespaces();
        if self.cursor.is_eof() {
            Ok(None)
        } else {
            match self.token() {
                Ok(token) => Ok(Some(token)),
                Err(e) => Err(e),
            }
        }
    }
}

/// The radix that the character behind a leading `0` announces.
fn radix_of(c: char) -> (base: Option<Base>)
    ensures
        base == radix_marker(c),
{
    if c == 'x' || c == 'X' {
        Some(Base::Hexadecimal)
    } else if c == 'o' || c == 'O' {
        Some(Base::Octal)
    } else if c == 'b' || c == 'B' {
        Some(Base::Binary)
    } else {
        None
    }
}

/// The character that an escape stands for.
fn unescape_char(c: char) -> (decoded: Option<char>)
    ensures
        decoded == unescape(c),
{
    if c == 'n' {
        Some('\n')
    } else if c == 't' {
        Some('\t')
    } else if c == '\\' {
        Some('\\')
    } else if c == '"' {
        Some('"')
    } else {
        None
    }
}

/// The kind of a word: one of the keywords, or an identifier.
fn keyword_of(word: &str) -> (kind: TokenKind)
    ensures
        kind == word_kind(word@),
{
    if text_eq(word, "func") {
        TokenKind::FuncKw
    } else if text_eq(word, "trait") {
        TokenKind::TraitKw
    } else if text_eq(word, "impl") {
        TokenKind::ImplKw
    } else if text_eq(word, "while") {
        TokenKind::WhileKw
    } else if text_eq(word, "let") {
        TokenKind::LetKw
    } else if text_eq(word, "if") {
        TokenKind::IfKw
    } else if text_eq(word, "else") {
        TokenKind::ElseKw
    } else if text_eq(word, "return") {
        TokenKind::ReturnKw
    } else {
        TokenKind::Ident
    }
}

/// The operator or punctuation that starts with `first`, given the
/// character behind it, and the number of characters it takes.
fn operator_for(first: char, second: Option<char>) -> (found: Option<(TokenKind, usize)>)
    ensures
        match operator_of(first, second) {
            Some((kind, chars)) => found == Some((kind, chars as usize)) && 1 <= chars <= 2 && (
            chars == 2 ==> second is Some),
            None => found is None,
        },
{
    let follows = |c: char| -> (b: bool)
        ensures
            b == (second == Some(c)),
        {
            match second {
                Some(s) => s == c,
                None => false,
            }
        };
    if first == '+' {
        Some((TokenKind::Add, 1))
    } else if first == '-' {
        Some((TokenKind::Sub, 1))
    } else if first == '*' {
        Some((TokenKind::Mul, 1))
    } else if first == '/' {
        Some((TokenKind::Div, 1))
    } else if first == '=' {
        if follows('=') {
            Some((TokenKind::Eq, 2))
        } else {
            Some((TokenKind::Asgmt, 1))
        }
    } else if first == '!' {
        if follows('=') {
            Some((TokenKind::Neq, 2))
        } else {
            None
        }
    } else if first == '<' {
        if follows('=') {
            Some((TokenKind::LtEq, 2))
        } else if follows('<') {
            Some((TokenKind::BitShl, 2))
        } else {
            Some((TokenKind::Lt, 1))
        }
    } else if first == '>' {
        if follows('=') {
            Some((TokenKind::GtEq, 2))
        } else if follows('>') {
            Some((TokenKind::BitShr, 2))
        } else {
            Some((TokenKind::Gt, 1))
        }
    } else if first == '&' {
        if follows('&') {
            Some((TokenKind::And, 2))
        } else {
            Some((TokenKind::BitAnd, 1))
        }
    } else if first == '|' {
        if follows('|') {
            Some((TokenKind::Or, 2))
        } else {
            Some((TokenKind::BitOr, 1))
        }
    } else if first == '^' {
        Some((TokenKind::BitXor, 1))
    } else if first == ',' {
        Some((TokenKind::Comma, 1))
    } else if first == '(' {
        Some((TokenKind::LeftParen, 1))
    } else if first == ')' {
        Some((TokenKind::RightParen, 1))
    } else if first == '{' {
        Some((TokenKind::LeftBrace, 1))
    } else if first == '}' {
        Some((TokenKind::RightBrace, 1))
    } else if first == '[' {
        Some((TokenKind::LeftSquare, 1))
    } else if first == ']' {
        Some((TokenKind::RightSquare, 1))
    } else if first == ';' {
        Some((TokenKind::Semicolon, 1))
    } else if first == ':' {
        if follows(':') {
            Some((TokenKind::DoubleColon, 2))
        } else {
            Some((TokenKind::Colon, 1))
        }
    } else {
        None
    }
}

} // verus!
