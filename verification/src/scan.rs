//! What the tokenizer reads, as functions of the source bytes.
//!
//! Each scanner of the tokenizer has a counterpart here that says, for a
//! mark and a reading position in the text, which token is read and where
//! it ends, or which error is reported and where the cursor is left.

use crate::chars::ascii_digit;
use crate::chars::ident_start;
use crate::chars::whitespace;
use crate::chars::CharClass;
use crate::cursor::advance;
use crate::error::Error;
use crate::error::ErrorKind;
use crate::span::Span;
use crate::text::char_at;
use crate::text::is_position;
use crate::text::lemma_inside_char;
use crate::text::lemma_step;
use crate::text::next_pos;
use crate::text::remaining;
use crate::text::text_between;
use crate::text::text_from;
use crate::token::digit_value;
use crate::token::Base;
use crate::token::TokenKind;
use vstd::prelude::*;
use vstd::utf8::valid_utf8;

verus! {

/// The literal payload of a token, as a mathematical value.
pub enum Payload {
    Number(u64),
    Text(Seq<char>),
}

/// The outcome of scanning one token.
pub enum Scan {
    /// A token of `kind` that ends at byte `end`.
    Token { kind: TokenKind, end: int, data: Option<Payload> },
    /// An error, with the cursor left at byte `stop` and its mark at `mark`.
    Fail { error: Error, stop: int, mark: int },
}

/// The failure at the end of the input: nothing is read.
pub open spec fn fail_eof(mark: int, pos: int) -> Scan {
    Scan::Fail { error: Error::eof(), stop: pos, mark }
}

/// The offset behind the longest run of characters of `class` that starts
/// at `pos`.
pub open spec fn run_end(bytes: Seq<u8>, pos: int, class: CharClass) -> int
    decreases remaining(bytes, pos),
{
    if 0 <= pos < bytes.len() && class.holds(char_at(bytes, pos)) {
        run_end(bytes, next_pos(bytes, pos), class)
    } else {
        pos
    }
}

/// The value of a run of digits in `radix`, most significant digit first.
/// Characters that are no digits of the radix, such as the separating
/// underscore, count for nothing.
pub open spec fn number_value(digits: Seq<char>, radix: u32) -> nat
    decreases digits.len(),
{
    if digits.len() == 0 {
        0
    } else {
        let front = number_value(digits.drop_last(), radix);
        match digit_value(digits.last(), radix) {
            Some(d) => front * (radix as nat) + (d as nat),
            None => front,
        }
    }
}

/// The value that a numeric token carries: the value of its digits, reduced
/// modulo 2^64 where it does not fit.
pub open spec fn literal_value(digits: Seq<char>, base: Base) -> u64 {
    (number_value(digits, base.spec_radix()) % 0x1_0000_0000_0000_0000) as u64
}

/// The radix that the character behind a leading `0` announces.
pub open spec fn radix_marker(c: char) -> Option<Base> {
    if c == 'x' || c == 'X' {
        Some(Base::Hexadecimal)
    } else if c == 'o' || c == 'O' {
        Some(Base::Octal)
    } else if c == 'b' || c == 'B' {
        Some(Base::Binary)
    } else {
        None
    }
}

/// A numeric literal that starts at `pos`.
///
/// A `0` followed by a radix marker opens a literal in that radix; the
/// marker belongs to the token and the digits behind it give the value. A
/// `0` followed by anything else, or by nothing, is the literal zero by
/// itself. Any other start is read as a run of decimal digits.
pub open spec fn scan_number(bytes: Seq<u8>, mark: int, pos: int) -> Scan {
    if pos >= bytes.len() {
        fail_eof(mark, pos)
    } else if char_at(bytes, pos) == '0' {
        let marker = next_pos(bytes, pos);
        let zero = Scan::Token {
            kind: TokenKind::Int,
            end: marker,
            data: Some(Payload::Number(0)),
        };
        if marker >= bytes.len() {
            zero
        } else {
            match radix_marker(char_at(bytes, marker)) {
                Some(base) => {
                    let digits = next_pos(bytes, marker);
                    let end = run_end(bytes, digits, CharClass::Digit(base));
                    Scan::Token {
                        kind: TokenKind::Int,
                        end,
                        data: Some(
                            Payload::Number(literal_value(text_between(bytes, digits, end), base)),
                        ),
                    }
                },
                None => zero,
            }
        }
    } else {
        let end = run_end(bytes, pos, CharClass::Digit(Base::Decimal));
        Scan::Token {
            kind: TokenKind::Int,
            end,
            data: Some(
                Payload::Number(literal_value(text_between(bytes, pos, end), Base::Decimal)),
            ),
        }
    }
}

/// The character that an escape stands for: `\n`, `\t`, `\\` and `\"`.
pub open spec fn unescape(c: char) -> Option<char> {
    if c == 'n' {
        Some('\n')
    } else if c == 't' {
        Some('\t')
    } else if c == '\\' {
        Some('\\')
    } else if c == '"' {
        Some('"')
    } else {
        None
    }
}

/// How the inside of a string literal ends.
pub enum Body {
    /// The closing quote was found; `end` is the offset behind it.
    Closed { end: int, text: Seq<char> },
    /// The input ended before a closing quote, be it behind a character
    /// of the literal or behind a backslash.
    Unclosed,
    /// A backslash was followed by the character at `start..end`, which
    /// names no escape.
    BadEscape { start: int, end: int },
}

/// `body` with `text` put in front of what it decoded.
pub open spec fn prepend(text: Seq<char>, body: Body) -> Body {
    match body {
        Body::Closed { end, text: tail } => Body::Closed { end, text: text + tail },
        other => other,
    }
}

/// The inside of a string literal, read from `pos` on: characters up to
/// the first quote that no backslash precedes, each escape replaced by the
/// character it stands for.
pub open spec fn string_body(bytes: Seq<u8>, pos: int) -> Body
    decreases remaining(bytes, pos),
{
    if pos < 0 || pos >= bytes.len() {
        Body::Unclosed
    } else {
        let c = char_at(bytes, pos);
        let behind = next_pos(bytes, pos);
        if c == '"' {
            Body::Closed { end: behind, text: Seq::empty() }
        } else if c == '\\' {
            if behind >= bytes.len() {
                Body::Unclosed
            } else {
                let after = next_pos(bytes, behind);
                match unescape(char_at(bytes, behind)) {
                    Some(e) => prepend(seq![e], string_body(bytes, after)),
                    None => Body::BadEscape { start: behind, end: after },
                }
            }
        } else {
            prepend(seq![c], string_body(bytes, behind))
        }
    }
}

/// A string literal whose opening delimiter is the character at `pos`.
///
/// A literal that the input ends in, wherever it ends, is unclosed and is
/// reported at its opening delimiter; an escape that names nothing is
/// reported at the character behind the backslash.
pub open spec fn scan_string(bytes: Seq<u8>, mark: int, pos: int) -> Scan {
    if pos >= bytes.len() {
        fail_eof(mark, pos)
    } else {
        let opened = next_pos(bytes, pos);
        match string_body(bytes, opened) {
            Body::Closed { end, text } => Scan::Token {
                kind: TokenKind::Str,
                end,
                data: Some(Payload::Text(text)),
            },
            Body::Unclosed => Scan::Fail {
                error: Error {
                    span: Span { start: mark as usize, end: opened as usize },
                    kind: ErrorKind::UnclosedStringLiteral,
                },
                stop: bytes.len() as int,
                mark,
            },
            Body::BadEscape { start, end } => Scan::Fail {
                error: Error {
                    span: Span { start: start as usize, end: end as usize },
                    kind: ErrorKind::InvalidEscapeSequence,
                },
                stop: end,
                mark,
            },
        }
    }
}

/// The kind of a word: one of the keywords, or an identifier.
pub open spec fn word_kind(word: Seq<char>) -> TokenKind {
    if word == "func"@ {
        TokenKind::FuncKw
    } else if word == "trait"@ {
        TokenKind::TraitKw
    } else if word == "impl"@ {
        TokenKind::ImplKw
    } else if word == "while"@ {
        TokenKind::WhileKw
    } else if word == "let"@ {
        TokenKind::LetKw
    } else if word == "if"@ {
        TokenKind::IfKw
    } else if word == "else"@ {
        TokenKind::ElseKw
    } else if word == "return"@ {
        TokenKind::ReturnKw
    } else {
        TokenKind::Ident
    }
}

/// An identifier or keyword: the character at `pos` and the longest run of
/// identifier characters behind it. The word is the text since the mark.
pub open spec fn scan_ident(bytes: Seq<u8>, mark: int, pos: int) -> Scan {
    if pos >= bytes.len() {
        fail_eof(mark, pos)
    } else {
        let end = run_end(bytes, next_pos(bytes, pos), CharClass::IdentContinue);
        Scan::Token { kind: word_kind(text_between(bytes, mark, end)), end, data: None }
    }
}

/// The operator or punctuation that starts with `first`, given the
/// character behind it, and the number of characters it takes. The longest
/// match wins.
pub open spec fn operator_of(first: char, second: Option<char>) -> Option<(TokenKind, nat)> {
    if first == '+' {
        Some((TokenKind::Add, 1nat))
    } else if first == '-' {
        Some((TokenKind::Sub, 1nat))
    } else if first == '*' {
        Some((TokenKind::Mul, 1nat))
    } else if first == '/' {
        Some((TokenKind::Div, 1nat))
    } else if first == '=' {
        if second == Some('=') {
            Some((TokenKind::Eq, 2nat))
        } else {
            Some((TokenKind::Asgmt, 1nat))
        }
    } else if first == '!' {
        if second == Some('=') {
            Some((TokenKind::Neq, 2nat))
        } else {
            None
        }
    } else if first == '<' {
        if second == Some('=') {
            Some((TokenKind::LtEq, 2nat))
        } else if second == Some('<') {
            Some((TokenKind::BitShl, 2nat))
        } else {
            Some((TokenKind::Lt, 1nat))
        }
    } else if first == '>' {
        if second == Some('=') {
            Some((TokenKind::GtEq, 2nat))
        } else if second == Some('>') {
            Some((TokenKind::BitShr, 2nat))
        } else {
            Some((TokenKind::Gt, 1nat))
        }
    } else if first == '&' {
        if second == Some('&') {
            Some((TokenKind::And, 2nat))
        } else {
            Some((TokenKind::BitAnd, 1nat))
        }
    } else if first == '|' {
        if second == Some('|') {
            Some((TokenKind::Or, 2nat))
        } else {
            Some((TokenKind::BitOr, 1nat))
        }
    } else if first == '^' {
        Some((TokenKind::BitXor, 1nat))
    } else if first == ',' {
        Some((TokenKind::Comma, 1nat))
    } else if first == '(' {
        Some((TokenKind::LeftParen, 1nat))
    } else if first == ')' {
        Some((TokenKind::RightParen, 1nat))
    } else if first == '{' {
        Some((TokenKind::LeftBrace, 1nat))
    } else if first == '}' {
        Some((TokenKind::RightBrace, 1nat))
    } else if first == '[' {
        Some((TokenKind::LeftSquare, 1nat))
    } else if first == ']' {
        Some((TokenKind::RightSquare, 1nat))
    } else if first == ';' {
        Some((TokenKind::Semicolon, 1nat))
    } else if first == ':' {
        if second == Some(':') {
            Some((TokenKind::DoubleColon, 2nat))
        } else {
            Some((TokenKind::Colon, 1nat))
        }
    } else {
        None
    }
}

/// The character behind the one at the front of `rest`, if there is one.
pub open spec fn second_of(rest: Seq<char>) -> Option<char> {
    if rest.len() > 1 {
        Some(rest[1])
    } else {
        None
    }
}

/// An operator or a punctuation mark at `pos`. A character that starts
/// none is stepped over and reported as an invalid token.
pub open spec fn scan_operator(bytes: Seq<u8>, mark: int, pos: int) -> Scan {
    if pos >= bytes.len() {
        fail_eof(mark, pos)
    } else {
        match operator_of(char_at(bytes, pos), second_of(text_from(bytes, pos))) {
            Some((kind, chars)) => Scan::Token {
                kind,
                end: advance(bytes, pos, chars),
                data: None,
            },
            None => Scan::Fail {
                error: Error {
                    span: Span { start: mark as usize, end: next_pos(bytes, pos) as usize },
                    kind: ErrorKind::InvalidToken,
                },
                stop: next_pos(bytes, pos),
                mark: next_pos(bytes, pos),
            },
        }
    }
}

/// The token that starts at `pos`, by the first character: a digit opens
/// a number, a quote a string, an identifier start a word, anything else
/// an operator.
pub open spec fn scan_token(bytes: Seq<u8>, mark: int, pos: int) -> Scan {
    if pos >= bytes.len() {
        fail_eof(mark, pos)
    } else {
        let c = char_at(bytes, pos);
        if ascii_digit(c) {
            scan_number(bytes, mark, pos)
        } else if c == '"' {
            scan_string(bytes, mark, pos)
        } else if ident_start(c) {
            scan_ident(bytes, mark, pos)
        } else {
            scan_operator(bytes, mark, pos)
        }
    }
}

/// The offset at which a scan leaves the cursor.
pub open spec fn scan_stop(scan: Scan) -> int {
    match scan {
        Scan::Token { kind, end, data } => end,
        Scan::Fail { error, stop, mark } => stop,
    }
}

/// Everything that is read from `pos` to the end of the text: for each
/// token or error in turn, the offset at which it starts, behind the white
/// space in front of it, and what is read there. Reading goes on behind an
/// error.
pub open spec fn stream(bytes: Seq<u8>, pos: int) -> Seq<(int, Scan)>
    decreases remaining(bytes, pos),
    when valid_utf8(bytes) && is_position(bytes, pos)
    via stream_decreases
{
    let start = run_end(bytes, pos, CharClass::Whitespace);
    if start >= bytes.len() {
        Seq::empty()
    } else {
        let scan = scan_token(bytes, start, start);
        seq![(start, scan)] + stream(bytes, scan_stop(scan))
    }
}

#[via_fn]
proof fn stream_decreases(bytes: Seq<u8>, pos: int) {
    let start = run_end(bytes, pos, CharClass::Whitespace);
    lemma_run_end(bytes, pos, CharClass::Whitespace);
    if start < bytes.len() {
        lemma_scan_progress(bytes, start);
    }
}

/// Whatever is read at a position before the end of the text, a token or
/// an error, the cursor is left at a later position.
pub proof fn lemma_scan_progress(bytes: Seq<u8>, pos: int)
    requires
        valid_utf8(bytes),
        is_position(bytes, pos),
        pos < bytes.len(),
    ensures
        pos < scan_stop(scan_token(bytes, pos, pos)) <= bytes.len(),
        is_position(bytes, scan_stop(scan_token(bytes, pos, pos))),
{
    lemma_token_extent(bytes, pos);
    lemma_step(bytes, pos);
    lemma_string_body(bytes, next_pos(bytes, pos));
    vstd::utf8::is_char_boundary_start_end_of_seq(bytes);
}

/// The run that starts at a position ends at a position; every character
/// in between belongs to the class, and the character at its end, if
/// there is one, does not.
pub proof fn lemma_run_end(bytes: Seq<u8>, pos: int, class: CharClass)
    requires
        valid_utf8(bytes),
        is_position(bytes, pos),
    ensures
        pos <= run_end(bytes, pos, class) <= bytes.len(),
        is_position(bytes, run_end(bytes, pos, class)),
        run_end(bytes, pos, class) < bytes.len() ==> !class.holds(
            char_at(bytes, run_end(bytes, pos, class)),
        ),
        forall|at: int|
            pos <= at < run_end(bytes, pos, class) && is_position(bytes, at) ==> class.holds(
                #[trigger] char_at(bytes, at),
            ),
    decreases bytes.len() - pos,
{
    if pos < bytes.len() && class.holds(char_at(bytes, pos)) {
        lemma_step(bytes, pos);
        let behind = next_pos(bytes, pos);
        lemma_run_end(bytes, behind, class);
        assert forall|at: int|
            pos <= at < run_end(bytes, pos, class) && is_position(bytes, at) implies class.holds(
            #[trigger] char_at(bytes, at),
        ) by {
            if pos < at < behind {
                lemma_inside_char(bytes, pos, at);
            }
        }
    }
}

/// Stepping over at least one character from a position that is not the
/// end leads to a later position.
pub proof fn lemma_advance(bytes: Seq<u8>, pos: int, n: nat)
    requires
        valid_utf8(bytes),
        is_position(bytes, pos),
    ensures
        is_position(bytes, advance(bytes, pos, n)),
        pos <= advance(bytes, pos, n),
        n > 0 && pos < bytes.len() ==> pos < advance(bytes, pos, n),
    decreases n,
{
    if n > 0 && pos < bytes.len() {
        lemma_step(bytes, pos);
        lemma_advance(bytes, next_pos(bytes, pos), (n - 1) as nat);
    }
}

/// A string body that is closed ends at a position behind its start.
pub proof fn lemma_string_body(bytes: Seq<u8>, pos: int)
    requires
        valid_utf8(bytes),
        is_position(bytes, pos),
    ensures
        match string_body(bytes, pos) {
            Body::Closed { end, text } => pos < end && is_position(bytes, end),
            Body::BadEscape { start, end } => pos < start < end && is_position(bytes, start)
                && is_position(bytes, end),
            _ => true,
        },
    decreases bytes.len() - pos,
{
    if pos < bytes.len() {
        lemma_step(bytes, pos);
        let c = char_at(bytes, pos);
        let behind = next_pos(bytes, pos);
        if c == '\\' {
            if behind < bytes.len() {
                lemma_step(bytes, behind);
                if unescape(char_at(bytes, behind)) is Some {
                    lemma_string_body(bytes, next_pos(bytes, behind));
                }
            }
        } else if c != '"' {
            lemma_string_body(bytes, behind);
        }
    }
}

/// A token that is read at a position before the end of the text is not
/// empty, and it ends at a position of the text.
pub proof fn lemma_token_extent(bytes: Seq<u8>, pos: int)
    requires
        valid_utf8(bytes),
        is_position(bytes, pos),
        pos < bytes.len(),
    ensures
        match scan_token(bytes, pos, pos) {
            Scan::Token { kind, end, data } => pos < end && is_position(bytes, end),
            Scan::Fail { error, stop, mark } => true,
        },
{
    lemma_step(bytes, pos);
    let c = char_at(bytes, pos);
    let behind = next_pos(bytes, pos);
    if ascii_digit(c) {
        if c == '0' {
            if behind < bytes.len() {
                lemma_step(bytes, behind);
                match radix_marker(char_at(bytes, behind)) {
                    Some(base) => {
                        lemma_run_end(bytes, next_pos(bytes, behind), CharClass::Digit(base));
                    },
                    None => {},
                }
            }
        } else {
            lemma_run_end(bytes, behind, CharClass::Digit(Base::Decimal));
        }
    } else if c == '"' {
        lemma_string_body(bytes, behind);
    } else if ident_start(c) {
        lemma_run_end(bytes, behind, CharClass::IdentContinue);
    } else {
        match operator_of(c, second_of(text_from(bytes, pos))) {
            Some((kind, chars)) => {
                lemma_advance(bytes, pos, chars);
            },
            None => {},
        }
    }
}

/// What lies between positions `from` and `to` is white space only.
pub open spec fn blank(bytes: Seq<u8>, from: int, to: int) -> bool {
    forall|at: int|
        from <= at < to && is_position(bytes, at) ==> whitespace(#[trigger] char_at(bytes, at))
}

/// White space lies between the tokens, never in them. Each token or
/// error of the stream starts at a character that is not white space and
/// takes at least one character; what lies before the first of them, and
/// between one and the next, is white space only.
pub proof fn lemma_stream_excludes_whitespace(bytes: Seq<u8>, pos: int, i: int)
    requires
        valid_utf8(bytes),
        is_position(bytes, pos),
        0 <= i < stream(bytes, pos).len(),
    ensures
        ({
            let (start, scan) = stream(bytes, pos)[i];
            &&& pos <= start < scan_stop(scan) <= bytes.len()
            &&& is_position(bytes, start)
            &&& is_position(bytes, scan_stop(scan))
            &&& !whitespace(char_at(bytes, start))
            &&& i == 0 ==> blank(bytes, pos, start)
            &&& i + 1 < stream(bytes, pos).len() ==> blank(
                bytes,
                scan_stop(scan),
                stream(bytes, pos)[i + 1].0,
            )
        }),
    decreases i,
{
    let start = run_end(bytes, pos, CharClass::Whitespace);
    lemma_run_end(bytes, pos, CharClass::Whitespace);
    lemma_scan_progress(bytes, start);
    let stop = scan_stop(scan_token(bytes, start, start));
    let rest = stream(bytes, stop);
    assert(stream(bytes, pos) =~= seq![(start, scan_token(bytes, start, start))] + rest);
    if i == 0 {
        if 1 < stream(bytes, pos).len() {
            assert(stream(bytes, pos)[1] == rest[0]);
            lemma_run_end(bytes, stop, CharClass::Whitespace);
        }
    } else {
        assert(stream(bytes, pos)[i] == rest[i - 1]);
        if i + 1 < stream(bytes, pos).len() {
            assert(stream(bytes, pos)[i + 1] == rest[i]);
        }
        lemma_stream_excludes_whitespace(bytes, stop, i - 1);
    }
}

/// Every character of a run belongs to the class of the run.
pub proof fn lemma_run_text(bytes: Seq<u8>, pos: int, class: CharClass)
    requires
        valid_utf8(bytes),
        is_position(bytes, pos),
    ensures
        forall|i: int|
            0 <= i < text_between(bytes, pos, run_end(bytes, pos, class)).len() ==> class.holds(
                #[trigger] text_between(bytes, pos, run_end(bytes, pos, class))[i],
            ),
    decreases bytes.len() - pos,
{
    let end = run_end(bytes, pos, class);
    lemma_run_end(bytes, pos, class);
    if pos < bytes.len() && class.holds(char_at(bytes, pos)) {
        lemma_step(bytes, pos);
        let behind = next_pos(bytes, pos);
        lemma_run_end(bytes, behind, class);
        lemma_run_text(bytes, behind, class);
        crate::text::lemma_text_between_step(bytes, pos, end);
    } else {
        assert(bytes.subrange(pos, pos).len() == 0);
    }
}

/// Putting two texts in front of a body, one after the other, is putting
/// their concatenation in front of it.
pub proof fn lemma_prepend_twice(a: Seq<char>, b: Seq<char>, body: Body)
    ensures
        prepend(a, prepend(b, body)) == prepend(a + b, body),
{
    match body {
        Body::Closed { end, text } => {
            assert(a + (b + text) =~= (a + b) + text);
        },
        _ => {},
    }
}

/// Putting nothing in front of a body leaves it as it is.
pub proof fn lemma_prepend_nothing(body: Body)
    ensures
        prepend(Seq::empty(), body) == body,
{
    match body {
        Body::Closed { end, text } => {
            assert(Seq::<char>::empty() + text =~= text);
        },
        _ => {},
    }
}

} // verus!
