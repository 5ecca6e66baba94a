//! Byte ranges into a source buffer and resolved line/column positions.

use crate::decimal::decimal;
use crate::decimal::push_decimal;
use crate::source::Source;
use crate::text::is_position;
use crate::text::push_char;
use crate::text::slice_between;
use crate::text::text_between;
use core::ops::Add;
use core::ops::AddAssign;
use vstd::prelude::*;
use vstd::std_specs::ops::AddSpecImpl;
use vstd::string::StrSliceExecFns;

verus! {

/// A half-open byte range `start..end` into one source buffer.
#[derive(Debug, Clone, Copy, PartialEq, Eq, Hash, Structural)]
pub struct Span {
    pub start: usize,
    pub end: usize,
}

impl Span {
    /// The zero-length span at the start of the buffer, as a specification.
    pub open spec fn zero() -> Span {
        Span { start: 0, end: 0 }
    }

    /// The zero-length span at the start of the buffer, carried by nodes
    /// and errors that have no text of their own.
    pub fn dummy() -> (span: Span)
        ensures
            span == Span::zero(),
    {
        Span { start: 0, end: 0 }
    }

    /// A span is well formed when it does not end before it starts.
    pub open spec fn wf(self) -> bool {
        self.start <= self.end
    }

    /// The smallest span that covers both `self` and `other`.
    pub open spec fn union(self, other: Span) -> Span {
        Span {
            start: if self.start <= other.start { self.start } else { other.start },
            end: if self.end >= other.end { self.end } else { other.end },
        }
    }

    /// True when every byte of `other` lies inside `self`.
    pub open spec fn covers(self, other: Span) -> bool {
        self.start <= other.start && other.end <= self.end
    }

    /// The span `start..end`.
    pub fn new(start: usize, end: usize) -> (span: Span)
        ensures
            span == (Span { start, end }),
    {
        Span { start, end }
    }

    /// Number of bytes in the span.
    pub fn len(&self) -> (n: usize)
        requires
            self.wf(),
        ensures
            n == self.end - self.start,
    {
        self.end - self.start
    }

    /// True when the span covers no byte.
    pub fn is_empty(&self) -> (b: bool)
        requires
            self.wf(),
        ensures
            b == (self.start == self.end),
    {
        self.len() == 0
    }

    /// Number of characters in the part of `source` that the span covers.
    pub fn chars_len(&self, source: Source) -> (n: usize)
        requires
            self.wf(),
            is_position(source.bytes(), self.start as int),
            is_position(source.bytes(), self.end as int),
        ensures
            n == text_between(source.bytes(), self.start as int, self.end as int).len(),
    {
        slice_between(source.content, self.start, self.end).unicode_len()
    }

    /// The span as text: its two offsets in decimal, with `..` between.
    pub open spec fn text(self) -> Seq<char> {
        decimal(self.start as nat) + seq!['.', '.'] + decimal(self.end as nat)
    }

    /// The span as text, such as `3..7`.
    pub fn to_string(&self) -> (text: String)
        ensures
            text@ == self.text(),
    {
        let mut text = String::new();
        push_decimal(&mut text, self.start);
        push_char(&mut text, '.');
        push_char(&mut text, '.');
        push_decimal(&mut text, self.end);
        proof {
            assert(text@ =~= self.text());
        }
        text
    }

    /// Moves both ends inwards by `bytes`.
    pub fn shrink(self, bytes: usize) -> (span: Span)
        requires
            self.start + bytes <= usize::MAX,
            bytes <= self.end,
        ensures
            span.start == self.start + bytes,
            span.end == self.end - bytes,
            self.wf() && 2 * bytes <= self.end - self.start ==> span.wf(),
    {
        Span { start: self.start + bytes, end: self.end - bytes }
    }
}

impl Default for Span {
    fn default() -> (span: Span)
        ensures
            span == Span::zero(),
    {
        Span { start: 0, end: 0 }
    }
}

impl AddSpecImpl<Span> for Span {
    open spec fn obeys_add_spec() -> bool {
        true
    }

    open spec fn add_req(self, rhs: Span) -> bool {
        true
    }

    open spec fn add_spec(self, rhs: Span) -> Span {
        self.union(rhs)
    }
}

/// `a + b` is the union of two spans.
impl Add<Span> for Span {
    type Output = Span;

    fn add(self, rhs: Span) -> (span: Span) {
        let start = if self.start <= rhs.start { self.start } else { rhs.start };
        let end = if self.end >= rhs.end { self.end } else { rhs.end };
        Span { start, end }
    }
}

/// `a += b` replaces `a` by the union of `a` and `b`.
impl AddAssign<Span> for Span {
    fn add_assign(&mut self, rhs: Span)
        ensures
            *final(self) == old(self).union(rhs),
    {
        let start = if self.start <= rhs.start { self.start } else { rhs.start };
        let end = if self.end >= rhs.end { self.end } else { rhs.end };
        self.start = start;
        self.end = end;
    }
}

impl AddSpecImpl<usize> for Span {
    open spec fn obeys_add_spec() -> bool {
        true
    }

    open spec fn add_req(self, rhs: usize) -> bool {
        self.end + rhs <= usize::MAX
    }

    open spec fn add_spec(self, rhs: usize) -> Span {
        Span { start: self.start, end: (self.end + rhs) as usize }
    }
}

/// `span + n` extends the span by `n` bytes at its end.
impl Add<usize> for Span {
    type Output = Span;

    fn add(self, rhs: usize) -> (span: Span) {
        Span { start: self.start, end: self.end + rhs }
    }
}

/// The union of all `spans`, or `fallback` where there is none: the union
/// of no spans has no natural value.
pub open spec fn union_all(spans: Seq<Span>, fallback: Span) -> Span
    decreases spans.len(),
{
    if spans.len() == 0 {
        fallback
    } else if spans.len() == 1 {
        spans[0]
    } else {
        union_all(spans.drop_last(), fallback).union(spans.last())
    }
}

/// The union of a span with one that may be absent: an absent span adds
/// nothing.
pub open spec fn union_with(span: Span, other: Option<Span>) -> Span {
    match other {
        Some(other) => span.union(other),
        None => span,
    }
}

/// The union of all `spans`, or `fallback` where there is none.
pub fn union_of(spans: &[Span], fallback: Span) -> (span: Span)
    ensures
        span == union_all(spans@, fallback),
{
    if spans.len() == 0 {
        return fallback;
    }
    let mut span = spans[0];
    let mut i: usize = 1;
    proof {
        assert(spans@.take(1) =~= seq![spans@[0]]);
    }
    while i < spans.len()
        invariant
            1 <= i <= spans@.len(),
            span == union_all(spans@.take(i as int), fallback),
        decreases spans@.len() - i,
    {
        proof {
            assert(spans@.take(i + 1).drop_last() =~= spans@.take(i as int));
        }
        span = span + spans[i];
        i = i + 1;
    }
    proof {
        assert(spans@.take(spans@.len() as int) =~= spans@);
    }
    span
}

/// The union of a span with one that may be absent.
pub fn union_opt(span: Span, other: Option<Span>) -> (joined: Span)
    ensures
        joined == union_with(span, other),
{
    match other {
        Some(other) => span + other,
        None => span,
    }
}

/// The union of spans covers each of them.
pub proof fn lemma_union_all_covers(spans: Seq<Span>, fallback: Span, i: int)
    requires
        0 <= i < spans.len(),
    ensures
        union_all(spans, fallback).covers(spans[i]),
    decreases spans.len(),
{
    if spans.len() > 1 {
        if i < spans.len() - 1 {
            lemma_union_all_covers(spans.drop_last(), fallback, i);
        }
    }
}

/// Union does not depend on the order of its operands.
pub proof fn lemma_union_commutative(a: Span, b: Span)
    ensures
        a.union(b) == b.union(a),
{
}

/// Union may be regrouped freely.
pub proof fn lemma_union_associative(a: Span, b: Span, c: Span)
    ensures
        a.union(b).union(c) == a.union(b.union(c)),
{
}

/// The union of two well-formed spans is well formed and covers both.
pub proof fn lemma_union_covers(a: Span, b: Span)
    requires
        a.wf(),
        b.wf(),
    ensures
        a.union(b).wf(),
        a.union(b).covers(a),
        a.union(b).covers(b),
{
}

/// A resolved source position: 1-based line and column, and the byte
/// offsets that bound the line.
#[derive(Debug, Clone, Copy, PartialEq, Eq, Hash, Structural)]
pub struct Position {
    pub line: usize,
    pub column: usize,
    pub line_start: usize,
    pub line_end: usize,
}

impl Position {
    /// The position as text: line and column in decimal, with `:`
    /// between.
    pub open spec fn text(self) -> Seq<char> {
        decimal(self.line as nat) + seq![':'] + decimal(self.column as nat)
    }

    /// The position as text, such as `12:5`.
    pub fn to_string(&self) -> (text: String)
        ensures
            text@ == self.text(),
    {
        let mut text = String::new();
        push_decimal(&mut text, self.line);
        push_char(&mut text, ':');
        push_decimal(&mut text, self.column);
        proof {
            assert(text@ =~= self.text());
        }
        text
    }

    /// The position at `line` and `column` of the line `line_start..line_end`.
    pub fn new(line: usize, column: usize, line_start: usize, line_end: usize) -> (p: Position)
        ensures
            p == (Position { line, column, line_start, line_end }),
    {
        Position { line, column, line_start, line_end }
    }
}

/// Anything that knows the source range it was read from.
pub trait Spanned {
    /// The span, as a specification.
    spec fn spanned(&self) -> Span;

    /// The span.
    fn span(&self) -> (span: Span)
        ensures
            span == self.spanned(),
    ;
}

} // verus!
