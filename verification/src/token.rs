//! Tokens and what they carry.

use crate::span::Span;
use crate::text::is_position;
use crate::text::text_between;
use vstd::prelude::*;
use vstd::string::StringSliceAdditionalSpecFns;

verus! {

/// The class of a token.
#[derive(Debug, Clone, Copy, PartialEq, Eq, Structural)]
pub enum TokenKind {
    Int,
    Str,
    Ident,
    Add,
    Sub,
    Mul,
    Div,
    Eq,
    Asgmt,
    Neq,
    Lt,
    LtEq,
    Gt,
    GtEq,
    And,
    Or,
    BitOr,
    BitAnd,
    BitXor,
    BitShr,
    BitShl,
    Comma,
    LeftParen,
    RightParen,
    LeftBrace,
    RightBrace,
    LeftSquare,
    RightSquare,
    Semicolon,
    Colon,
    DoubleColon,
    FuncKw,
    TraitKw,
    ImplKw,
    StructKw,
    WhileKw,
    LetKw,
    ForKw,
    IfKw,
    ElseKw,
    ReturnKw,
}

/// The literal payload of a token.
#[derive(Debug, Clone)]
pub enum TokenData {
    /// The value of a numeric literal.
    Number(u64),
    /// The decoded content of a string literal.
    String(String),
}

/// The radix of a numeric literal.
#[derive(Debug, Clone, Copy, PartialEq, Eq, Structural)]
pub enum Base {
    Hexadecimal,
    Decimal,
    Octal,
    Binary,
}

/// A classified piece of source text.
#[derive(Debug, Clone)]
pub struct Token<'s> {
    pub span: Span,
    pub slice: &'s str,
    pub kind: TokenKind,
    pub data: Option<TokenData>,
}

/// The value of `c` as a digit in `radix`, for a radix up to 36: `0` to `9`
/// count 0 to 9, and the letters `a` to `z`, in either case, count 10 to
/// 35. A character whose value is not below the radix is no digit.
pub open spec fn digit_value(c: char, radix: u32) -> Option<u32> {
    let v = if '0' <= c <= '9' {
        Some((c as u32 - '0' as u32) as u32)
    } else if 'a' <= c <= 'z' {
        Some((c as u32 - 'a' as u32 + 10) as u32)
    } else if 'A' <= c <= 'Z' {
        Some((c as u32 - 'A' as u32 + 10) as u32)
    } else {
        None
    };
    match v {
        Some(d) if d < radix => Some(d),
        _ => None,
    }
}

/// The value of `c` as a digit in `radix`, if it is one.
pub fn to_digit(c: char, radix: u32) -> (d: Option<u32>)
    ensures
        d == digit_value(c, radix),
{
    let v: u32 = c as u32;
    let d: u32 = if v >= 0x30 && v <= 0x39 {
        v - 0x30
    } else if v >= 0x61 && v <= 0x7a {
        v - 0x61 + 10
    } else if v >= 0x41 && v <= 0x5a {
        v - 0x41 + 10
    } else {
        return None;
    };
    if d < radix {
        Some(d)
    } else {
        None
    }
}

impl Base {
    /// The radix, as a specification.
    pub open spec fn spec_radix(self) -> u32 {
        match self {
            Base::Hexadecimal => 16,
            Base::Decimal => 10,
            Base::Octal => 8,
            Base::Binary => 2,
        }
    }

    /// True when `c` is a digit of this radix, as a specification.
    pub open spec fn accepts(self, c: char) -> bool {
        digit_value(c, self.spec_radix()) is Some
    }

    /// True when `c` is a digit of this radix.
    pub fn is_valid_digit(self, c: char) -> (b: bool)
        ensures
            b == self.accepts(c),
    {
        to_digit(c, self.radix()).is_some()
    }

    /// The radix: 16, 10, 8 or 2.
    pub fn radix(self) -> (r: u32)
        ensures
            r == self.spec_radix(),
    {
        match self {
            Base::Hexadecimal => 16,
            Base::Decimal => 10,
            Base::Octal => 8,
            Base::Binary => 2,
        }
    }
}

impl<'s> Token<'s> {
    /// The token was read from the text `bytes`: its span is a non-empty
    /// range between two positions of the text, and its slice is the text
    /// in that range.
    pub open spec fn reads(&self, bytes: Seq<u8>) -> bool {
        &&& self.span.start < self.span.end <= bytes.len()
        &&& is_position(bytes, self.span.start as int)
        &&& is_position(bytes, self.span.end as int)
        &&& self.slice.spec_bytes() == bytes.subrange(self.span.start as int, self.span.end as int)
        &&& self.slice@ == text_between(bytes, self.span.start as int, self.span.end as int)
    }

    /// A token without a payload.
    pub fn new(span: Span, slice: &'s str, kind: TokenKind) -> (token: Token<'s>)
        ensures
            token.span == span,
            token.slice == slice,
            token.kind == kind,
            token.data is None,
    {
        Token { span, slice, kind, data: None }
    }

    /// The same token, carrying `data`.
    pub fn with_data(self, data: TokenData) -> (token: Token<'s>)
        ensures
            token.span == self.span,
            token.slice == self.slice,
            token.kind == self.kind,
            token.data == Some(data),
    {
        let mut token = self;
        token.data = Some(data);
        token
    }

    /// True when the token carries the value of a numeric literal.
    pub open spec fn has_number(&self) -> bool {
        self.data matches Some(TokenData::Number(_))
    }

    /// True when the token carries the content of a string literal.
    pub open spec fn has_string(&self) -> bool {
        self.data matches Some(TokenData::String(_))
    }

    /// The value of a numeric literal.
    pub fn number(&self) -> (value: u64)
        requires
            self.has_number(),
        ensures
            self.data matches Some(TokenData::Number(v)) && v == value,
    {
        match &self.data {
            Some(TokenData::Number(value)) => *value,
            _ => 0,
        }
    }

    /// The decoded content of a string literal.
    pub fn string(&self) -> (content: &str)
        requires
            self.has_string(),
        ensures
            self.data matches Some(TokenData::String(s)) && s@ == content@,
    {
        match &self.data {
            Some(TokenData::String(value)) => value.as_str(),
            _ => "",
        }
    }
}

} // verus!
