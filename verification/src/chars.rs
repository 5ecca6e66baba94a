//! Classes of characters that the tokenizer tells apart.

use crate::token::Base;
use unicode_xid::UnicodeXID;
use vstd::prelude::*;

verus! {

/// Whether `c` has the Unicode property `White_Space`, as
/// `char::is_whitespace` reports it.
pub uninterp spec fn whitespace(c: char) -> bool;

/// Whether `c` has the Unicode property `XID_Start`, as the `unicode-xid`
/// tables report it.
pub uninterp spec fn xid_start(c: char) -> bool;

/// Whether `c` has the Unicode property `XID_Continue`, as the
/// `unicode-xid` tables report it.
pub uninterp spec fn xid_continue(c: char) -> bool;

/// True for the letters `a` to `z` and `A` to `Z`.
pub open spec fn ascii_letter(c: char) -> bool {
    ('a' <= c <= 'z') || ('A' <= c <= 'Z')
}

/// True for the space and for U+0009 to U+000D, tab to carriage return:
/// the characters below U+0080 that have the property `White_Space`.
pub open spec fn ascii_whitespace(c: char) -> bool {
    c == ' ' || ('\t' <= c <= '\r')
}

/// True for the digits `0` to `9`.
pub open spec fn ascii_digit(c: char) -> bool {
    '0' <= c <= '9'
}

/// Calls `char::is_whitespace`. The result is the `White_Space` property of
/// `c`. Below U+0080 that property belongs to the space and to U+0009
/// through U+000D, and to nothing else; of the characters from U+0080 on
/// nothing more is claimed.
#[verifier::external_body]
pub(crate) fn is_whitespace(c: char) -> (b: bool)
    ensures
        b == whitespace(c),
        c <= '\x7f' ==> b == ascii_whitespace(c),
{
    c.is_whitespace()
}

/// Calls `UnicodeXID::is_xid_start` of `unicode-xid`. The result is the
/// `XID_Start` property of `c`. Below U+0080 the function does not consult
/// its tables: there it accepts the ASCII letters and nothing else.
#[verifier::external_body]
pub(crate) fn is_xid_start(c: char) -> (b: bool)
    ensures
        b == xid_start(c),
        c <= '\x7f' ==> b == ascii_letter(c),
{
    UnicodeXID::is_xid_start(c)
}

/// Calls `UnicodeXID::is_xid_continue` of `unicode-xid`. The result is the
/// `XID_Continue` property of `c`. Below U+0080 the function does not
/// consult its tables: there it accepts the ASCII letters, the digits and
/// the underscore, and nothing else.
#[verifier::external_body]
pub(crate) fn is_xid_continue(c: char) -> (b: bool)
    ensures
        b == xid_continue(c),
        c <= '\x7f' ==> b == (ascii_letter(c) || ascii_digit(c) || c == '_'),
{
    UnicodeXID::is_xid_continue(c)
}

/// True for the digits `0` to `9`.
pub fn is_ascii_digit(c: char) -> (b: bool)
    ensures
        b == ascii_digit(c),
{
    '0' <= c && c <= '9'
}

/// The classes of characters that are read in runs.
#[derive(Debug, Clone, Copy, PartialEq, Eq, Structural)]
pub enum CharClass {
    /// White space between tokens.
    Whitespace,
    /// The digits of a radix, and the underscore that may separate them.
    Digit(Base),
    /// The characters that continue an identifier.
    IdentContinue,
}

impl CharClass {
    /// True when `c` belongs to the class, as a specification.
    pub open spec fn holds(self, c: char) -> bool {
        match self {
            CharClass::Whitespace => whitespace(c),
            CharClass::Digit(base) => base.accepts(c) || c == '_',
            CharClass::IdentContinue => xid_continue(c),
        }
    }

    /// True when `c` belongs to the class.
    pub fn contains(self, c: char) -> (b: bool)
        ensures
            b == self.holds(c),
    {
        match self {
            CharClass::Whitespace => is_whitespace(c),
            CharClass::Digit(base) => base.is_valid_digit(c) || c == '_',
            CharClass::IdentContinue => is_xid_continue(c),
        }
    }
}

/// True when `c` may start an identifier: a character with `XID_Start`, or
/// the underscore.
pub open spec fn ident_start(c: char) -> bool {
    xid_start(c) || c == '_'
}

/// True when `c` may start an identifier.
pub fn is_ident_start(c: char) -> (b: bool)
    ensures
        b == ident_start(c),
{
    is_xid_start(c) || c == '_'
}

} // verus!
