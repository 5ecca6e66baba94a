//! Byte positions in UTF-8 text.
//!
//! Source text is a `&str`; spans and cursors address it by byte offset.
//! This module relates byte offsets to the characters that start there.

use vstd::prelude::*;
use vstd::string::StrSliceExecFns;
use vstd::string::StringSliceAdditionalSpecFns;
use vstd::utf8::*;

verus! {

/// The bytes of `bytes` from `pos` to the end.
pub open spec fn suffix(bytes: Seq<u8>, pos: int) -> Seq<u8> {
    bytes.subrange(pos, bytes.len() as int)
}

/// `pos` is an offset at which a character starts, or the end of the text.
pub open spec fn is_position(bytes: Seq<u8>, pos: int) -> bool {
    0 <= pos <= bytes.len() && is_char_boundary(bytes, pos)
}

/// The character whose encoding starts at byte `pos`.
pub open spec fn char_at(bytes: Seq<u8>, pos: int) -> char {
    decode_first_scalar(suffix(bytes, pos)) as char
}

/// The number of bytes of the character that starts at byte `pos`.
pub open spec fn width_at(bytes: Seq<u8>, pos: int) -> int {
    length_of_first_scalar(suffix(bytes, pos))
}

/// The offset just behind the character that starts at byte `pos`.
pub open spec fn next_pos(bytes: Seq<u8>, pos: int) -> int {
    pos + width_at(bytes, pos)
}

/// Number of bytes from `pos` to the end of the text.
pub open spec fn remaining(bytes: Seq<u8>, pos: int) -> nat {
    if pos < bytes.len() {
        (bytes.len() - pos) as nat
    } else {
        0
    }
}

/// The characters encoded by the bytes `from..to`.
pub open spec fn text_between(bytes: Seq<u8>, from: int, to: int) -> Seq<char> {
    decode_utf8(bytes.subrange(from, to))
}

/// The characters from `pos` to the end of the text.
pub open spec fn text_from(bytes: Seq<u8>, pos: int) -> Seq<char> {
    decode_utf8(suffix(bytes, pos))
}

/// A byte that starts a character is not a continuation byte.
proof fn lemma_leading_not_continuation(bytes: Seq<u8>)
    requires
        valid_first_scalar(bytes),
    ensures
        bytes.len() > 0,
        !is_continuation_byte(bytes[0]),
        length_of_first_scalar(bytes) <= bytes.len(),
{
}

/// Stepping over the character at a position leads to a position, and
/// splits the remaining text into that character and the rest.
pub proof fn lemma_step(bytes: Seq<u8>, pos: int)
    requires
        valid_utf8(bytes),
        is_position(bytes, pos),
        pos < bytes.len(),
    ensures
        1 <= width_at(bytes, pos) <= 4,
        is_position(bytes, next_pos(bytes, pos)),
        bytes.subrange(pos, next_pos(bytes, pos)) == encode_scalar(char_at(bytes, pos) as u32),
        text_from(bytes, pos) == seq![char_at(bytes, pos)] + text_from(bytes, next_pos(bytes, pos)),
        text_from(bytes, pos).len() > 0,
        text_from(bytes, pos)[0] == char_at(bytes, pos),
{
    let rest = suffix(bytes, pos);
    let w = width_at(bytes, pos);
    valid_utf8_split(bytes, pos);
    assert(valid_utf8(rest));
    assert(valid_first_scalar(rest));
    lemma_leading_not_continuation(rest);
    let tail = pop_first_scalar(rest);
    assert(tail == suffix(bytes, pos + w));
    assert(valid_utf8(tail));
    if pos + w < bytes.len() {
        assert(valid_first_scalar(tail));
        lemma_leading_not_continuation(tail);
        assert(tail[0] == bytes[pos + w]);
        is_char_boundary_iff_not_is_continuation_byte(bytes, pos + w);
    } else {
        is_char_boundary_start_end_of_seq(bytes);
    }
    decode_utf8_first_scalar(rest);
    assert(take_first_scalar(rest) == bytes.subrange(pos, pos + w));
}

/// No character starts inside another.
pub proof fn lemma_inside_char(bytes: Seq<u8>, pos: int, at: int)
    requires
        valid_utf8(bytes),
        is_position(bytes, pos),
        pos < bytes.len(),
        pos < at < next_pos(bytes, pos),
    ensures
        !is_position(bytes, at),
{
    lemma_step(bytes, pos);
    valid_utf8_split(bytes, pos);
    is_char_boundary_iff_not_is_continuation_byte(bytes, at);
}

/// The offset at which the character that ends at `pos` starts: behind
/// the continuation bytes that lie before `pos`, at most three.
pub open spec fn prev_pos(bytes: Seq<u8>, pos: int) -> int {
    pos - length_of_last_scalar(bytes.subrange(0, pos))
}

/// Some character ends at every position but the first: a position that
/// is not before `from` is reached from `from` by stepping over characters.
proof fn lemma_reached(bytes: Seq<u8>, from: int, pos: int) -> (before: int)
    requires
        valid_utf8(bytes),
        is_position(bytes, from),
        is_position(bytes, pos),
        from < pos,
    ensures
        from <= before < pos,
        is_position(bytes, before),
        next_pos(bytes, before) == pos,
    decreases pos - from,
{
    lemma_step(bytes, from);
    let behind = next_pos(bytes, from);
    if behind == pos {
        from
    } else {
        if pos < behind {
            lemma_inside_char(bytes, from, pos);
        }
        lemma_reached(bytes, behind, pos)
    }
}

/// Stepping back from a position that is not the first leads to the
/// position of the character that ends there.
pub proof fn lemma_step_back(bytes: Seq<u8>, pos: int)
    requires
        valid_utf8(bytes),
        is_position(bytes, pos),
        0 < pos,
    ensures
        0 <= prev_pos(bytes, pos) < pos,
        is_position(bytes, prev_pos(bytes, pos)),
        next_pos(bytes, prev_pos(bytes, pos)) == pos,
        forall|at: int| prev_pos(bytes, pos) < at < pos ==> is_continuation_byte(#[trigger] bytes[at]),
        !is_continuation_byte(bytes[prev_pos(bytes, pos)]),
{
    is_char_boundary_start_end_of_seq(bytes);
    let before = lemma_reached(bytes, 0, pos);
    lemma_step(bytes, before);
    is_char_boundary_iff_not_is_continuation_byte(bytes, before);
    assert forall|at: int| before < at < pos implies is_continuation_byte(#[trigger] bytes[at]) by {
        lemma_inside_char(bytes, before, at);
        is_char_boundary_iff_not_is_continuation_byte(bytes, at);
    }
    let head = bytes.subrange(0, pos);
    assert(forall|k: int| 0 <= k < pos ==> head[k] == bytes[k]);
    if pos - before >= 2 {
        assert(is_continuation_byte(bytes[pos - 1]));
    }
    if pos - before >= 3 {
        assert(is_continuation_byte(bytes[pos - 2]));
    }
    if pos - before >= 4 {
        assert(is_continuation_byte(bytes[pos - 3]));
    }
    assert(prev_pos(bytes, pos) == before);
}

/// Stepping over a character and back leads to where the character
/// starts.
pub proof fn lemma_back_and_forth(bytes: Seq<u8>, pos: int)
    requires
        valid_utf8(bytes),
        is_position(bytes, pos),
        pos < bytes.len(),
    ensures
        prev_pos(bytes, next_pos(bytes, pos)) == pos,
{
    lemma_step(bytes, pos);
    let behind = next_pos(bytes, pos);
    lemma_step_back(bytes, behind);
    let before = prev_pos(bytes, behind);
    if before < pos {
        lemma_inside_char(bytes, before, pos);
    } else if pos < before {
        lemma_inside_char(bytes, pos, before);
    }
}

/// The text between a position and the next is the one character there.
pub proof fn lemma_text_one(bytes: Seq<u8>, pos: int)
    requires
        valid_utf8(bytes),
        is_position(bytes, pos),
        pos < bytes.len(),
    ensures
        text_between(bytes, pos, next_pos(bytes, pos)) == seq![char_at(bytes, pos)],
{
    lemma_step(bytes, pos);
    let c = char_at(bytes, pos);
    let one = seq![c];
    assert(one.drop_first() =~= Seq::<char>::empty());
    assert(encode_utf8(one) =~= encode_scalar(c as u32)) by {
        reveal_with_fuel(encode_utf8, 2);
    }
    encode_utf8_decode_utf8(one);
}

/// Text that starts at a position is the character there and the text
/// behind it.
pub proof fn lemma_text_between_step(bytes: Seq<u8>, pos: int, to: int)
    requires
        valid_utf8(bytes),
        is_position(bytes, pos),
        is_position(bytes, to),
        pos < to,
    ensures
        next_pos(bytes, pos) <= to,
        text_between(bytes, pos, to) == seq![char_at(bytes, pos)] + text_between(
            bytes,
            next_pos(bytes, pos),
            to,
        ),
{
    lemma_step(bytes, pos);
    let behind = next_pos(bytes, pos);
    if to < behind {
        valid_utf8_split(bytes, pos);
        is_char_boundary_iff_not_is_continuation_byte(bytes, to);
        assert(false);
    }
    lemma_text_one(bytes, pos);
    lemma_text_between_split(bytes, pos, behind, to);
}

/// The only position from which no text remains is the end.
pub proof fn lemma_text_from_end(bytes: Seq<u8>)
    ensures
        text_from(bytes, bytes.len() as int) == Seq::<char>::empty(),
{
    assert(suffix(bytes, bytes.len() as int).len() == 0);
}

/// Text between two positions splits at any position in between.
pub proof fn lemma_text_between_split(bytes: Seq<u8>, from: int, mid: int, to: int)
    requires
        valid_utf8(bytes),
        is_position(bytes, from),
        is_position(bytes, mid),
        is_position(bytes, to),
        from <= mid <= to,
    ensures
        text_between(bytes, from, to) == text_between(bytes, from, mid) + text_between(
            bytes,
            mid,
            to,
        ),
{
    lemma_piece_valid(bytes, from, to);
    let piece = bytes.subrange(from, to);
    lemma_position_in_piece(bytes, from, to, mid);
    decode_utf8_split(piece, mid - from);
    assert(piece.subrange(0, mid - from) == bytes.subrange(from, mid));
    assert(piece.subrange(mid - from, piece.len() as int) == bytes.subrange(mid, to));
}

/// The bytes between two positions are themselves well-formed text.
pub proof fn lemma_piece_valid(bytes: Seq<u8>, from: int, to: int)
    requires
        valid_utf8(bytes),
        is_position(bytes, from),
        is_position(bytes, to),
        from <= to,
    ensures
        valid_utf8(bytes.subrange(from, to)),
{
    valid_utf8_split(bytes, to);
    let head = bytes.subrange(0, to);
    lemma_position_in_prefix(bytes, to, from);
    valid_utf8_split(head, from);
    assert(head.subrange(from, head.len() as int) == bytes.subrange(from, to));
}

/// A position of the text is a position of every prefix that reaches it.
pub proof fn lemma_position_in_prefix(bytes: Seq<u8>, to: int, pos: int)
    requires
        valid_utf8(bytes),
        is_position(bytes, to),
        is_position(bytes, pos),
        pos <= to,
    ensures
        is_position(bytes.subrange(0, to), pos),
{
    valid_utf8_split(bytes, to);
    let head = bytes.subrange(0, to);
    if pos == to {
        is_char_boundary_start_end_of_seq(head);
    } else {
        is_char_boundary_iff_not_is_continuation_byte(bytes, pos);
        is_char_boundary_iff_not_is_continuation_byte(head, pos);
    }
}

/// A position of the text is a position of every piece that holds it.
pub proof fn lemma_position_in_piece(bytes: Seq<u8>, from: int, to: int, pos: int)
    requires
        valid_utf8(bytes),
        is_position(bytes, from),
        is_position(bytes, to),
        is_position(bytes, pos),
        from <= pos <= to,
    ensures
        is_position(bytes.subrange(from, to), pos - from),
{
    lemma_piece_valid(bytes, from, to);
    let piece = bytes.subrange(from, to);
    if pos == to {
        is_char_boundary_start_end_of_seq(piece);
    } else {
        is_char_boundary_iff_not_is_continuation_byte(bytes, pos);
        is_char_boundary_iff_not_is_continuation_byte(piece, pos - from);
    }
}

/// The offset behind an ASCII byte that starts a character is a position.
pub proof fn lemma_position_after_ascii(bytes: Seq<u8>, pos: int)
    requires
        valid_utf8(bytes),
        0 <= pos < bytes.len(),
        bytes[pos] < 0x80,
    ensures
        is_position(bytes, pos),
        is_position(bytes, pos + 1),
        width_at(bytes, pos) == 1,
{
    is_char_boundary_iff_not_is_continuation_byte(bytes, pos);
    assert(suffix(bytes, pos)[0] == bytes[pos]);
    lemma_step(bytes, pos);
}

/// Text has no more characters than bytes.
pub proof fn lemma_text_len_bounded(bytes: Seq<u8>)
    requires
        valid_utf8(bytes),
    ensures
        decode_utf8(bytes).len() <= bytes.len(),
    decreases bytes.len(),
{
    if bytes.len() > 0 {
        lemma_leading_not_continuation(bytes);
        lemma_text_len_bounded(pop_first_scalar(bytes));
    }
}

/// The bytes of a `str` are well-formed text, and its characters are what
/// they decode to.
pub proof fn lemma_str_bytes(s: &str)
    ensures
        valid_utf8(s.spec_bytes()),
        s@ == decode_utf8(s.spec_bytes()),
        is_position(s.spec_bytes(), 0),
        is_position(s.spec_bytes(), s.spec_bytes().len() as int),
{
    encode_utf8_valid_utf8(s@);
    encode_utf8_decode_utf8(s@);
    is_char_boundary_start_end_of_seq(s.spec_bytes());
}

/// Calls `String::push`: `c` is added behind the last character of `text`.
#[verifier::external_body]
pub(crate) fn push_char(text: &mut String, c: char)
    ensures
        final(text)@ == old(text)@.push(c),
{
    text.push(c);
}

/// Number of bytes in `content`.
pub fn byte_len(content: &str) -> (len: usize)
    ensures
        len == content.spec_bytes().len(),
{
    content.as_bytes().len()
}

/// Number of bytes that `c` takes in UTF-8.
pub fn utf8_width(c: char) -> (w: usize)
    ensures
        w == encode_scalar(c as u32).len(),
        1 <= w <= 4,
{
    let v: u32 = c as u32;
    if v < 0x80 {
        1
    } else if v < 0x800 {
        2
    } else if v < 0x10000 {
        3
    } else {
        4
    }
}

/// The character that starts at byte `pos` of `content`.
pub fn char_at_pos(content: &str, pos: usize) -> (c: char)
    requires
        is_position(content.spec_bytes(), pos as int),
        pos < content.spec_bytes().len(),
    ensures
        c == char_at(content.spec_bytes(), pos as int),
{
    let (_, rest) = content.split_at(pos);
    proof {
        lemma_str_bytes(content);
        lemma_str_bytes(rest);
        lemma_step(content.spec_bytes(), pos as int);
        assert(rest.spec_bytes() == suffix(content.spec_bytes(), pos as int));
    }
    rest.get_char(0)
}

/// The offset at which the character that ends at `pos` starts.
pub fn char_start_before(content: &str, pos: usize) -> (start: usize)
    requires
        is_position(content.spec_bytes(), pos as int),
        0 < pos,
    ensures
        start == prev_pos(content.spec_bytes(), pos as int),
{
    let bytes = content.as_bytes();
    proof {
        lemma_str_bytes(content);
        lemma_step_back(bytes@, pos as int);
    }
    let mut start: usize = pos - 1;
    while start > 0 && bytes[start] >= 0x80 && bytes[start] <= 0xbf
        invariant
            prev_pos(bytes@, pos as int) <= start < pos <= bytes@.len(),
            !is_continuation_byte(bytes@[prev_pos(bytes@, pos as int)]),
            forall|at: int|
                prev_pos(bytes@, pos as int) < at < pos ==> is_continuation_byte(
                    #[trigger] bytes@[at],
                ),
        decreases start,
    {
        start = start - 1;
    }
    start
}

/// True when `a` and `b` hold the same text.
pub fn text_eq(a: &str, b: &str) -> (same: bool)
    ensures
        same == (a@ == b@),
{
    let x = a.as_bytes();
    let y = b.as_bytes();
    proof {
        lemma_str_bytes(a);
        lemma_str_bytes(b);
    }
    if x.len() != y.len() {
        return false;
    }
    let mut i: usize = 0;
    while i < x.len()
        invariant
            i <= x@.len(),
            x@.len() == y@.len(),
            x@ == a.spec_bytes(),
            y@ == b.spec_bytes(),
            forall|j: int| 0 <= j < i ==> x@[j] == y@[j],
        decreases x@.len() - i,
    {
        if x[i] != y[i] {
            return false;
        }
        i = i + 1;
    }
    proof {
        assert(x@ =~= y@);
    }
    true
}

/// The part of `content` between two positions.
pub fn slice_between<'a>(content: &'a str, from: usize, to: usize) -> (piece: &'a str)
    requires
        is_position(content.spec_bytes(), from as int),
        is_position(content.spec_bytes(), to as int),
        from <= to,
    ensures
        piece.spec_bytes() == content.spec_bytes().subrange(from as int, to as int),
        piece@ == text_between(content.spec_bytes(), from as int, to as int),
{
    proof {
        lemma_str_bytes(content);
        lemma_position_in_prefix(content.spec_bytes(), to as int, from as int);
    }
    let (head, _) = content.split_at(to);
    let (_, piece) = head.split_at(from);
    proof {
        lemma_str_bytes(piece);
        assert(piece.spec_bytes() == content.spec_bytes().subrange(from as int, to as int));
    }
    piece
}

} // verus!
