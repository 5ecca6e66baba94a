//! Choosing the field that holds the span of a node.
//!
//! A node type names its span by marking one of its fields. This module
//! decides, from the kind of the item and the marks on its fields, which
//! field that is, or why there is none.

use vstd::prelude::*;

verus! {

/// The kind of item that a span accessor is asked for.
#[derive(Debug, Clone, Copy, PartialEq, Eq, Structural)]
pub enum ItemKind {
    Struct,
    Enum,
    Union,
}

/// Why an item gets no span accessor.
#[derive(Debug, Clone, Copy, PartialEq, Eq, Structural)]
pub enum ExpandError {
    /// The item is an enum.
    EnumNotSupported,
    /// The item is a union.
    UnionNotSupported,
    /// More than one field is marked.
    TooManySpanFields,
    /// No field is marked.
    NoSpanField,
}

/// Number of marked fields.
pub open spec fn marked_count(marks: Seq<bool>) -> nat
    decreases marks.len(),
{
    if marks.len() == 0 {
        0
    } else {
        marked_count(marks.drop_last()) + if marks.last() {
            1nat
        } else {
            0nat
        }
    }
}

/// The message of each error.
pub open spec fn expand_message(error: ExpandError) -> &'static str {
    match error {
        ExpandError::EnumNotSupported => "enums are not supported",
        ExpandError::UnionNotSupported => "unions are not supported",
        ExpandError::TooManySpanFields => "struct can have only one field marked with #[span]",
        ExpandError::NoSpanField => "struct must have one field marked with #[span]",
    }
}

impl ExpandError {
    /// The message of the error.
    pub fn message(&self) -> (text: &'static str)
        ensures
            text == expand_message(*self),
    {
        match self {
            ExpandError::EnumNotSupported => "enums are not supported",
            ExpandError::UnionNotSupported => "unions are not supported",
            ExpandError::TooManySpanFields => "struct can have only one field marked with #[span]",
            ExpandError::NoSpanField => "struct must have one field marked with #[span]",
        }
    }
}

/// The field of a struct that holds its span: the one marked field.
pub fn expand_struct(marks: &[bool]) -> (field: Result<usize, ExpandError>)
    ensures
        marked_count(marks@) == 0 ==> field == Err::<usize, ExpandError>(ExpandError::NoSpanField),
        marked_count(marks@) > 1 ==> field == Err::<usize, ExpandError>(
            ExpandError::TooManySpanFields,
        ),
        marked_count(marks@) == 1 ==> (field matches Ok(i) && i < marks@.len() && marks@[i as int]
            && forall|j: int| 0 <= j < marks@.len() && j != i ==> !marks@[j]),
{
    let mut found: Option<usize> = None;
    let mut i: usize = 0;
    while i < marks.len()
        invariant
            i <= marks@.len(),
            marked_count(marks@.take(i as int)) <= 1,
            found is None <==> marked_count(marks@.take(i as int)) == 0,
            found matches Some(at) ==> at < i && marks@[at as int] && forall|j: int|
                0 <= j < i && j != at ==> !marks@[j],
            found is None ==> forall|j: int| 0 <= j < i ==> !marks@[j],
        decreases marks@.len() - i,
    {
        proof {
            assert(marks@.take(i + 1).drop_last() =~= marks@.take(i as int));
        }
        if marks[i] {
            if found.is_some() {
                proof {
                    lemma_marked_count_grows(marks@, i + 1);
                }
                return Err(ExpandError::TooManySpanFields);
            }
            found = Some(i);
        }
        i = i + 1;
    }
    proof {
        assert(marks@.take(marks@.len() as int) =~= marks@);
    }
    match found {
        Some(at) => Ok(at),
        None => Err(ExpandError::NoSpanField),
    }
}

/// The field that holds the span of an item. Only a struct has one.
pub fn expand(kind: ItemKind, marks: &[bool]) -> (field: Result<usize, ExpandError>)
    ensures
        kind == ItemKind::Enum ==> field == Err::<usize, ExpandError>(
            ExpandError::EnumNotSupported,
        ),
        kind == ItemKind::Union ==> field == Err::<usize, ExpandError>(
            ExpandError::UnionNotSupported,
        ),
        kind == ItemKind::Struct && marked_count(marks@) == 0 ==> field == Err::<usize, ExpandError>(
            ExpandError::NoSpanField,
        ),
        kind == ItemKind::Struct && marked_count(marks@) > 1 ==> field == Err::<usize, ExpandError>(
            ExpandError::TooManySpanFields,
        ),
        kind == ItemKind::Struct && marked_count(marks@) == 1 ==> (field matches Ok(i) && i
            < marks@.len() && marks@[i as int] && forall|j: int|
            0 <= j < marks@.len() && j != i ==> !marks@[j]),
{
    match kind {
        ItemKind::Struct => expand_struct(marks),
        ItemKind::Enum => Err(ExpandError::EnumNotSupported),
        ItemKind::Union => Err(ExpandError::UnionNotSupported),
    }
}

/// A longer prefix has no fewer marked fields.
proof fn lemma_marked_count_grows(marks: Seq<bool>, n: int)
    requires
        0 <= n <= marks.len(),
    ensures
        marked_count(marks.take(n)) <= marked_count(marks),
    decreases marks.len() - n,
{
    if n < marks.len() {
        assert(marks.take(n + 1).drop_last() =~= marks.take(n));
        lemma_marked_count_grows(marks, n + 1);
    } else {
        assert(marks.take(n) =~= marks);
    }
}

} // verus!
