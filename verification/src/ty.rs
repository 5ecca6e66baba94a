//! Type nodes.

use crate::ast::AstCtx;
use crate::ast::TypeEntity;
use crate::entity_arena::EntityList;
use crate::interner::StrId;
use crate::span::Span;
use crate::span::Spanned;
use vstd::prelude::*;

verus! {

/// A type as written in the source.
#[derive(Debug, Clone, Copy, PartialEq, Eq)]
pub struct Type {
    pub kind: TypeKind,
    pub span: Span,
}

/// The forms of a type.
#[derive(Debug, Clone, Copy, PartialEq, Eq)]
pub enum TypeKind {
    /// A named type with its arguments.
    Named { name: StrId, args: EntityList<TypeEntity> },
    /// The unit type.
    Unit,
}

impl Type {
    /// A named type, spanning its name at `name_span` and its arguments.
    pub fn named(ctx: &AstCtx, name: StrId, name_span: Span, args: EntityList<TypeEntity>) -> (node:
        Type)
        requires
            ctx.types.wf(),
            ctx.types.holds(args),
        ensures
            node == (Type {
                kind: TypeKind::Named { name, args },
                span: name_span.union(ctx.types_span(args, name_span)),
            }),
    {
        Type {
            kind: TypeKind::Named { name, args },
            span: name_span + ctx.types.list_span(args, name_span),
        }
    }

    /// The unit type, written at `span`.
    pub fn unit(span: Span) -> (node: Type)
        ensures
            node == (Type { kind: TypeKind::Unit, span }),
    {
        Type { kind: TypeKind::Unit, span }
    }
}

impl Spanned for Type {
    open spec fn spanned(&self) -> Span {
        self.span
    }

    fn span(&self) -> (span: Span) {
        assert(self.spanned() == self.span);
        self.span
    }
}

} // verus!
