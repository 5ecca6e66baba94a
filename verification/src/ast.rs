//! The syntax tree: handles, the context that owns the arenas, and blocks.
//!
//! Nodes refer to each other by handle. Each composite node stores the span
//! of its whole extent, computed once when the node is built: the union of
//! the spans of its children and of the tokens it holds itself.

use crate::entity_arena::EntityArena;
use crate::entity_arena::EntityList;
use crate::entity_arena::Handle;
use crate::expr::Expr;
use crate::expr::StructFieldExpr;
use crate::span::union_all;
use crate::span::Span;
use crate::span::Spanned;
use crate::ty::Type;
use cranelift_entity::packed_option::ReservedValue;
use cranelift_entity::EntityRef;
use vstd::prelude::*;

verus! {

/// The handle of an expression in the arena of expressions.
#[derive(Debug, Clone, Copy, PartialEq, Eq, Hash, Structural)]
pub struct ExprEntity(u32);

impl Handle for ExprEntity {
    closed spec fn raw(self) -> u32 {
        self.0
    }

    fn from_raw(raw: u32) -> (handle: ExprEntity) {
        ExprEntity(raw)
    }

    fn to_raw(self) -> (raw: u32) {
        self.0
    }

    proof fn lemma_same_raw(self, other: Self) {
    }
}

impl EntityRef for ExprEntity {
    fn new(index: usize) -> (handle: ExprEntity)
        ensures
            index <= u32::MAX ==> handle.raw() == index,
    {
        ExprEntity(index as u32)
    }

    fn index(self) -> (index: usize)
        ensures
            index == self.raw(),
    {
        self.0 as usize
    }
}

impl ReservedValue for ExprEntity {
    fn reserved_value() -> (handle: ExprEntity)
        ensures
            handle.raw() == u32::MAX,
    {
        ExprEntity(u32::MAX)
    }

    fn is_reserved_value(&self) -> (reserved: bool)
        ensures
            reserved == (self.raw() == u32::MAX),
    {
        self.0 == u32::MAX
    }
}

impl ExprEntity {
    /// The handle with index `x`.
    pub fn from_u32(x: u32) -> (handle: ExprEntity)
        ensures
            handle.raw() == x,
    {
        ExprEntity(x)
    }

    /// The index of the handle.
    pub fn as_u32(self) -> (x: u32)
        ensures
            x == self.raw(),
    {
        self.0
    }

    /// The handle whose bits are `x`.
    pub fn from_bits(x: u32) -> (handle: ExprEntity)
        ensures
            handle.raw() == x,
    {
        ExprEntity(x)
    }

    /// The bits of the handle.
    pub fn as_bits(self) -> (x: u32)
        ensures
            x == self.raw(),
    {
        self.0
    }
}

/// The handle of a type in the arena of types.
#[derive(Debug, Clone, Copy, PartialEq, Eq, Hash, Structural)]
pub struct TypeEntity(u32);

impl Handle for TypeEntity {
    closed spec fn raw(self) -> u32 {
        self.0
    }

    fn from_raw(raw: u32) -> (handle: TypeEntity) {
        TypeEntity(raw)
    }

    fn to_raw(self) -> (raw: u32) {
        self.0
    }

    proof fn lemma_same_raw(self, other: Self) {
    }
}

impl EntityRef for TypeEntity {
    fn new(index: usize) -> (handle: TypeEntity)
        ensures
            index <= u32::MAX ==> handle.raw() == index,
    {
        TypeEntity(index as u32)
    }

    fn index(self) -> (index: usize)
        ensures
            index == self.raw(),
    {
        self.0 as usize
    }
}

impl ReservedValue for TypeEntity {
    fn reserved_value() -> (handle: TypeEntity)
        ensures
            handle.raw() == u32::MAX,
    {
        TypeEntity(u32::MAX)
    }

    fn is_reserved_value(&self) -> (reserved: bool)
        ensures
            reserved == (self.raw() == u32::MAX),
    {
        self.0 == u32::MAX
    }
}

impl TypeEntity {
    /// The handle with index `x`.
    pub fn from_u32(x: u32) -> (handle: TypeEntity)
        ensures
            handle.raw() == x,
    {
        TypeEntity(x)
    }

    /// The index of the handle.
    pub fn as_u32(self) -> (x: u32)
        ensures
            x == self.raw(),
    {
        self.0
    }

    /// The handle whose bits are `x`.
    pub fn from_bits(x: u32) -> (handle: TypeEntity)
        ensures
            handle.raw() == x,
    {
        TypeEntity(x)
    }

    /// The bits of the handle.
    pub fn as_bits(self) -> (x: u32)
        ensures
            x == self.raw(),
    {
        self.0
    }
}

/// The handle of a field of a struct literal in the arena of fields.
#[derive(Debug, Clone, Copy, PartialEq, Eq, Hash, Structural)]
pub struct FieldEntity(u32);

impl Handle for FieldEntity {
    closed spec fn raw(self) -> u32 {
        self.0
    }

    fn from_raw(raw: u32) -> (handle: FieldEntity) {
        FieldEntity(raw)
    }

    fn to_raw(self) -> (raw: u32) {
        self.0
    }

    proof fn lemma_same_raw(self, other: Self) {
    }
}

impl EntityRef for FieldEntity {
    fn new(index: usize) -> (handle: FieldEntity)
        ensures
            index <= u32::MAX ==> handle.raw() == index,
    {
        FieldEntity(index as u32)
    }

    fn index(self) -> (index: usize)
        ensures
            index == self.raw(),
    {
        self.0 as usize
    }
}

impl ReservedValue for FieldEntity {
    fn reserved_value() -> (handle: FieldEntity)
        ensures
            handle.raw() == u32::MAX,
    {
        FieldEntity(u32::MAX)
    }

    fn is_reserved_value(&self) -> (reserved: bool)
        ensures
            reserved == (self.raw() == u32::MAX),
    {
        self.0 == u32::MAX
    }
}

impl FieldEntity {
    /// The handle with index `x`.
    pub fn from_u32(x: u32) -> (handle: FieldEntity)
        ensures
            handle.raw() == x,
    {
        FieldEntity(x)
    }

    /// The index of the handle.
    pub fn as_u32(self) -> (x: u32)
        ensures
            x == self.raw(),
    {
        self.0
    }

    /// The handle whose bits are `x`.
    pub fn from_bits(x: u32) -> (handle: FieldEntity)
        ensures
            handle.raw() == x,
    {
        FieldEntity(x)
    }

    /// The bits of the handle.
    pub fn as_bits(self) -> (x: u32)
        ensures
            x == self.raw(),
    {
        self.0
    }
}

/// The arenas of one compilation unit, one for each kind of node.
#[derive(Debug, Clone)]
pub struct AstCtx {
    pub exprs: EntityArena<ExprEntity, Expr>,
    pub field_exprs: EntityArena<FieldEntity, StructFieldExpr>,
    pub types: EntityArena<TypeEntity, Type>,
}

impl AstCtx {
    /// The three arenas are well formed.
    pub open spec fn wf(&self) -> bool {
        self.exprs.wf() && self.field_exprs.wf() && self.types.wf()
    }

    /// The span of the expression that `expr` names.
    pub open spec fn expr_span(&self, expr: ExprEntity) -> Span {
        self.exprs.span_at(expr.raw())
    }

    /// The union of the spans of the expressions in `list`, or `fallback`.
    pub open spec fn exprs_span(&self, list: EntityList<ExprEntity>, fallback: Span) -> Span {
        union_all(self.exprs.spans_at(self.exprs.items(list)), fallback)
    }

    /// The union of the spans of the types in `list`, or `fallback`.
    pub open spec fn types_span(&self, list: EntityList<TypeEntity>, fallback: Span) -> Span {
        union_all(self.types.spans_at(self.types.items(list)), fallback)
    }

    /// The union of the spans of the fields in `list`, or `fallback`.
    pub open spec fn fields_span(&self, list: EntityList<FieldEntity>, fallback: Span) -> Span {
        union_all(self.field_exprs.spans_at(self.field_exprs.items(list)), fallback)
    }

    /// Each of the three arenas is as `EntityArena::new` makes it.
    pub open spec fn holds_nothing(&self) -> bool {
        self.exprs.holds_nothing() && self.field_exprs.holds_nothing()
            && self.types.holds_nothing()
    }

    /// A context whose arenas are empty.
    pub fn new() -> (ctx: AstCtx)
        ensures
            ctx.holds_nothing(),
    {
        AstCtx { exprs: EntityArena::new(), field_exprs: EntityArena::new(), types: EntityArena::new() }
    }
}

impl Default for AstCtx {
    /// A context whose arenas are empty, as `new` makes it.
    fn default() -> (ctx: AstCtx)
        ensures
            ctx.holds_nothing(),
    {
        AstCtx::new()
    }
}

/// A block: a list of expressions between delimiters.
#[derive(Debug, Clone, Copy, PartialEq, Eq)]
pub struct Block {
    pub exprs: EntityList<ExprEntity>,
    pub span: Span,
}

impl Block {
    /// A block of the expressions in `exprs`. Its span is the union of
    /// their spans; an empty block takes `fallback`, which is meant to be
    /// the span of its delimiters.
    pub fn new(ctx: &AstCtx, exprs: EntityList<ExprEntity>, fallback: Span) -> (block: Block)
        requires
            ctx.exprs.wf(),
            ctx.exprs.holds(exprs),
        ensures
            block == (Block { exprs, span: ctx.exprs_span(exprs, fallback) }),
    {
        Block { exprs, span: ctx.exprs.list_span(exprs, fallback) }
    }
}

impl Spanned for Block {
    open spec fn spanned(&self) -> Span {
        self.span
    }

    fn span(&self) -> (span: Span) {
        assert(self.spanned() == self.span);
        self.span
    }
}

} // verus!
