//! Expression nodes.

use crate::ast::AstCtx;
use crate::ast::Block;
use crate::ast::ExprEntity;
use crate::ast::FieldEntity;
use crate::ast::TypeEntity;
use crate::entity_arena::EntityList;
use crate::interner::StrId;
use crate::span::union_opt;
use crate::span::union_with;
use crate::span::Span;
use crate::span::Spanned;
use vstd::prelude::*;

verus! {

/// A binary operator.
#[derive(Debug, Clone, Copy, PartialEq, Eq, Structural)]
pub enum BinOp {
    Add,
    Sub,
    Mul,
    Div,
    Eq,
    Neq,
    Lt,
    LtEq,
    Gt,
    GtEq,
    And,
    Or,
    BitOr,
    BitAnd,
    BitXor,
    BitShr,
    BitShl,
}

/// `lhs op rhs`.
#[derive(Debug, Clone, Copy, PartialEq, Eq)]
pub struct BinExpr {
    pub lhs: ExprEntity,
    pub op: BinOp,
    pub rhs: ExprEntity,
    pub span: Span,
}

/// A unary operator.
#[derive(Debug, Clone, Copy, PartialEq, Eq, Structural)]
pub enum UnaryOp {
    Add,
    Sub,
}

/// `op value`.
#[derive(Debug, Clone, Copy, PartialEq, Eq)]
pub struct UnaryExpr {
    pub op: UnaryOp,
    pub value: ExprEntity,
    pub span: Span,
}

/// `receiver[ty_args](args)`.
#[derive(Debug, Clone, Copy, PartialEq, Eq)]
pub struct CallExpr {
    pub receiver: ExprEntity,
    pub ty_args: EntityList<TypeEntity>,
    pub args: EntityList<ExprEntity>,
    pub span: Span,
}

/// `while cond body`.
#[derive(Debug, Clone, Copy, PartialEq, Eq)]
pub struct WhileExpr {
    pub cond: ExprEntity,
    pub body: Block,
    pub span: Span,
}

/// A call of a method on `receiver`.
#[derive(Debug, Clone, Copy, PartialEq, Eq)]
pub struct MethodCallExpr {
    pub receiver: ExprEntity,
    pub ty_args: EntityList<TypeEntity>,
    pub args: EntityList<ExprEntity>,
    pub span: Span,
}

/// An array literal.
#[derive(Debug, Clone, Copy, PartialEq, Eq, Hash)]
pub struct ArrayExpr {
    pub kind: ArrayExprKind,
    pub span: Span,
}

/// The two forms of an array literal.
#[derive(Debug, Clone, Copy, PartialEq, Eq, Hash)]
pub enum ArrayExprKind {
    /// `[a, b, c]`.
    List { values: EntityList<ExprEntity> },
    /// `[value; repeat]`.
    Repeat { value: ExprEntity, repeat: ExprEntity },
}

/// A struct literal.
#[derive(Debug, Clone, Copy, PartialEq, Eq)]
pub struct StructExpr {
    pub name: StrId,
    pub fields: EntityList<FieldEntity>,
    pub span: Span,
}

/// One field of a struct literal: `name: value`.
#[derive(Debug, Clone, Copy, PartialEq, Eq)]
pub struct StructFieldExpr {
    pub name: StrId,
    pub value: ExprEntity,
    pub span: Span,
}

/// `if cond then_branch`, with an optional `else`.
#[derive(Debug, Clone, Copy, PartialEq, Eq)]
pub struct IfExpr {
    pub cond: ExprEntity,
    pub then_branch: Block,
    pub else_branch: Option<ElseExpr>,
    pub span: Span,
}

/// The `else` of a conditional.
#[derive(Debug, Clone, Copy, PartialEq, Eq)]
pub struct ElseExpr {
    pub kind: ElseExprKind,
    pub span: Span,
}

/// What follows `else`: another conditional or a block.
#[derive(Debug, Clone, Copy, PartialEq, Eq)]
pub enum ElseExprKind {
    If(ExprEntity),
    Else(Block),
}

/// `base.member`.
#[derive(Debug, Clone, Copy, PartialEq, Eq)]
pub struct FieldExpr {
    pub base: ExprEntity,
    pub member: StrId,
    pub span: Span,
}

/// `base[index]`.
#[derive(Debug, Clone, Copy, PartialEq, Eq)]
pub struct IndexExpr {
    pub base: ExprEntity,
    pub index: ExprEntity,
    pub span: Span,
}

/// `lhs = rhs`.
#[derive(Debug, Clone, Copy, PartialEq, Eq)]
pub struct AssignExpr {
    pub lhs: StrId,
    pub rhs: ExprEntity,
    pub span: Span,
}

/// `return`, with an optional value.
#[derive(Debug, Clone, Copy, PartialEq, Eq)]
pub struct ReturnExpr {
    pub value: Option<ExprEntity>,
    pub span: Span,
}

/// An expression.
#[derive(Debug, Clone, Copy, PartialEq, Eq)]
pub enum Expr {
    Ident(StrId, Span),
    Str(StrId, Span),
    Int(u64, Span),
    Bool(bool, Span),
    Unit(Span),
    Block(Block),
    Assign(AssignExpr),
    Bin(BinExpr),
    Unary(UnaryExpr),
    Call(CallExpr),
    MethodCall(MethodCallExpr),
    If(IfExpr),
    While(WhileExpr),
    Array(ArrayExpr),
    Struct(StructExpr),
    Field(FieldExpr),
    Index(IndexExpr),
    Return(ReturnExpr),
}

impl BinExpr {
    /// `lhs op rhs`, spanning both operands.
    pub fn new(ctx: &AstCtx, lhs: ExprEntity, op: BinOp, rhs: ExprEntity) -> (node: BinExpr)
        requires
            ctx.exprs.contains(lhs),
            ctx.exprs.contains(rhs),
        ensures
            node == (BinExpr { lhs, op, rhs, span: ctx.expr_span(lhs).union(ctx.expr_span(rhs)) }),
    {
        BinExpr { lhs, op, rhs, span: ctx.exprs.span_of(lhs) + ctx.exprs.span_of(rhs) }
    }
}

impl UnaryExpr {
    /// `op value`, spanning the operator at `op_span` and the operand.
    pub fn new(ctx: &AstCtx, op: UnaryOp, op_span: Span, value: ExprEntity) -> (node: UnaryExpr)
        requires
            ctx.exprs.contains(value),
        ensures
            node == (UnaryExpr { op, value, span: op_span.union(ctx.expr_span(value)) }),
    {
        UnaryExpr { op, value, span: op_span + ctx.exprs.span_of(value) }
    }
}

impl CallExpr {
    /// A call, spanning the receiver, the type arguments and the
    /// arguments. An empty list counts as `delimiters`, the span of the
    /// brackets that would hold it.
    pub fn new(
        ctx: &AstCtx,
        receiver: ExprEntity,
        ty_args: EntityList<TypeEntity>,
        args: EntityList<ExprEntity>,
        delimiters: Span,
    ) -> (node: CallExpr)
        requires
            ctx.wf(),
            ctx.exprs.contains(receiver),
            ctx.types.holds(ty_args),
            ctx.exprs.holds(args),
        ensures
            node == (CallExpr {
                receiver,
                ty_args,
                args,
                span: ctx.expr_span(receiver).union(ctx.types_span(ty_args, delimiters)).union(
                    ctx.exprs_span(args, delimiters),
                ),
            }),
    {
        let span = ctx.exprs.span_of(receiver) + ctx.types.list_span(ty_args, delimiters)
            + ctx.exprs.list_span(args, delimiters);
        CallExpr { receiver, ty_args, args, span }
    }
}

impl MethodCallExpr {
    /// A method call, spanning the receiver, the type arguments and the
    /// arguments. An empty list counts as `delimiters`.
    pub fn new(
        ctx: &AstCtx,
        receiver: ExprEntity,
        ty_args: EntityList<TypeEntity>,
        args: EntityList<ExprEntity>,
        delimiters: Span,
    ) -> (node: MethodCallExpr)
        requires
            ctx.wf(),
            ctx.exprs.contains(receiver),
            ctx.types.holds(ty_args),
            ctx.exprs.holds(args),
        ensures
            node == (MethodCallExpr {
                receiver,
                ty_args,
                args,
                span: ctx.expr_span(receiver).union(ctx.types_span(ty_args, delimiters)).union(
                    ctx.exprs_span(args, delimiters),
                ),
            }),
    {
        let span = ctx.exprs.span_of(receiver) + ctx.types.list_span(ty_args, delimiters)
            + ctx.exprs.list_span(args, delimiters);
        MethodCallExpr { receiver, ty_args, args, span }
    }
}

impl WhileExpr {
    /// A loop, spanning the keyword at `keyword`, the condition and the
    /// body.
    pub fn new(ctx: &AstCtx, keyword: Span, cond: ExprEntity, body: Block) -> (node: WhileExpr)
        requires
            ctx.exprs.contains(cond),
        ensures
            node == (WhileExpr {
                cond,
                body,
                span: keyword.union(ctx.expr_span(cond)).union(body.span),
            }),
    {
        WhileExpr { cond, body, span: keyword + ctx.exprs.span_of(cond) + body.span }
    }
}

impl ArrayExpr {
    /// `[a, b, c]`, spanning its values. An empty literal takes
    /// `fallback`, which is meant to be the span of its brackets.
    pub fn list(ctx: &AstCtx, values: EntityList<ExprEntity>, fallback: Span) -> (node: ArrayExpr)
        requires
            ctx.exprs.wf(),
            ctx.exprs.holds(values),
        ensures
            node == (ArrayExpr {
                kind: ArrayExprKind::List { values },
                span: ctx.exprs_span(values, fallback),
            }),
    {
        ArrayExpr { kind: ArrayExprKind::List { values }, span: ctx.exprs.list_span(values, fallback) }
    }

    /// `[value; repeat]`, spanning both expressions.
    pub fn repeat(ctx: &AstCtx, value: ExprEntity, repeat: ExprEntity) -> (node: ArrayExpr)
        requires
            ctx.exprs.contains(value),
            ctx.exprs.contains(repeat),
        ensures
            node == (ArrayExpr {
                kind: ArrayExprKind::Repeat { value, repeat },
                span: ctx.expr_span(value).union(ctx.expr_span(repeat)),
            }),
    {
        ArrayExpr {
            kind: ArrayExprKind::Repeat { value, repeat },
            span: ctx.exprs.span_of(value) + ctx.exprs.span_of(repeat),
        }
    }
}

impl StructFieldExpr {
    /// `name: value`, spanning the name at `name_span` and the value.
    pub fn new(ctx: &AstCtx, name: StrId, name_span: Span, value: ExprEntity) -> (node:
        StructFieldExpr)
        requires
            ctx.exprs.contains(value),
        ensures
            node == (StructFieldExpr { name, value, span: name_span.union(ctx.expr_span(value)) }),
    {
        StructFieldExpr { name, value, span: name_span + ctx.exprs.span_of(value) }
    }
}

impl StructExpr {
    /// A struct literal, spanning its name at `name_span` and its fields.
    pub fn new(ctx: &AstCtx, name: StrId, name_span: Span, fields: EntityList<FieldEntity>) -> (node:
        StructExpr)
        requires
            ctx.field_exprs.wf(),
            ctx.field_exprs.holds(fields),
        ensures
            node == (StructExpr {
                name,
                fields,
                span: name_span.union(ctx.fields_span(fields, name_span)),
            }),
    {
        StructExpr { name, fields, span: name_span + ctx.field_exprs.list_span(fields, name_span) }
    }
}

impl ElseExpr {
    /// `else if ...`, spanning the keyword at `keyword` and the nested
    /// conditional.
    pub fn else_if(ctx: &AstCtx, keyword: Span, nested: ExprEntity) -> (node: ElseExpr)
        requires
            ctx.exprs.contains(nested),
        ensures
            node == (ElseExpr {
                kind: ElseExprKind::If(nested),
                span: keyword.union(ctx.expr_span(nested)),
            }),
    {
        ElseExpr { kind: ElseExprKind::If(nested), span: keyword + ctx.exprs.span_of(nested) }
    }

    /// `else { ... }`, spanning the keyword at `keyword` and the block.
    pub fn else_block(keyword: Span, block: Block) -> (node: ElseExpr)
        ensures
            node == (ElseExpr { kind: ElseExprKind::Else(block), span: keyword.union(block.span) }),
    {
        ElseExpr { kind: ElseExprKind::Else(block), span: keyword + block.span }
    }
}

impl IfExpr {
    /// The span of an `else`, where there is one.
    pub open spec fn else_span(else_branch: Option<ElseExpr>) -> Option<Span> {
        match else_branch {
            Some(branch) => Some(branch.span),
            None => None,
        }
    }

    /// A conditional, spanning the keyword at `keyword`, the condition,
    /// the branch and the `else`, where there is one.
    pub fn new(
        ctx: &AstCtx,
        keyword: Span,
        cond: ExprEntity,
        then_branch: Block,
        else_branch: Option<ElseExpr>,
    ) -> (node: IfExpr)
        requires
            ctx.exprs.contains(cond),
        ensures
            node == (IfExpr {
                cond,
                then_branch,
                else_branch,
                span: union_with(
                    keyword.union(ctx.expr_span(cond)).union(then_branch.span),
                    IfExpr::else_span(else_branch),
                ),
            }),
    {
        let span = keyword + ctx.exprs.span_of(cond) + then_branch.span;
        let tail = match else_branch {
            Some(branch) => Some(branch.span),
            None => None,
        };
        IfExpr { cond, then_branch, else_branch, span: union_opt(span, tail) }
    }
}

impl FieldExpr {
    /// `base.member`, spanning the base and the member name at
    /// `member_span`.
    pub fn new(ctx: &AstCtx, base: ExprEntity, member: StrId, member_span: Span) -> (node: FieldExpr)
        requires
            ctx.exprs.contains(base),
        ensures
            node == (FieldExpr { base, member, span: ctx.expr_span(base).union(member_span) }),
    {
        FieldExpr { base, member, span: ctx.exprs.span_of(base) + member_span }
    }
}

impl IndexExpr {
    /// `base[index]`, spanning the base, the index and the closing bracket
    /// at `close`.
    pub fn new(ctx: &AstCtx, base: ExprEntity, index: ExprEntity, close: Span) -> (node: IndexExpr)
        requires
            ctx.exprs.contains(base),
            ctx.exprs.contains(index),
        ensures
            node == (IndexExpr {
                base,
                index,
                span: ctx.expr_span(base).union(ctx.expr_span(index)).union(close),
            }),
    {
        IndexExpr { base, index, span: ctx.exprs.span_of(base) + ctx.exprs.span_of(index) + close }
    }
}

impl AssignExpr {
    /// `lhs = rhs`, spanning the name at `lhs_span` and the value.
    pub fn new(ctx: &AstCtx, lhs: StrId, lhs_span: Span, rhs: ExprEntity) -> (node: AssignExpr)
        requires
            ctx.exprs.contains(rhs),
        ensures
            node == (AssignExpr { lhs, rhs, span: lhs_span.union(ctx.expr_span(rhs)) }),
    {
        AssignExpr { lhs, rhs, span: lhs_span + ctx.exprs.span_of(rhs) }
    }
}

impl ReturnExpr {
    /// The span of the returned value, where there is one.
    pub open spec fn value_span(ctx: &AstCtx, value: Option<ExprEntity>) -> Option<Span> {
        match value {
            Some(value) => Some(ctx.expr_span(value)),
            None => None,
        }
    }

    /// `return`, spanning the keyword at `keyword` and the value, where
    /// there is one.
    pub fn new(ctx: &AstCtx, keyword: Span, value: Option<ExprEntity>) -> (node: ReturnExpr)
        requires
            value matches Some(v) ==> ctx.exprs.contains(v),
        ensures
            node == (ReturnExpr {
                value,
                span: union_with(keyword, ReturnExpr::value_span(ctx, value)),
            }),
    {
        let tail = match value {
            Some(v) => Some(ctx.exprs.span_of(v)),
            None => None,
        };
        ReturnExpr { value, span: union_opt(keyword, tail) }
    }
}

impl Spanned for BinExpr {
    open spec fn spanned(&self) -> Span {
        self.span
    }

    fn span(&self) -> (span: Span) {
        assert(self.spanned() == self.span);
        self.span
    }
}

impl Spanned for UnaryExpr {
    open spec fn spanned(&self) -> Span {
        self.span
    }

    fn span(&self) -> (span: Span) {
        assert(self.spanned() == self.span);
        self.span
    }
}

impl Spanned for CallExpr {
    open spec fn spanned(&self) -> Span {
        self.span
    }

    fn span(&self) -> (span: Span) {
        assert(self.spanned() == self.span);
        self.span
    }
}

impl Spanned for WhileExpr {
    open spec fn spanned(&self) -> Span {
        self.span
    }

    fn span(&self) -> (span: Span) {
        assert(self.spanned() == self.span);
        self.span
    }
}

impl Spanned for MethodCallExpr {
    open spec fn spanned(&self) -> Span {
        self.span
    }

    fn span(&self) -> (span: Span) {
        assert(self.spanned() == self.span);
        self.span
    }
}

impl Spanned for ArrayExpr {
    open spec fn spanned(&self) -> Span {
        self.span
    }

    fn span(&self) -> (span: Span) {
        assert(self.spanned() == self.span);
        self.span
    }
}

impl Spanned for StructExpr {
    open spec fn spanned(&self) -> Span {
        self.span
    }

    fn span(&self) -> (span: Span) {
        assert(self.spanned() == self.span);
        self.span
    }
}

impl Spanned for StructFieldExpr {
    open spec fn spanned(&self) -> Span {
        self.span
    }

    fn span(&self) -> (span: Span) {
        assert(self.spanned() == self.span);
        self.span
    }
}

impl Spanned for IfExpr {
    open spec fn spanned(&self) -> Span {
        self.span
    }

    fn span(&self) -> (span: Span) {
        assert(self.spanned() == self.span);
        self.span
    }
}

impl Spanned for ElseExpr {
    open spec fn spanned(&self) -> Span {
        self.span
    }

    fn span(&self) -> (span: Span) {
        assert(self.spanned() == self.span);
        self.span
    }
}

impl Spanned for FieldExpr {
    open spec fn spanned(&self) -> Span {
        self.span
    }

    fn span(&self) -> (span: Span) {
        assert(self.spanned() == self.span);
        self.span
    }
}

impl Spanned for IndexExpr {
    open spec fn spanned(&self) -> Span {
        self.span
    }

    fn span(&self) -> (span: Span) {
        assert(self.spanned() == self.span);
        self.span
    }
}

impl Spanned for AssignExpr {
    open spec fn spanned(&self) -> Span {
        self.span
    }

    fn span(&self) -> (span: Span) {
        assert(self.spanned() == self.span);
        self.span
    }
}

impl Spanned for ReturnExpr {
    open spec fn spanned(&self) -> Span {
        self.span
    }

    fn span(&self) -> (span: Span) {
        assert(self.spanned() == self.span);
        self.span
    }
}

impl Spanned for Expr {
    open spec fn spanned(&self) -> Span {
        match *self {
            Expr::Ident(_, span) => span,
            Expr::Str(_, span) => span,
            Expr::Int(_, span) => span,
            Expr::Bool(_, span) => span,
            Expr::Unit(span) => span,
            Expr::Block(block) => block.span,
            Expr::Assign(assign) => assign.span,
            Expr::Bin(bin) => bin.span,
            Expr::Unary(unary) => unary.span,
            Expr::Call(call) => call.span,
            Expr::MethodCall(call) => call.span,
            Expr::If(cond) => cond.span,
            Expr::While(repeat) => repeat.span,
            Expr::Array(array) => array.span,
            Expr::Struct(literal) => literal.span,
            Expr::Field(field) => field.span,
            Expr::Index(index) => index.span,
            Expr::Return(ret) => ret.span,
        }
    }

    fn span(&self) -> (span: Span) {
        match self {
            Expr::Ident(_, span) => *span,
            Expr::Str(_, span) => *span,
            Expr::Int(_, span) => *span,
            Expr::Bool(_, span) => *span,
            Expr::Unit(span) => *span,
            Expr::Block(block) => block.span(),
            Expr::Assign(assign) => assign.span(),
            Expr::Bin(bin_expr) => bin_expr.span(),
            Expr::Unary(unary_expr) => unary_expr.span(),
            Expr::Call(call_expr) => call_expr.span(),
            Expr::MethodCall(method_call_expr) => method_call_expr.span(),
            Expr::If(if_expr) => if_expr.span(),
            Expr::While(while_expr) => while_expr.span(),
            Expr::Array(array_expr) => array_expr.span(),
            Expr::Struct(struct_expr) => struct_expr.span(),
            Expr::Field(field_expr) => field_expr.span(),
            Expr::Index(index_expr) => index_expr.span(),
            Expr::Return(return_expr) => return_expr.span(),
        }
    }
}

} // verus!
