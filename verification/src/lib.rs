//! Front end of a compiler for a small statically typed language: source
//! positions, an interner, an arena-backed syntax tree and a tokenizer.

pub mod ast;
pub mod chars;
pub mod cursor;
pub mod decimal;
pub mod entity_arena;
pub mod error;
pub mod expr;
pub mod interner;
pub mod lexer;
pub mod scan;
pub mod source;
pub mod span;
pub mod spanned;
pub mod text;
pub mod token;
pub mod ty;

pub use crate::ast::AstCtx;
pub use crate::ast::Block;
pub use crate::ast::ExprEntity;
pub use crate::ast::FieldEntity;
pub use crate::ast::TypeEntity;
pub use crate::cursor::Cursor;
pub use crate::entity_arena::EntityArena;
pub use crate::entity_arena::EntityList;
pub use crate::entity_arena::Handle;
pub use crate::error::Diagnostic;
pub use crate::error::Error;
pub use crate::error::ErrorKind;
pub use crate::expr::ArrayExpr;
pub use crate::expr::ArrayExprKind;
pub use crate::expr::AssignExpr;
pub use crate::expr::BinExpr;
pub use crate::expr::BinOp;
pub use crate::expr::CallExpr;
pub use crate::expr::ElseExpr;
pub use crate::expr::ElseExprKind;
pub use crate::expr::Expr;
pub use crate::expr::FieldExpr;
pub use crate::expr::IfExpr;
pub use crate::expr::IndexExpr;
pub use crate::expr::MethodCallExpr;
pub use crate::expr::ReturnExpr;
pub use crate::expr::StructExpr;
pub use crate::expr::StructFieldExpr;
pub use crate::expr::UnaryExpr;
pub use crate::expr::UnaryOp;
pub use crate::expr::WhileExpr;
pub use crate::interner::Interner;
pub use crate::interner::StrId;
pub use crate::lexer::Lexer;
pub use crate::source::Source;
pub use crate::source::SourceSpan;
pub use crate::span::Position;
pub use crate::span::Span;
pub use crate::span::Spanned;
pub use crate::token::Base;
pub use crate::token::Token;
pub use crate::token::TokenData;
pub use crate::token::TokenKind;
pub use crate::ty::Type;
pub use crate::ty::TypeKind;
