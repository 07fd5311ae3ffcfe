//! The expression tree that the matchers read.
//!
//! The tree is built once, by whoever parsed and resolved the source, and is
//! only ever borrowed here. It keeps the few shapes that a template expands
//! to, and enough others to tell them apart from ordinary code.

use vstd::prelude::*;
use crate::resolve::DefId;
use crate::span::Span;

verus! {

/// Whether a borrow allows writing through it.
#[derive(Clone, Copy, Debug, PartialEq, Eq, Hash, Structural)]
pub enum Mutability {
    Mutable,
    Immutable,
}

/// How a string literal was written.
#[derive(Clone, Copy, Debug, PartialEq, Eq, Hash, Structural)]
pub enum StrStyle {
    /// An ordinary literal, in which escapes are processed: `"a\nb"`.
    Cooked,
    /// A raw literal, with the number of `#` around it: `r#"a\nb"#`.
    Raw(usize),
}

/// The value of a literal.
#[derive(Debug, PartialEq, Eq)]
pub enum LitKind {
    Str(String, StrStyle),
    ByteStr(Vec<u8>),
    Byte(u8),
    Char(char),
    Int(u128),
    /// A floating-point literal, by its digits as they were written.
    Float(String),
    Bool(bool),
}

/// A literal and the place where it was written.
#[derive(Debug, PartialEq, Eq)]
pub struct Lit {
    pub kind: LitKind,
    pub span: Span,
}

/// An expression and the place where it was written.
#[derive(Debug, PartialEq, Eq)]
pub struct Expr {
    pub kind: ExprKind,
    pub span: Span,
}

/// The shape of an expression.
#[derive(Debug, PartialEq, Eq)]
pub enum ExprKind {
    /// A call `callee(args..)`.
    Call(Box<Expr>, Vec<Expr>),
    /// A method call `receiver.name(args..)`; the receiver is the first
    /// argument.
    MethodCall(String, Vec<Expr>),
    /// A path that names something, with the definition it was resolved to,
    /// where it was resolved to one.
    Path(Option<DefId>),
    /// A literal.
    Lit(Lit),
    /// A borrow `&e` or `&mut e`.
    AddrOf(Mutability, Box<Expr>),
    /// An array `[a, b, ..]`.
    Array(Vec<Expr>),
    /// A block `{ .. }`.
    Block(Block),
    /// Any other expression. The matchers never look into one.
    Other,
}

/// A sequence of statements, and the expression that gives the block its
/// value, where there is one.
#[derive(Debug, PartialEq, Eq)]
pub struct Block {
    pub stmts: Vec<Stmt>,
    pub expr: Option<Box<Expr>>,
    pub span: Span,
}

/// A statement and the place where it was written.
#[derive(Debug, PartialEq, Eq)]
pub struct Stmt {
    pub kind: StmtKind,
    pub span: Span,
}

/// The shape of a statement.
#[derive(Debug, PartialEq, Eq)]
pub enum StmtKind {
    /// A `let`, with its initialiser where it has one.
    Local(Option<Expr>),
    /// An item declared within the block.
    Item,
    /// An expression without a trailing semicolon.
    Expr(Expr),
    /// An expression with a trailing semicolon: computed, then dropped.
    Semi(Expr),
}

} // verus!
