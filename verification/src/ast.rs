//! The statement shape the compiler accepts.
//!
//! Parsing query text is an external collaborator's job; the compiler only
//! sees this closed, tagged representation of one parsed statement.  Kinds
//! that the external grammar can produce but the compiler does not support
//! are carried explicitly (`Unsupported`, `Other`) so that compilation
//! turns them into a definite error rather than a silent fallback.

use vstd::prelude::*;

verus! {

/// A literal value, already split by the quoting style of its source form.
pub enum Literal {
    /// A string literal written with single quotes in the query language.
    SingleQuoted(String),
    /// Any other literal, carried as its verbatim source text
    /// (a number, a boolean, a double-quoted string, ...).
    Verbatim(String),
}

/// One argument position of a function call.
pub enum FunctionArgExpr {
    Argument(Expr),
    Wildcard,
    QualifiedWildcard,
}

/// A (possibly named) function-call argument.
pub enum FunctionArg {
    Named { name: String, arg: FunctionArgExpr },
    Unnamed(FunctionArgExpr),
}

/// The argument list of a function call.
pub enum FunctionArguments {
    Absent,
    List(Vec<FunctionArg>),
    Subquery,
}

/// An expression of the query language, as the external parser reports it.
pub enum Expr {
    /// A bare identifier, e.g. `pid`.
    Identifier(String),
    /// The `*` marker used as an expression.
    Wildcard,
    /// A literal value.
    Literal(Literal),
    /// A binary operation; `op` is the operator's verbatim token text,
    /// which lets navigation tokens of the target language pass through.
    BinaryOp { left: Box<Expr>, op: String, right: Box<Expr> },
    /// A function call, e.g. `str(x)` or `count()`.
    FunctionCall { name: String, args: FunctionArguments },
    /// A dotted multi-part name, e.g. `args.file`.
    CompoundIdentifier(Vec<String>),
    /// Any expression kind the compiler does not support.
    Unsupported,
}

/// One projection item of the select list.
pub enum SelectItem {
    /// A bare expression; `text` is its verbatim original source text,
    /// which becomes the column header.
    Unnamed { expr: Expr, text: String },
    /// An aliased expression; the alias becomes the column header.
    Aliased { expr: Expr, alias: String },
    /// The `*` projection.
    Wildcard,
    /// Any other projection kind.
    Unsupported,
}

/// One source of the FROM clause.
pub enum TableSource {
    /// A plain table-like name, as its dot-separated parts.
    Table { name: Vec<String> },
    /// A subquery, join or other source shape the compiler rejects.
    Other,
}

/// The body of a query.
pub enum SetExpr {
    /// A simple select.
    Select(SelectBody),
    /// A set operation or other body shape the compiler rejects.
    Other,
}

/// The select list, FROM clause and WHERE predicate of a simple select.
pub struct SelectBody {
    pub projection: Vec<SelectItem>,
    pub from: Vec<TableSource>,
    pub selection: Option<Expr>,
}

/// A top-level statement.
pub enum Statement {
    Query(SetExpr),
    Other,
}

} // verus!
