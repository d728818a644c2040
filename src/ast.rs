//! The statement shapes that inference understands, as a closed syntax tree.
//!
//! Every shape the inference does not handle has a variant of its own
//! (`Other`, `Literal`, `Wildcard`, ...), so that it is rejected explicitly.
use vstd::prelude::*;

verus! {

/// A column type as declared in a table definition.
#[derive(Debug, Clone, Copy, PartialEq, Eq, Structural)]
pub enum SqlType {
    Blob,
    Integer,
    Real,
    Text,
    /// Any other declared type.
    Other,
}

/// One column of a table definition.
#[derive(Debug, Clone)]
pub struct ColumnDef {
    pub name: String,
    pub data_type: SqlType,
}

/// An expression.
#[derive(Debug)]
pub enum Expr {
    /// An unqualified column name.
    Identifier(String),
    /// A dotted name, `table.column` when it has two parts.
    CompoundIdentifier(Vec<String>),
    /// A bind-parameter marker such as `?` or `$1`.
    Placeholder,
    /// Any literal value other than a placeholder.
    Literal,
    /// A parenthesised query used as a value.
    Subquery(Box<Query>),
    /// `left OP right`, whatever the operator.
    BinaryOp { left: Box<Expr>, right: Box<Expr> },
    /// A function call.
    Function { name: String, args: Vec<FunctionArg> },
    /// Any other expression shape.
    Other,
}

/// One argument of a function call.
#[derive(Debug)]
pub enum FunctionArg {
    /// An unnamed expression argument.
    Unnamed(Expr),
    /// An unnamed `*` or `t.*` argument.
    Wildcard,
    /// A `name => value` argument.
    Named,
}

/// One item of a SELECT list.
#[derive(Debug)]
pub enum SelectItem {
    UnnamedExpr(Expr),
    ExprWithAlias,
    QualifiedWildcard,
    Wildcard,
}

/// A relation in a FROM clause.
#[derive(Debug, Clone)]
pub enum TableFactor {
    /// A named table.
    Table(String),
    /// A derived table, table function or any other relation.
    Other,
}

/// A FROM item: a relation followed by the relations joined to it.
#[derive(Debug, Clone)]
pub struct TableWithJoins {
    pub relation: TableFactor,
    pub joins: Vec<TableFactor>,
}

/// A SELECT: its projection, FROM items and optional WHERE condition.
#[derive(Debug)]
pub struct Select {
    pub projection: Vec<SelectItem>,
    pub from: Vec<TableWithJoins>,
    pub selection: Option<Expr>,
}

/// The body of a query.
#[derive(Debug)]
pub enum Query {
    Select(Select),
    /// `VALUES (...), (...)`: one vector of expressions per row.
    Values(Vec<Vec<Expr>>),
    /// A set operation or any other query body.
    Other,
}

/// A top-level statement.
#[derive(Debug)]
pub enum Statement {
    CreateTable { name: String, columns: Vec<ColumnDef> },
    Query(Query),
    Insert { table_name: String, columns: Vec<String>, source: Query },
    /// Any other statement.
    Other,
}

} // verus!
