//! Primitive types and the failures of inference.
use vstd::prelude::*;

verus! {

/// A SQL storage class. Boolean-valued expressions are typed `Integer`;
/// `Null` stands for a placeholder whose type is not yet determined.
#[derive(Debug, Clone, Copy, PartialEq, Eq, Structural)]
pub enum DataType {
    Null,
    Integer,
    Real,
    Text,
    Blob,
}

/// Why a schema could not be built or a statement could not be typed.
#[derive(Debug, Clone, Copy, PartialEq, Eq, Structural)]
pub enum Error {
    /// The statement is neither a table definition, a SELECT nor an INSERT ... VALUES.
    UnsupportedStatement,
    /// A declared column type is not one of Blob, Integer, Real, Text.
    UnsupportedColumnType,
    /// An expression, projection or function argument outside the supported set.
    UnsupportedExpression,
    /// A table name that the schema does not define.
    UnknownTable,
    /// A column name that no table in scope defines.
    UnknownColumn,
    /// A scalar subquery that projects no column.
    EmptySubqueryResult,
}

} // verus!
