//! Type inference for parameterised SQL statements against a known schema.
//!
//! The library works on its own closed SQL syntax tree (`ast`), derives a
//! schema from table definitions (`schema`) and infers, for one statement, the
//! types of its placeholders and of its projected columns (`infer`). The laws
//! that tie these together are proved in `laws`.
pub mod ast;
pub mod types;
pub mod schema;
pub mod infer;
pub mod laws;

pub use infer::get_query;
pub use schema::{get_definition, Schema};
pub use types::{DataType, Error};
