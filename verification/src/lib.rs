//! Front end of a schema language for fixed-layout binary messages.
//!
//! Source text is split into located tokens by the [`lexer`], and the
//! [`parser`] turns the token sequence into the syntax tree of
//! [`syntax`], resolving field types against the catalog in
//! [`data_types`]. Every function carries a contract over a mathematical
//! model of its data, and the contracts are proved. [`round_trip`] proves
//! that the two halves fit: a schema is read back from its own text.

pub mod source;
pub mod text;
pub mod data_types;
pub mod lexer;
pub mod syntax;
pub mod parser;
pub mod round_trip;
