//! A verified parser for a small Markdown dialect.
//!
//! The pipeline is: raw text -> [`spliter::split`] -> raw block spans ->
//! [`parser::Parser::process`] on each span -> typed blocks -> a caller-supplied
//! generator maps each parse result to its own output type, sequentially or in
//! a data-parallel fan-out that preserves input order.

pub mod bytes;
pub mod err;
pub mod expr;
pub mod generator;
pub mod net;
pub mod parser;
pub mod proto;
pub mod proto_generator;
pub mod spliter;
