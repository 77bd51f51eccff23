//! A verified core for a SQL-driven kernel-tracing pipeline.
//!
//! A declarative query (a single SELECT with an optional probe source and
//! filter) is compiled into tracing-script source text together with an
//! ordered column schema, and the line-delimited event protocol of the
//! tracing tool is folded into an append-only stream of result rows by a
//! verified state machine.

pub mod dialect;
pub mod textutil;
pub mod ast;
pub mod resolve;
pub mod compile;
pub mod engine;
pub mod jsonio;
pub mod session;
