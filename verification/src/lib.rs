//! A small language for unit-aware arithmetic: assignments whose numeric
//! literals carry physical dimensions, parsed by recursive descent and
//! evaluated under strict dimensional-consistency rules.

pub mod interpreter;
pub mod laws;
pub mod parser;
pub mod rational;
pub mod types;
