//! An experimental, gimli-based debugger: its model of DWARF types and their
//! sizes, its evaluator of values along those types, and its command line.
pub mod debugger;
pub mod commands;
pub mod debugger_cli;
