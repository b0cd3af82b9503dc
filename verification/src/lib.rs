pub mod text;
pub mod command_table;
pub mod commands_temp;
pub mod rust_debug;
pub mod newcommands;
pub mod config;
pub mod debug_handler;
pub mod server;
pub mod commands;
pub mod newdebugger;
pub mod debugger;
pub mod gimli_test_example;
pub mod debug_adapter;
pub mod cli;
pub mod elf;
