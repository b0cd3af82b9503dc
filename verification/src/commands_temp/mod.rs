pub mod commands;
pub mod debug_request;
