pub mod types;
pub mod parser;
