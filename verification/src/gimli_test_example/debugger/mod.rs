pub mod types;
pub mod evaluate;
