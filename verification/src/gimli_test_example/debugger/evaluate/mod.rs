pub mod value;
pub mod evaluate;
