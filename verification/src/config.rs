pub mod args;
pub mod def;
pub mod value;
