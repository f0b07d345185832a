pub mod errors;
pub mod process;
