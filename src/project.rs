pub mod compile;
pub mod file;
