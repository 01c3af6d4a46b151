pub mod config;
pub mod runner;
pub mod testcase;
