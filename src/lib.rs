pub mod args;
pub mod cache;
pub mod config;
pub mod dotfiles;
pub mod error;
pub mod project;
pub mod replace;
pub mod testing;
pub mod text;
