pub mod replacer;
