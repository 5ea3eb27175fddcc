pub mod algorithms;
pub mod selector;
