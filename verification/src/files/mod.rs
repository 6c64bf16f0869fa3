pub mod arrange;
pub mod drop_handler;
pub mod operations;
pub mod tree;
