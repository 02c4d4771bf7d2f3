pub mod operations;
