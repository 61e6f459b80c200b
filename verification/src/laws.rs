//! What holds of every table, collector and run.
//!
//! Each law is a proof over the mathematical content of the types, so it
//! holds of every value that the executable functions can produce.
pub mod runs;
pub mod tables;
