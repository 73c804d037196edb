//! What the operations of the library are for, stated over their inputs and results.
pub mod archives;
pub mod command_line;
pub mod files;
pub mod jobs;
pub mod kinds;
pub mod libraries;
pub mod plans;
pub mod reports;
pub mod unpacking;
