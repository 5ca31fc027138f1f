//! The low-level intermediate representation.
pub mod program;
pub mod error;
