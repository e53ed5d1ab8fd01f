//! Architecture dependent parts.
pub mod x86_64;
