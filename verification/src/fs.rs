//! A simple read-only file system that is kept in memory.
pub mod ustar;

pub use ustar::iter;
pub use ustar::UstarFile as File;
