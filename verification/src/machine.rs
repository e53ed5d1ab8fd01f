//! Machine level abstractions for the devices.
pub mod cgascr;
pub mod device_io;
pub mod key;
pub mod keyctrl;
pub mod multiboot;
pub mod serial;
pub mod time;
