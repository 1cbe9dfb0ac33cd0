//! Values that describe audio devices and streams, and the platform
//! backends' answers before any device I/O is attempted.
pub mod backend;
pub mod config;
pub mod device;
pub mod error;
pub mod stream;
