//! Decision and text-processing core of the USB-portable Hermes launcher.
//!
//! Everything here is pure computation over plain values; the program that
//! drives processes, files and the GUI lives around it and hands results in.

pub mod text;
pub mod token;
pub mod wsl;
pub mod paths;
pub mod usb;
pub mod boot;
pub mod session;
pub mod registry;
pub mod utf16;
