//! Verified core of a laptop LED (keyboard backlight) control daemon.
//!
//! The library holds the logic of the daemon: the persisted lighting
//! configuration with its text codec, the device command packets, and the
//! controller state machine that keeps the configuration and the hardware
//! in step.  All file, device and bus I/O stays outside the library; the
//! functions here take the bytes that were read and return the bytes to
//! write.

pub mod aura;
pub mod codec;
pub mod config;
pub mod controller;
pub mod discovery;
pub mod error;
pub mod gfx;
pub mod maps;
pub mod platform;
pub mod settings;
pub mod usb;

use vstd::prelude::*;

verus! {

/// A controller that can re-apply its persisted state to the hardware,
/// as happens after boot or resume.
pub trait Reloadable {
    fn reload(&mut self) -> Result<(), crate::error::RogError>;
}

/// A controller that can report what the hardware it drives supports.
pub trait GetSupported {
    type A;

    fn get_supported() -> Self::A;
}

} // verus!
