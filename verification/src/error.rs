//! Error taxonomy of the controller.
//!
//! Distinguishes a missing capability (the hardware lacks a node or a
//! feature) from a missing node at run time, plain I/O failures, parse
//! failures and requests outside the device's capability set.

use vstd::prelude::*;

verus! {

/// Everything a controller operation can report.
#[derive(Debug, Clone, PartialEq, Eq)]
pub enum RogError {
    /// The hardware lacks a required feature entirely.
    MissingFunction(String),
    /// The brightness node is absent at run time.
    MissingLedBrightNode(String),
    /// A path could not be opened.
    Path(String),
    /// A read failed.
    Read(String),
    /// A write failed.
    Write(String),
    /// The requested mode or zone is outside the device's capability set.
    NotSupported,
    /// A device attribute that was looked for does not exist.
    NotFound(String),
    /// The brightness node held something other than a digit.
    ParseLed,
    /// The configuration file held text the codec does not accept.
    ParseConfig,
    /// Device enumeration failed.
    Udev(String),
}

impl RogError {
    /// A short human-readable description, for logging at the caller.
    pub fn message(&self) -> (r: &'static str) {
        match self {
            RogError::MissingFunction(_) => "required keyboard feature missing",
            RogError::MissingLedBrightNode(_) => "brightness node missing",
            RogError::Path(_) => "could not open path",
            RogError::Read(_) => "read failed",
            RogError::Write(_) => "write failed",
            RogError::NotSupported => "not supported by this device",
            RogError::NotFound(_) => "attribute not found",
            RogError::ParseLed => "brightness node held no digit",
            RogError::ParseConfig => "configuration file could not be parsed",
            RogError::Udev(_) => "device enumeration failed",
        }
    }
}

/// Errors of the graphics-mode text interface.
#[derive(Debug, Clone, Copy, PartialEq, Eq, Structural)]
pub enum GraphicsError {
    ParseVendor,
    ParsePower,
}

impl GraphicsError {
    /// The text each variant displays, exactly as callers print it.
    pub fn message(&self) -> (r: &'static str)
        ensures
            self is ParseVendor ==> r@ == "Could not parse vendor name"@,
            self is ParsePower ==> r@ == "Could not parse dGPU power status"@,
    {
        match self {
            GraphicsError::ParseVendor => "Could not parse vendor name",
            GraphicsError::ParsePower => "Could not parse dGPU power status",
        }
    }
}

} // verus!
