//! The platform device: the sysfs node that exposes firmware toggles
//! such as the GPU mux mode.

use vstd::prelude::*;

verus! {

/// The "platform" device, identified by the sysfs path discovery found.
/// The attribute reads and writes happen on that path outside the
/// library; the library keeps the path and the attribute encodings.
#[derive(Debug, Clone, PartialEq)]
pub struct AsusPlatform {
    syspath: String,
}

impl AsusPlatform {
    /// Wraps the sysfs path of the matched platform device.
    pub fn from_syspath(syspath: String) -> (r: AsusPlatform)
        ensures
            r.spec_syspath() == syspath@,
    {
        AsusPlatform { syspath }
    }

    pub closed spec fn spec_syspath(&self) -> Seq<char> {
        self.syspath@
    }

    pub fn syspath(&self) -> (r: &str)
        ensures
            r@ == self.spec_syspath(),
    {
        self.syspath.as_str()
    }
}

/// The GPU mux position: routing the panel to the discrete GPU or
/// through the integrated one.
#[derive(Debug, Clone, Copy, PartialEq, Eq, Structural)]
pub enum GpuMuxMode {
    Discrete,
    Optimus,
    Error,
    NotSupported,
}

impl GpuMuxMode {
    /// The mode a raw attribute byte denotes: zero is discrete,
    /// anything else is the integrated path.
    pub open spec fn spec_from_raw(m: u8) -> GpuMuxMode {
        if m > 0 {
            GpuMuxMode::Optimus
        } else {
            GpuMuxMode::Discrete
        }
    }

    pub fn from_raw(m: u8) -> (r: GpuMuxMode)
        ensures
            r == Self::spec_from_raw(m),
    {
        if m > 0 {
            GpuMuxMode::Optimus
        } else {
            GpuMuxMode::Discrete
        }
    }

    /// The raw attribute byte for this mode; the two sentinel values
    /// report a read error and a missing attribute.
    pub open spec fn spec_raw(self) -> u8 {
        match self {
            GpuMuxMode::Discrete => 0,
            GpuMuxMode::Optimus => 1,
            GpuMuxMode::Error => 254,
            GpuMuxMode::NotSupported => 255,
        }
    }

    pub fn raw(self) -> (r: u8)
        ensures
            r == self.spec_raw(),
    {
        match self {
            GpuMuxMode::Discrete => 0,
            GpuMuxMode::Optimus => 1,
            GpuMuxMode::Error => 254,
            GpuMuxMode::NotSupported => 255,
        }
    }
}

/// Reading back a written mux attribute gives the mode that was
/// written, for the two modes that can be written.
pub proof fn lemma_mux_round_trip(m: GpuMuxMode)
    requires
        m == GpuMuxMode::Discrete || m == GpuMuxMode::Optimus,
    ensures
        GpuMuxMode::spec_from_raw(m.spec_raw()) == m,
{
}

} // verus!
