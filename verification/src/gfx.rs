//! Graphics-mode names: the vendor strings and control actions the
//! graphics switcher exchanges as text.

use vstd::prelude::*;

use crate::error::GraphicsError;

verus! {

/// The graphics vendor modes a laptop can switch between.
#[derive(Debug, Clone, Copy, PartialEq, Eq, Structural)]
pub enum GfxVendors {
    Nvidia,
    Integrated,
    Compute,
    Hybrid,
}

/// What has to happen for a graphics-mode switch to take effect.
#[derive(Debug, Clone, Copy, PartialEq, Eq, Structural)]
pub enum GfxCtrlAction {
    Reboot,
    RestartX,
    NoAction,
}

/// ASCII upper-case letters folded to lower case; other bytes kept.
pub open spec fn spec_lower_byte(b: u8) -> u8 {
    if 65 <= b && b <= 90 {
        (b + 32) as u8
    } else {
        b
    }
}

/// A byte string folded to ASCII lower case.
pub open spec fn spec_lower(s: Seq<u8>) -> Seq<u8> {
    s.map_values(|b: u8| spec_lower_byte(b))
}

/// The name of a vendor mode, as written on the wire.
pub open spec fn spec_vendor_name(v: GfxVendors) -> Seq<u8> {
    match v {
        GfxVendors::Nvidia => seq!['n' as u8, 'v' as u8, 'i' as u8, 'd' as u8, 'i' as u8,
            'a' as u8],
        GfxVendors::Hybrid => seq!['h' as u8, 'y' as u8, 'b' as u8, 'r' as u8, 'i' as u8,
            'd' as u8],
        GfxVendors::Compute => seq!['c' as u8, 'o' as u8, 'm' as u8, 'p' as u8, 'u' as u8,
            't' as u8, 'e' as u8],
        GfxVendors::Integrated => seq!['i' as u8, 'n' as u8, 't' as u8, 'e' as u8, 'g' as u8,
            'r' as u8, 'a' as u8, 't' as u8, 'e' as u8, 'd' as u8],
    }
}

/// The name of a control action, as written on the wire.
pub open spec fn spec_action_name(a: GfxCtrlAction) -> Seq<u8> {
    match a {
        GfxCtrlAction::Reboot => seq!['r' as u8, 'e' as u8, 'b' as u8, 'o' as u8, 'o' as u8,
            't' as u8],
        GfxCtrlAction::RestartX => seq!['r' as u8, 'e' as u8, 's' as u8, 't' as u8, 'a' as u8,
            'r' as u8, 't' as u8, 'x' as u8],
        GfxCtrlAction::NoAction => seq!['n' as u8, 'o' as u8, 'n' as u8, 'e' as u8],
    }
}

/// `s` names the value loosely: folded to lower case it is the name
/// itself or the name with a trailing line feed, as sysfs reads often
/// carry.  Only the vendor parser is this tolerant.
pub open spec fn spec_names(s: Seq<u8>, name: Seq<u8>) -> bool {
    spec_lower(s) == name || spec_lower(s) == name.push(10)
}

/// Whether `s`, folded to ASCII lower case, equals `t` or `t` plus a
/// trailing line feed.
fn lower_matches(s: &[u8], t: &Vec<u8>) -> (r: bool)
    ensures
        r == spec_names(s@, t@),
{
    let n = t.len();
    if !(s.len() == n || (s.len() > n && s.len() - 1 == n)) {
        proof {
            assert(spec_lower(s@).len() == s@.len());
        }
        return false;
    }
    let mut i: usize = 0;
    while i < n
        invariant
            n == t@.len(),
            n <= s@.len() <= n + 1,
            i <= n,
            forall|j: int| 0 <= j < i ==> spec_lower_byte(s@[j]) == t@[j],
        decreases n - i,
    {
        let b = s[i];
        let low: u8 = if 65 <= b && b <= 90 {
            b + 32
        } else {
            b
        };
        if low != t[i] {
            proof {
                assert(spec_lower(s@)[i as int] == spec_lower_byte(s@[i as int]));
                assert(t@.push(10).len() == n + 1);
            }
            return false;
        }
        i = i + 1;
    }
    if s.len() == n {
        proof {
            assert(spec_lower(s@) =~= t@);
        }
        true
    } else {
        let last = s[n];
        proof {
            assert(spec_lower(s@)[n as int] == spec_lower_byte(s@[n as int]));
            if s@[n as int] == 10 {
                assert(spec_lower(s@) =~= t@.push(10));
            } else {
                assert(spec_lower_byte(s@[n as int]) != 10);
                assert(spec_lower(s@).len() != t@.len());
            }
        }
        last == 10
    }
}

/// Whether `s`, folded to ASCII lower case, equals `t` exactly.
fn lower_matches_exact(s: &[u8], t: &Vec<u8>) -> (r: bool)
    ensures
        r == (spec_lower(s@) == t@),
{
    let n = t.len();
    if s.len() != n {
        proof {
            assert(spec_lower(s@).len() == s@.len());
        }
        return false;
    }
    let mut i: usize = 0;
    while i < n
        invariant
            n == t@.len(),
            n == s@.len(),
            i <= n,
            forall|j: int| 0 <= j < i ==> spec_lower_byte(s@[j]) == t@[j],
        decreases n - i,
    {
        let b = s[i];
        let low: u8 = if 65 <= b && b <= 90 {
            b + 32
        } else {
            b
        };
        if low != t[i] {
            proof {
                assert(spec_lower(s@)[i as int] == spec_lower_byte(s@[i as int]));
            }
            return false;
        }
        i = i + 1;
    }
    proof {
        assert(spec_lower(s@) =~= t@);
    }
    true
}

fn vendor_name_vec(v: GfxVendors) -> (r: Vec<u8>)
    ensures
        r@ == spec_vendor_name(v),
{
    let mut r: Vec<u8> = Vec::new();
    match v {
        GfxVendors::Nvidia => {
            r.push('n' as u8);
            r.push('v' as u8);
            r.push('i' as u8);
            r.push('d' as u8);
            r.push('i' as u8);
            r.push('a' as u8);
        },
        GfxVendors::Hybrid => {
            r.push('h' as u8);
            r.push('y' as u8);
            r.push('b' as u8);
            r.push('r' as u8);
            r.push('i' as u8);
            r.push('d' as u8);
        },
        GfxVendors::Compute => {
            r.push('c' as u8);
            r.push('o' as u8);
            r.push('m' as u8);
            r.push('p' as u8);
            r.push('u' as u8);
            r.push('t' as u8);
            r.push('e' as u8);
        },
        GfxVendors::Integrated => {
            r.push('i' as u8);
            r.push('n' as u8);
            r.push('t' as u8);
            r.push('e' as u8);
            r.push('g' as u8);
            r.push('r' as u8);
            r.push('a' as u8);
            r.push('t' as u8);
            r.push('e' as u8);
            r.push('d' as u8);
        },
    }
    proof {
        assert(r@ =~= spec_vendor_name(v));
    }
    r
}

fn action_name_vec(a: GfxCtrlAction) -> (r: Vec<u8>)
    ensures
        r@ == spec_action_name(a),
{
    let mut r: Vec<u8> = Vec::new();
    match a {
        GfxCtrlAction::Reboot => {
            r.push('r' as u8);
            r.push('e' as u8);
            r.push('b' as u8);
            r.push('o' as u8);
            r.push('o' as u8);
            r.push('t' as u8);
        },
        GfxCtrlAction::RestartX => {
            r.push('r' as u8);
            r.push('e' as u8);
            r.push('s' as u8);
            r.push('t' as u8);
            r.push('a' as u8);
            r.push('r' as u8);
            r.push('t' as u8);
            r.push('x' as u8);
        },
        GfxCtrlAction::NoAction => {
            r.push('n' as u8);
            r.push('o' as u8);
            r.push('n' as u8);
            r.push('e' as u8);
        },
    }
    proof {
        assert(r@ =~= spec_action_name(a));
    }
    r
}

impl GfxVendors {
    /// Reads a vendor name, case-insensitively and with an optional
    /// trailing line feed; anything else is a parse error.
    pub fn from_text(s: &[u8]) -> (r: Result<GfxVendors, GraphicsError>)
        ensures
            match r {
                Ok(v) => spec_names(s@, spec_vendor_name(v)),
                Err(e) => e == GraphicsError::ParseVendor && forall|v: GfxVendors|
                    !spec_names(s@, spec_vendor_name(v)),
            },
    {
        let t = vendor_name_vec(GfxVendors::Nvidia);
        if lower_matches(s, &t) {
            return Ok(GfxVendors::Nvidia);
        }
        let t = vendor_name_vec(GfxVendors::Hybrid);
        if lower_matches(s, &t) {
            return Ok(GfxVendors::Hybrid);
        }
        let t = vendor_name_vec(GfxVendors::Compute);
        if lower_matches(s, &t) {
            return Ok(GfxVendors::Compute);
        }
        let t = vendor_name_vec(GfxVendors::Integrated);
        if lower_matches(s, &t) {
            return Ok(GfxVendors::Integrated);
        }
        proof {
            assert forall|v: GfxVendors| !spec_names(s@, spec_vendor_name(v)) by {
                match v {
                    GfxVendors::Nvidia => {},
                    GfxVendors::Hybrid => {},
                    GfxVendors::Compute => {},
                    GfxVendors::Integrated => {},
                }
            }
        }
        Err(GraphicsError::ParseVendor)
    }

    /// The name written for this vendor mode.
    pub fn to_text(self) -> (r: Vec<u8>)
        ensures
            r@ == spec_vendor_name(self),
    {
        vendor_name_vec(self)
    }
}

impl GfxCtrlAction {
    /// Reads an action name, case-insensitively but with nothing after
    /// it; anything else, a trailing line feed included, is a parse
    /// error.
    pub fn from_text(s: &[u8]) -> (r: Result<GfxCtrlAction, GraphicsError>)
        ensures
            match r {
                Ok(a) => spec_lower(s@) == spec_action_name(a),
                Err(e) => e == GraphicsError::ParseVendor && forall|a: GfxCtrlAction|
                    spec_lower(s@) != spec_action_name(a),
            },
    {
        let t = action_name_vec(GfxCtrlAction::Reboot);
        if lower_matches_exact(s, &t) {
            return Ok(GfxCtrlAction::Reboot);
        }
        let t = action_name_vec(GfxCtrlAction::RestartX);
        if lower_matches_exact(s, &t) {
            return Ok(GfxCtrlAction::RestartX);
        }
        let t = action_name_vec(GfxCtrlAction::NoAction);
        if lower_matches_exact(s, &t) {
            return Ok(GfxCtrlAction::NoAction);
        }
        proof {
            assert forall|a: GfxCtrlAction| spec_lower(s@) != spec_action_name(a) by {
                match a {
                    GfxCtrlAction::Reboot => {},
                    GfxCtrlAction::RestartX => {},
                    GfxCtrlAction::NoAction => {},
                }
            }
        }
        Err(GraphicsError::ParseVendor)
    }

    /// The name written for this action.
    pub fn to_text(self) -> (r: Vec<u8>)
        ensures
            r@ == spec_action_name(self),
    {
        action_name_vec(self)
    }
}

} // verus!
