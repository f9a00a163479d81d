//! Canonical text form of the persisted configuration.
//!
//! The configuration file is a JSON-shaped object rendered in one fixed,
//! canonical way: fields in a fixed order, no white space, map entries in
//! ascending mode-byte order.  `spec_render_config` defines that form and
//! `spec_parse_config` reads it; a trailing run of absent fields takes the
//! documented defaults, so files written before a field existed still
//! load.  `lemma_config_round_trip` proves that parsing a rendered
//! configuration yields the configuration back.  Any other input makes
//! the parser return `None`, which the loader treats as a corrupt file.

use vstd::prelude::*;

use crate::aura::{AuraEffect, AuraModeNum, AuraZone, Colour, Direction, LedBrightness,
    LedPowerStates, Speed};
use crate::maps::{inner_wf, sorted_by_fst, sorted_by_mode, BuiltinMap, MultizoneMap};

verus! {

broadcast use vstd::prelude::Seq::add_empty_left, vstd::prelude::Seq::add_empty_right,
    vstd::prelude::Seq::push_distributes_over_add;

/// Single punctuation bytes of the rendering.
pub const QUOTE: u8 = 34;

pub const COMMA: u8 = 44;

pub const COLON: u8 = 58;

pub const LBRACE: u8 = 123;

pub const RBRACE: u8 = 125;

pub const LBRACK: u8 = 91;

pub const RBRACK: u8 = 93;

/// `t` occurs in `s` at position `i`.
pub open spec fn matches_at(s: Seq<u8>, i: int, t: Seq<u8>) -> bool {
    0 <= i && i + t.len() <= s.len() && s.subrange(i, i + t.len()) == t
}

/// Each byte of a match is a byte of `s`.
pub proof fn lemma_matches_index(s: Seq<u8>, i: int, t: Seq<u8>, k: int)
    requires
        matches_at(s, i, t),
        0 <= k < t.len(),
    ensures
        s[i + k] == t[k],
{
    assert(s.subrange(i, i + t.len() as int)[k] == s[i + k]);
}

/// Consuming `t` at `i`: the position after it, if it is there.
pub open spec fn spec_eat(s: Seq<u8>, i: int, t: Seq<u8>) -> Option<int> {
    if matches_at(s, i, t) {
        Some(i + t.len() as int)
    } else {
        None
    }
}

/// Every byte string occurs in itself at position zero.
pub proof fn lemma_matches_self(s: Seq<u8>)
    ensures
        matches_at(s, 0, s),
{
    assert(s.subrange(0, s.len() as int) =~= s);
}

/// Splitting a match of a concatenation into matches of its halves.
pub proof fn lemma_matches_split(s: Seq<u8>, i: int, a: Seq<u8>, b: Seq<u8>)
    requires
        matches_at(s, i, a + b),
    ensures
        matches_at(s, i, a),
        matches_at(s, i + a.len(), b),
{
    let ab = a + b;
    assert forall|k: int| 0 <= k < a.len() implies s.subrange(i, i + a.len() as int)[k]
        == a[k] by {
        lemma_matches_index(s, i, ab, k);
        assert(ab[k] == a[k]);
    }
    assert(s.subrange(i, i + a.len() as int) =~= a);
    assert forall|k: int| 0 <= k < b.len() implies s.subrange(
        i + a.len(),
        i + a.len() + b.len() as int,
    )[k] == b[k] by {
        lemma_matches_index(s, i, ab, a.len() + k);
        assert(ab[a.len() + k] == b[k]);
    }
    assert(s.subrange(i + a.len(), i + a.len() + b.len() as int) =~= b);
}

/// The text `\"brightness\":` of the canonical rendering.
#[verifier::opaque]
pub open spec fn lit_cfg_brightness() -> Seq<u8> {
    seq!['\"' as u8, 'b' as u8, 'r' as u8, 'i' as u8, 'g' as u8, 'h' as u8, 't' as u8, 'n' as u8, 'e' as u8, 's' as u8, 's' as u8, '\"' as u8, ':' as u8]
}

pub fn lit_cfg_brightness_vec() -> (v: Vec<u8>)
    ensures
        v@ == lit_cfg_brightness(),
{
    let mut v: Vec<u8> = Vec::new();
    v.push('\"' as u8);
    v.push('b' as u8);
    v.push('r' as u8);
    v.push('i' as u8);
    v.push('g' as u8);
    v.push('h' as u8);
    v.push('t' as u8);
    v.push('n' as u8);
    v.push('e' as u8);
    v.push('s' as u8);
    v.push('s' as u8);
    v.push('\"' as u8);
    v.push(':' as u8);
    proof {
        reveal(lit_cfg_brightness);
        assert(v@ =~= lit_cfg_brightness());
    }
    v
}

/// The text `,\"current_mode\":` of the canonical rendering.
#[verifier::opaque]
pub open spec fn lit_cfg_mode() -> Seq<u8> {
    seq![',' as u8, '\"' as u8, 'c' as u8, 'u' as u8, 'r' as u8, 'r' as u8, 'e' as u8, 'n' as u8, 't' as u8, '_' as u8, 'm' as u8, 'o' as u8, 'd' as u8, 'e' as u8, '\"' as u8, ':' as u8]
}

pub fn lit_cfg_mode_vec() -> (v: Vec<u8>)
    ensures
        v@ == lit_cfg_mode(),
{
    let mut v: Vec<u8> = Vec::new();
    v.push(',' as u8);
    v.push('\"' as u8);
    v.push('c' as u8);
    v.push('u' as u8);
    v.push('r' as u8);
    v.push('r' as u8);
    v.push('e' as u8);
    v.push('n' as u8);
    v.push('t' as u8);
    v.push('_' as u8);
    v.push('m' as u8);
    v.push('o' as u8);
    v.push('d' as u8);
    v.push('e' as u8);
    v.push('\"' as u8);
    v.push(':' as u8);
    proof {
        reveal(lit_cfg_mode);
        assert(v@ =~= lit_cfg_mode());
    }
    v
}

/// The text `,\"builtins\":` of the canonical rendering.
#[verifier::opaque]
pub open spec fn lit_cfg_builtins() -> Seq<u8> {
    seq![',' as u8, '\"' as u8, 'b' as u8, 'u' as u8, 'i' as u8, 'l' as u8, 't' as u8, 'i' as u8, 'n' as u8, 's' as u8, '\"' as u8, ':' as u8]
}

pub fn lit_cfg_builtins_vec() -> (v: Vec<u8>)
    ensures
        v@ == lit_cfg_builtins(),
{
    let mut v: Vec<u8> = Vec::new();
    v.push(',' as u8);
    v.push('\"' as u8);
    v.push('b' as u8);
    v.push('u' as u8);
    v.push('i' as u8);
    v.push('l' as u8);
    v.push('t' as u8);
    v.push('i' as u8);
    v.push('n' as u8);
    v.push('s' as u8);
    v.push('\"' as u8);
    v.push(':' as u8);
    proof {
        reveal(lit_cfg_builtins);
        assert(v@ =~= lit_cfg_builtins());
    }
    v
}

/// The text `,\"multizone\":` of the canonical rendering.
#[verifier::opaque]
pub open spec fn lit_cfg_multizone() -> Seq<u8> {
    seq![',' as u8, '\"' as u8, 'm' as u8, 'u' as u8, 'l' as u8, 't' as u8, 'i' as u8, 'z' as u8, 'o' as u8, 'n' as u8, 'e' as u8, '\"' as u8, ':' as u8]
}

pub fn lit_cfg_multizone_vec() -> (v: Vec<u8>)
    ensures
        v@ == lit_cfg_multizone(),
{
    let mut v: Vec<u8> = Vec::new();
    v.push(',' as u8);
    v.push('\"' as u8);
    v.push('m' as u8);
    v.push('u' as u8);
    v.push('l' as u8);
    v.push('t' as u8);
    v.push('i' as u8);
    v.push('z' as u8);
    v.push('o' as u8);
    v.push('n' as u8);
    v.push('e' as u8);
    v.push('\"' as u8);
    v.push(':' as u8);
    proof {
        reveal(lit_cfg_multizone);
        assert(v@ =~= lit_cfg_multizone());
    }
    v
}

/// The text `,\"power_states\":` of the canonical rendering.
#[verifier::opaque]
pub open spec fn lit_cfg_power() -> Seq<u8> {
    seq![',' as u8, '\"' as u8, 'p' as u8, 'o' as u8, 'w' as u8, 'e' as u8, 'r' as u8, '_' as u8, 's' as u8, 't' as u8, 'a' as u8, 't' as u8, 'e' as u8, 's' as u8, '\"' as u8, ':' as u8]
}

pub fn lit_cfg_power_vec() -> (v: Vec<u8>)
    ensures
        v@ == lit_cfg_power(),
{
    let mut v: Vec<u8> = Vec::new();
    v.push(',' as u8);
    v.push('\"' as u8);
    v.push('p' as u8);
    v.push('o' as u8);
    v.push('w' as u8);
    v.push('e' as u8);
    v.push('r' as u8);
    v.push('_' as u8);
    v.push('s' as u8);
    v.push('t' as u8);
    v.push('a' as u8);
    v.push('t' as u8);
    v.push('e' as u8);
    v.push('s' as u8);
    v.push('\"' as u8);
    v.push(':' as u8);
    proof {
        reveal(lit_cfg_power);
        assert(v@ =~= lit_cfg_power());
    }
    v
}

/// The text `{\"mode\":` of the canonical rendering.
#[verifier::opaque]
pub open spec fn lit_eff_mode() -> Seq<u8> {
    seq!['{' as u8, '\"' as u8, 'm' as u8, 'o' as u8, 'd' as u8, 'e' as u8, '\"' as u8, ':' as u8]
}

pub fn lit_eff_mode_vec() -> (v: Vec<u8>)
    ensures
        v@ == lit_eff_mode(),
{
    let mut v: Vec<u8> = Vec::new();
    v.push('{' as u8);
    v.push('\"' as u8);
    v.push('m' as u8);
    v.push('o' as u8);
    v.push('d' as u8);
    v.push('e' as u8);
    v.push('\"' as u8);
    v.push(':' as u8);
    proof {
        reveal(lit_eff_mode);
        assert(v@ =~= lit_eff_mode());
    }
    v
}

/// The text `,\"zone\":` of the canonical rendering.
#[verifier::opaque]
pub open spec fn lit_eff_zone() -> Seq<u8> {
    seq![',' as u8, '\"' as u8, 'z' as u8, 'o' as u8, 'n' as u8, 'e' as u8, '\"' as u8, ':' as u8]
}

pub fn lit_eff_zone_vec() -> (v: Vec<u8>)
    ensures
        v@ == lit_eff_zone(),
{
    let mut v: Vec<u8> = Vec::new();
    v.push(',' as u8);
    v.push('\"' as u8);
    v.push('z' as u8);
    v.push('o' as u8);
    v.push('n' as u8);
    v.push('e' as u8);
    v.push('\"' as u8);
    v.push(':' as u8);
    proof {
        reveal(lit_eff_zone);
        assert(v@ =~= lit_eff_zone());
    }
    v
}

/// The text `,\"colour1\":` of the canonical rendering.
#[verifier::opaque]
pub open spec fn lit_eff_colour1() -> Seq<u8> {
    seq![',' as u8, '\"' as u8, 'c' as u8, 'o' as u8, 'l' as u8, 'o' as u8, 'u' as u8, 'r' as u8, '1' as u8, '\"' as u8, ':' as u8]
}

pub fn lit_eff_colour1_vec() -> (v: Vec<u8>)
    ensures
        v@ == lit_eff_colour1(),
{
    let mut v: Vec<u8> = Vec::new();
    v.push(',' as u8);
    v.push('\"' as u8);
    v.push('c' as u8);
    v.push('o' as u8);
    v.push('l' as u8);
    v.push('o' as u8);
    v.push('u' as u8);
    v.push('r' as u8);
    v.push('1' as u8);
    v.push('\"' as u8);
    v.push(':' as u8);
    proof {
        reveal(lit_eff_colour1);
        assert(v@ =~= lit_eff_colour1());
    }
    v
}

/// The text `,\"colour2\":` of the canonical rendering.
#[verifier::opaque]
pub open spec fn lit_eff_colour2() -> Seq<u8> {
    seq![',' as u8, '\"' as u8, 'c' as u8, 'o' as u8, 'l' as u8, 'o' as u8, 'u' as u8, 'r' as u8, '2' as u8, '\"' as u8, ':' as u8]
}

pub fn lit_eff_colour2_vec() -> (v: Vec<u8>)
    ensures
        v@ == lit_eff_colour2(),
{
    let mut v: Vec<u8> = Vec::new();
    v.push(',' as u8);
    v.push('\"' as u8);
    v.push('c' as u8);
    v.push('o' as u8);
    v.push('l' as u8);
    v.push('o' as u8);
    v.push('u' as u8);
    v.push('r' as u8);
    v.push('2' as u8);
    v.push('\"' as u8);
    v.push(':' as u8);
    proof {
        reveal(lit_eff_colour2);
        assert(v@ =~= lit_eff_colour2());
    }
    v
}

/// The text `,\"speed\":` of the canonical rendering.
#[verifier::opaque]
pub open spec fn lit_eff_speed() -> Seq<u8> {
    seq![',' as u8, '\"' as u8, 's' as u8, 'p' as u8, 'e' as u8, 'e' as u8, 'd' as u8, '\"' as u8, ':' as u8]
}

pub fn lit_eff_speed_vec() -> (v: Vec<u8>)
    ensures
        v@ == lit_eff_speed(),
{
    let mut v: Vec<u8> = Vec::new();
    v.push(',' as u8);
    v.push('\"' as u8);
    v.push('s' as u8);
    v.push('p' as u8);
    v.push('e' as u8);
    v.push('e' as u8);
    v.push('d' as u8);
    v.push('\"' as u8);
    v.push(':' as u8);
    proof {
        reveal(lit_eff_speed);
        assert(v@ =~= lit_eff_speed());
    }
    v
}

/// The text `,\"direction\":` of the canonical rendering.
#[verifier::opaque]
pub open spec fn lit_eff_direction() -> Seq<u8> {
    seq![',' as u8, '\"' as u8, 'd' as u8, 'i' as u8, 'r' as u8, 'e' as u8, 'c' as u8, 't' as u8, 'i' as u8, 'o' as u8, 'n' as u8, '\"' as u8, ':' as u8]
}

pub fn lit_eff_direction_vec() -> (v: Vec<u8>)
    ensures
        v@ == lit_eff_direction(),
{
    let mut v: Vec<u8> = Vec::new();
    v.push(',' as u8);
    v.push('\"' as u8);
    v.push('d' as u8);
    v.push('i' as u8);
    v.push('r' as u8);
    v.push('e' as u8);
    v.push('c' as u8);
    v.push('t' as u8);
    v.push('i' as u8);
    v.push('o' as u8);
    v.push('n' as u8);
    v.push('\"' as u8);
    v.push(':' as u8);
    proof {
        reveal(lit_eff_direction);
        assert(v@ =~= lit_eff_direction());
    }
    v
}

/// The text `null` of the canonical rendering.
#[verifier::opaque]
pub open spec fn lit_null() -> Seq<u8> {
    seq!['n' as u8, 'u' as u8, 'l' as u8, 'l' as u8]
}

pub fn lit_null_vec() -> (v: Vec<u8>)
    ensures
        v@ == lit_null(),
{
    let mut v: Vec<u8> = Vec::new();
    v.push('n' as u8);
    v.push('u' as u8);
    v.push('l' as u8);
    v.push('l' as u8);
    proof {
        reveal(lit_null);
        assert(v@ =~= lit_null());
    }
    v
}

/// The text `true` of the canonical rendering.
#[verifier::opaque]
pub open spec fn lit_true() -> Seq<u8> {
    seq!['t' as u8, 'r' as u8, 'u' as u8, 'e' as u8]
}

pub fn lit_true_vec() -> (v: Vec<u8>)
    ensures
        v@ == lit_true(),
{
    let mut v: Vec<u8> = Vec::new();
    v.push('t' as u8);
    v.push('r' as u8);
    v.push('u' as u8);
    v.push('e' as u8);
    proof {
        reveal(lit_true);
        assert(v@ =~= lit_true());
    }
    v
}

/// The text `false` of the canonical rendering.
#[verifier::opaque]
pub open spec fn lit_false() -> Seq<u8> {
    seq!['f' as u8, 'a' as u8, 'l' as u8, 's' as u8, 'e' as u8]
}

pub fn lit_false_vec() -> (v: Vec<u8>)
    ensures
        v@ == lit_false(),
{
    let mut v: Vec<u8> = Vec::new();
    v.push('f' as u8);
    v.push('a' as u8);
    v.push('l' as u8);
    v.push('s' as u8);
    v.push('e' as u8);
    proof {
        reveal(lit_false);
        assert(v@ =~= lit_false());
    }
    v
}

/// The text `{\"boot_anim\":` of the canonical rendering.
#[verifier::opaque]
pub open spec fn lit_pw_boot() -> Seq<u8> {
    seq!['{' as u8, '\"' as u8, 'b' as u8, 'o' as u8, 'o' as u8, 't' as u8, '_' as u8, 'a' as u8, 'n' as u8, 'i' as u8, 'm' as u8, '\"' as u8, ':' as u8]
}

pub fn lit_pw_boot_vec() -> (v: Vec<u8>)
    ensures
        v@ == lit_pw_boot(),
{
    let mut v: Vec<u8> = Vec::new();
    v.push('{' as u8);
    v.push('\"' as u8);
    v.push('b' as u8);
    v.push('o' as u8);
    v.push('o' as u8);
    v.push('t' as u8);
    v.push('_' as u8);
    v.push('a' as u8);
    v.push('n' as u8);
    v.push('i' as u8);
    v.push('m' as u8);
    v.push('\"' as u8);
    v.push(':' as u8);
    proof {
        reveal(lit_pw_boot);
        assert(v@ =~= lit_pw_boot());
    }
    v
}

/// The text `,\"sleep_anim\":` of the canonical rendering.
#[verifier::opaque]
pub open spec fn lit_pw_sleep() -> Seq<u8> {
    seq![',' as u8, '\"' as u8, 's' as u8, 'l' as u8, 'e' as u8, 'e' as u8, 'p' as u8, '_' as u8, 'a' as u8, 'n' as u8, 'i' as u8, 'm' as u8, '\"' as u8, ':' as u8]
}

pub fn lit_pw_sleep_vec() -> (v: Vec<u8>)
    ensures
        v@ == lit_pw_sleep(),
{
    let mut v: Vec<u8> = Vec::new();
    v.push(',' as u8);
    v.push('\"' as u8);
    v.push('s' as u8);
    v.push('l' as u8);
    v.push('e' as u8);
    v.push('e' as u8);
    v.push('p' as u8);
    v.push('_' as u8);
    v.push('a' as u8);
    v.push('n' as u8);
    v.push('i' as u8);
    v.push('m' as u8);
    v.push('\"' as u8);
    v.push(':' as u8);
    proof {
        reveal(lit_pw_sleep);
        assert(v@ =~= lit_pw_sleep());
    }
    v
}

/// The text `,\"all_leds\":` of the canonical rendering.
#[verifier::opaque]
pub open spec fn lit_pw_all() -> Seq<u8> {
    seq![',' as u8, '\"' as u8, 'a' as u8, 'l' as u8, 'l' as u8, '_' as u8, 'l' as u8, 'e' as u8, 'd' as u8, 's' as u8, '\"' as u8, ':' as u8]
}

pub fn lit_pw_all_vec() -> (v: Vec<u8>)
    ensures
        v@ == lit_pw_all(),
{
    let mut v: Vec<u8> = Vec::new();
    v.push(',' as u8);
    v.push('\"' as u8);
    v.push('a' as u8);
    v.push('l' as u8);
    v.push('l' as u8);
    v.push('_' as u8);
    v.push('l' as u8);
    v.push('e' as u8);
    v.push('d' as u8);
    v.push('s' as u8);
    v.push('\"' as u8);
    v.push(':' as u8);
    proof {
        reveal(lit_pw_all);
        assert(v@ =~= lit_pw_all());
    }
    v
}

/// The text `,\"keys_leds\":` of the canonical rendering.
#[verifier::opaque]
pub open spec fn lit_pw_keys() -> Seq<u8> {
    seq![',' as u8, '\"' as u8, 'k' as u8, 'e' as u8, 'y' as u8, 's' as u8, '_' as u8, 'l' as u8, 'e' as u8, 'd' as u8, 's' as u8, '\"' as u8, ':' as u8]
}

pub fn lit_pw_keys_vec() -> (v: Vec<u8>)
    ensures
        v@ == lit_pw_keys(),
{
    let mut v: Vec<u8> = Vec::new();
    v.push(',' as u8);
    v.push('\"' as u8);
    v.push('k' as u8);
    v.push('e' as u8);
    v.push('y' as u8);
    v.push('s' as u8);
    v.push('_' as u8);
    v.push('l' as u8);
    v.push('e' as u8);
    v.push('d' as u8);
    v.push('s' as u8);
    v.push('\"' as u8);
    v.push(':' as u8);
    proof {
        reveal(lit_pw_keys);
        assert(v@ =~= lit_pw_keys());
    }
    v
}

/// The text `,\"side_leds\":` of the canonical rendering.
#[verifier::opaque]
pub open spec fn lit_pw_side() -> Seq<u8> {
    seq![',' as u8, '\"' as u8, 's' as u8, 'i' as u8, 'd' as u8, 'e' as u8, '_' as u8, 'l' as u8, 'e' as u8, 'd' as u8, 's' as u8, '\"' as u8, ':' as u8]
}

pub fn lit_pw_side_vec() -> (v: Vec<u8>)
    ensures
        v@ == lit_pw_side(),
{
    let mut v: Vec<u8> = Vec::new();
    v.push(',' as u8);
    v.push('\"' as u8);
    v.push('s' as u8);
    v.push('i' as u8);
    v.push('d' as u8);
    v.push('e' as u8);
    v.push('_' as u8);
    v.push('l' as u8);
    v.push('e' as u8);
    v.push('d' as u8);
    v.push('s' as u8);
    v.push('\"' as u8);
    v.push(':' as u8);
    proof {
        reveal(lit_pw_side);
        assert(v@ =~= lit_pw_side());
    }
    v
}

/// The quoted tag of the value in the canonical rendering.
#[verifier::opaque]
pub open spec fn qmode(x: AuraModeNum) -> Seq<u8> {
    match x {
        AuraModeNum::Static => seq!['\"' as u8, 'S' as u8, 't' as u8, 'a' as u8, 't' as u8, 'i' as u8, 'c' as u8, '\"' as u8],
        AuraModeNum::Breathe => seq!['\"' as u8, 'B' as u8, 'r' as u8, 'e' as u8, 'a' as u8, 't' as u8, 'h' as u8, 'e' as u8, '\"' as u8],
        AuraModeNum::Strobe => seq!['\"' as u8, 'S' as u8, 't' as u8, 'r' as u8, 'o' as u8, 'b' as u8, 'e' as u8, '\"' as u8],
        AuraModeNum::Rainbow => seq!['\"' as u8, 'R' as u8, 'a' as u8, 'i' as u8, 'n' as u8, 'b' as u8, 'o' as u8, 'w' as u8, '\"' as u8],
        AuraModeNum::Star => seq!['\"' as u8, 'S' as u8, 't' as u8, 'a' as u8, 'r' as u8, '\"' as u8],
        AuraModeNum::Rain => seq!['\"' as u8, 'R' as u8, 'a' as u8, 'i' as u8, 'n' as u8, '\"' as u8],
        AuraModeNum::Highlight => seq!['\"' as u8, 'H' as u8, 'i' as u8, 'g' as u8, 'h' as u8, 'l' as u8, 'i' as u8, 'g' as u8, 'h' as u8, 't' as u8, '\"' as u8],
        AuraModeNum::Laser => seq!['\"' as u8, 'L' as u8, 'a' as u8, 's' as u8, 'e' as u8, 'r' as u8, '\"' as u8],
        AuraModeNum::Ripple => seq!['\"' as u8, 'R' as u8, 'i' as u8, 'p' as u8, 'p' as u8, 'l' as u8, 'e' as u8, '\"' as u8],
        AuraModeNum::Pulse => seq!['\"' as u8, 'P' as u8, 'u' as u8, 'l' as u8, 's' as u8, 'e' as u8, '\"' as u8],
        AuraModeNum::Comet => seq!['\"' as u8, 'C' as u8, 'o' as u8, 'm' as u8, 'e' as u8, 't' as u8, '\"' as u8],
        AuraModeNum::Flash => seq!['\"' as u8, 'F' as u8, 'l' as u8, 'a' as u8, 's' as u8, 'h' as u8, '\"' as u8],
    }
}

pub fn qmode_vec(x: AuraModeNum) -> (v: Vec<u8>)
    ensures
        v@ == qmode(x),
{
    let mut v: Vec<u8> = Vec::new();
    match x {
        AuraModeNum::Static => {
            v.push('\"' as u8);
            v.push('S' as u8);
            v.push('t' as u8);
            v.push('a' as u8);
            v.push('t' as u8);
            v.push('i' as u8);
            v.push('c' as u8);
            v.push('\"' as u8);
        },
        AuraModeNum::Breathe => {
            v.push('\"' as u8);
            v.push('B' as u8);
            v.push('r' as u8);
            v.push('e' as u8);
            v.push('a' as u8);
            v.push('t' as u8);
            v.push('h' as u8);
            v.push('e' as u8);
            v.push('\"' as u8);
        },
        AuraModeNum::Strobe => {
            v.push('\"' as u8);
            v.push('S' as u8);
            v.push('t' as u8);
            v.push('r' as u8);
            v.push('o' as u8);
            v.push('b' as u8);
            v.push('e' as u8);
            v.push('\"' as u8);
        },
        AuraModeNum::Rainbow => {
            v.push('\"' as u8);
            v.push('R' as u8);
            v.push('a' as u8);
            v.push('i' as u8);
            v.push('n' as u8);
            v.push('b' as u8);
            v.push('o' as u8);
            v.push('w' as u8);
            v.push('\"' as u8);
        },
        AuraModeNum::Star => {
            v.push('\"' as u8);
            v.push('S' as u8);
            v.push('t' as u8);
            v.push('a' as u8);
            v.push('r' as u8);
            v.push('\"' as u8);
        },
        AuraModeNum::Rain => {
            v.push('\"' as u8);
            v.push('R' as u8);
            v.push('a' as u8);
            v.push('i' as u8);
            v.push('n' as u8);
            v.push('\"' as u8);
        },
        AuraModeNum::Highlight => {
            v.push('\"' as u8);
            v.push('H' as u8);
            v.push('i' as u8);
            v.push('g' as u8);
            v.push('h' as u8);
            v.push('l' as u8);
            v.push('i' as u8);
            v.push('g' as u8);
            v.push('h' as u8);
            v.push('t' as u8);
            v.push('\"' as u8);
        },
        AuraModeNum::Laser => {
            v.push('\"' as u8);
            v.push('L' as u8);
            v.push('a' as u8);
            v.push('s' as u8);
            v.push('e' as u8);
            v.push('r' as u8);
            v.push('\"' as u8);
        },
        AuraModeNum::Ripple => {
            v.push('\"' as u8);
            v.push('R' as u8);
            v.push('i' as u8);
            v.push('p' as u8);
            v.push('p' as u8);
            v.push('l' as u8);
            v.push('e' as u8);
            v.push('\"' as u8);
        },
        AuraModeNum::Pulse => {
            v.push('\"' as u8);
            v.push('P' as u8);
            v.push('u' as u8);
            v.push('l' as u8);
            v.push('s' as u8);
            v.push('e' as u8);
            v.push('\"' as u8);
        },
        AuraModeNum::Comet => {
            v.push('\"' as u8);
            v.push('C' as u8);
            v.push('o' as u8);
            v.push('m' as u8);
            v.push('e' as u8);
            v.push('t' as u8);
            v.push('\"' as u8);
        },
        AuraModeNum::Flash => {
            v.push('\"' as u8);
            v.push('F' as u8);
            v.push('l' as u8);
            v.push('a' as u8);
            v.push('s' as u8);
            v.push('h' as u8);
            v.push('\"' as u8);
        },
    }
    proof {
        reveal(qmode);
        assert(v@ =~= qmode(x));
    }
    v
}

/// The quoted tag of the value in the canonical rendering.
#[verifier::opaque]
pub open spec fn qzone(x: AuraZone) -> Seq<u8> {
    match x {
        AuraZone::Global => seq!['\"' as u8, 'N' as u8, 'o' as u8, 'n' as u8, 'e' as u8, '\"' as u8],
        AuraZone::Key1 => seq!['\"' as u8, 'K' as u8, 'e' as u8, 'y' as u8, '1' as u8, '\"' as u8],
        AuraZone::Key2 => seq!['\"' as u8, 'K' as u8, 'e' as u8, 'y' as u8, '2' as u8, '\"' as u8],
        AuraZone::Key3 => seq!['\"' as u8, 'K' as u8, 'e' as u8, 'y' as u8, '3' as u8, '\"' as u8],
        AuraZone::Key4 => seq!['\"' as u8, 'K' as u8, 'e' as u8, 'y' as u8, '4' as u8, '\"' as u8],
    }
}

pub fn qzone_vec(x: AuraZone) -> (v: Vec<u8>)
    ensures
        v@ == qzone(x),
{
    let mut v: Vec<u8> = Vec::new();
    match x {
        AuraZone::Global => {
            v.push('\"' as u8);
            v.push('N' as u8);
            v.push('o' as u8);
            v.push('n' as u8);
            v.push('e' as u8);
            v.push('\"' as u8);
        },
        AuraZone::Key1 => {
            v.push('\"' as u8);
            v.push('K' as u8);
            v.push('e' as u8);
            v.push('y' as u8);
            v.push('1' as u8);
            v.push('\"' as u8);
        },
        AuraZone::Key2 => {
            v.push('\"' as u8);
            v.push('K' as u8);
            v.push('e' as u8);
            v.push('y' as u8);
            v.push('2' as u8);
            v.push('\"' as u8);
        },
        AuraZone::Key3 => {
            v.push('\"' as u8);
            v.push('K' as u8);
            v.push('e' as u8);
            v.push('y' as u8);
            v.push('3' as u8);
            v.push('\"' as u8);
        },
        AuraZone::Key4 => {
            v.push('\"' as u8);
            v.push('K' as u8);
            v.push('e' as u8);
            v.push('y' as u8);
            v.push('4' as u8);
            v.push('\"' as u8);
        },
    }
    proof {
        reveal(qzone);
        assert(v@ =~= qzone(x));
    }
    v
}

/// The quoted tag of the value in the canonical rendering.
#[verifier::opaque]
pub open spec fn qspeed(x: Speed) -> Seq<u8> {
    match x {
        Speed::Low => seq!['\"' as u8, 'L' as u8, 'o' as u8, 'w' as u8, '\"' as u8],
        Speed::Med => seq!['\"' as u8, 'M' as u8, 'e' as u8, 'd' as u8, '\"' as u8],
        Speed::High => seq!['\"' as u8, 'H' as u8, 'i' as u8, 'g' as u8, 'h' as u8, '\"' as u8],
    }
}

pub fn qspeed_vec(x: Speed) -> (v: Vec<u8>)
    ensures
        v@ == qspeed(x),
{
    let mut v: Vec<u8> = Vec::new();
    match x {
        Speed::Low => {
            v.push('\"' as u8);
            v.push('L' as u8);
            v.push('o' as u8);
            v.push('w' as u8);
            v.push('\"' as u8);
        },
        Speed::Med => {
            v.push('\"' as u8);
            v.push('M' as u8);
            v.push('e' as u8);
            v.push('d' as u8);
            v.push('\"' as u8);
        },
        Speed::High => {
            v.push('\"' as u8);
            v.push('H' as u8);
            v.push('i' as u8);
            v.push('g' as u8);
            v.push('h' as u8);
            v.push('\"' as u8);
        },
    }
    proof {
        reveal(qspeed);
        assert(v@ =~= qspeed(x));
    }
    v
}

/// The quoted tag of the value in the canonical rendering.
#[verifier::opaque]
pub open spec fn qdir(x: Direction) -> Seq<u8> {
    match x {
        Direction::Right => seq!['\"' as u8, 'R' as u8, 'i' as u8, 'g' as u8, 'h' as u8, 't' as u8, '\"' as u8],
        Direction::Left => seq!['\"' as u8, 'L' as u8, 'e' as u8, 'f' as u8, 't' as u8, '\"' as u8],
        Direction::Up => seq!['\"' as u8, 'U' as u8, 'p' as u8, '\"' as u8],
        Direction::Down => seq!['\"' as u8, 'D' as u8, 'o' as u8, 'w' as u8, 'n' as u8, '\"' as u8],
    }
}

pub fn qdir_vec(x: Direction) -> (v: Vec<u8>)
    ensures
        v@ == qdir(x),
{
    let mut v: Vec<u8> = Vec::new();
    match x {
        Direction::Right => {
            v.push('\"' as u8);
            v.push('R' as u8);
            v.push('i' as u8);
            v.push('g' as u8);
            v.push('h' as u8);
            v.push('t' as u8);
            v.push('\"' as u8);
        },
        Direction::Left => {
            v.push('\"' as u8);
            v.push('L' as u8);
            v.push('e' as u8);
            v.push('f' as u8);
            v.push('t' as u8);
            v.push('\"' as u8);
        },
        Direction::Up => {
            v.push('\"' as u8);
            v.push('U' as u8);
            v.push('p' as u8);
            v.push('\"' as u8);
        },
        Direction::Down => {
            v.push('\"' as u8);
            v.push('D' as u8);
            v.push('o' as u8);
            v.push('w' as u8);
            v.push('n' as u8);
            v.push('\"' as u8);
        },
    }
    proof {
        reveal(qdir);
        assert(v@ =~= qdir(x));
    }
    v
}


/// A byte that is an ASCII decimal digit.
pub open spec fn is_digit(b: u8) -> bool {
    48 <= b && b <= 57
}

/// The shortest decimal rendering of `n`.
pub open spec fn spec_digits(n: u8) -> Seq<u8> {
    if n < 10 {
        seq![(48 + n) as u8]
    } else if n < 100 {
        seq![(48 + n / 10) as u8, (48 + n % 10) as u8]
    } else {
        seq![(48 + n / 10 / 10) as u8, (48 + (n / 10) % 10) as u8, (48 + n % 10) as u8]
    }
}

/// Appends the decimal rendering of `n`.
pub fn push_digits(out: &mut Vec<u8>, n: u8)
    ensures
        final(out)@ == old(out)@ + spec_digits(n),
{
    if n < 10 {
        out.push(48 + n);
    } else if n < 100 {
        out.push(48 + n / 10);
        out.push(48 + n % 10);
    } else {
        out.push(48 + n / 10 / 10);
        out.push(48 + (n / 10) % 10);
        out.push(48 + n % 10);
    }
    proof {
        assert(out@ =~= old(out)@ + spec_digits(n));
    }
}

/// Reads a decimal number of one to three digits, at most 255, that is
/// not followed by a further digit.
pub open spec fn spec_parse_num(s: Seq<u8>, i: int) -> Option<(u8, int)> {
    if !(0 <= i && i < s.len() && is_digit(s[i])) {
        None
    } else {
        let d0 = s[i] as int - 48;
        if !(i + 1 < s.len() && is_digit(s[i + 1])) {
            Some(((d0) as u8, i + 1))
        } else {
            let d1 = s[i + 1] as int - 48;
            if !(i + 2 < s.len() && is_digit(s[i + 2])) {
                Some(((d0 * 10 + d1) as u8, i + 2))
            } else {
                let d2 = s[i + 2] as int - 48;
                let v = d0 * 100 + d1 * 10 + d2;
                if v <= 255 && !(i + 3 < s.len() && is_digit(s[i + 3])) {
                    Some((v as u8, i + 3))
                } else {
                    None
                }
            }
        }
    }
}

/// Result of an executable parsing step against its specification twin.
pub open spec fn step_eq<T>(r: Option<(T, usize)>, t: Option<(T, int)>) -> bool {
    match r {
        Some(p) => t == Some((p.0, p.1 as int)),
        None => t is None,
    }
}

pub fn parse_num(s: &[u8], i: usize) -> (r: Option<(u8, usize)>)
    requires
        s@.len() <= usize::MAX - 8,
    ensures
        step_eq(r, spec_parse_num(s@, i as int)),
{
    if !(i < s.len() && 48 <= s[i] && s[i] <= 57) {
        return None;
    }
    let d0 = s[i] - 48;
    if !(i + 1 < s.len() && 48 <= s[i + 1] && s[i + 1] <= 57) {
        return Some((d0, i + 1));
    }
    let d1 = s[i + 1] - 48;
    if !(i + 2 < s.len() && 48 <= s[i + 2] && s[i + 2] <= 57) {
        return Some((d0 * 10 + d1, i + 2));
    }
    let d2 = s[i + 2] - 48;
    let v: u32 = (d0 as u32) * 100 + (d1 as u32) * 10 + (d2 as u32);
    if v <= 255 && !(i + 3 < s.len() && 48 <= s[i + 3] && s[i + 3] <= 57) {
        Some((v as u8, i + 3))
    } else {
        None
    }
}

/// Parsing the rendering of `n` reads back exactly `n`, provided the
/// next byte is not a digit.
pub proof fn lemma_parse_num_digits(s: Seq<u8>, i: int, n: u8)
    requires
        matches_at(s, i, spec_digits(n)),
        i + spec_digits(n).len() < s.len(),
        !is_digit(s[i + spec_digits(n).len()]),
    ensures
        spec_parse_num(s, i) == Some((n, i + spec_digits(n).len() as int)),
{
    let d = spec_digits(n);
    vstd::arithmetic::div_mod::lemma_fundamental_div_mod(n as int, 10);
    vstd::arithmetic::div_mod::lemma_fundamental_div_mod(n as int / 10, 10);
    if n < 10 {
        lemma_matches_index(s, i, d, 0);
    } else if n < 100 {
        lemma_matches_index(s, i, d, 0);
        lemma_matches_index(s, i, d, 1);
    } else {
        lemma_matches_index(s, i, d, 0);
        lemma_matches_index(s, i, d, 1);
        lemma_matches_index(s, i, d, 2);
    }
}

/// The rendering of a boolean.
pub open spec fn spec_bool_text(b: bool) -> Seq<u8> {
    if b {
        lit_true()
    } else {
        lit_false()
    }
}

pub open spec fn spec_parse_bool(s: Seq<u8>, i: int) -> Option<(bool, int)> {
    if matches_at(s, i, lit_true()) {
        Some((true, i + lit_true().len() as int))
    } else if matches_at(s, i, lit_false()) {
        Some((false, i + lit_false().len() as int))
    } else {
        None
    }
}

/// Parsing the rendering of `b` reads back exactly `b`.
pub proof fn lemma_parse_bool(s: Seq<u8>, i: int, b: bool)
    requires
        matches_at(s, i, spec_bool_text(b)),
    ensures
        spec_parse_bool(s, i) == Some((b, i + spec_bool_text(b).len() as int)),
{
    if !b {
        if matches_at(s, i, lit_true()) {
            reveal(lit_true);
            reveal(lit_false);
            lemma_matches_index(s, i, lit_true(), 0);
            lemma_matches_index(s, i, lit_false(), 0);
        }
    }
}

/// Appends the rendering of `b`.
pub fn push_bool(out: &mut Vec<u8>, b: bool)
    ensures
        final(out)@ == old(out)@ + spec_bool_text(b),
{
    let mut t = if b {
        lit_true_vec()
    } else {
        lit_false_vec()
    };
    out.append(&mut t);
}

/// Consumes `lit` at position `i` of `s`, if it is there.
pub fn eat(s: &[u8], i: usize, lit: &Vec<u8>) -> (r: Option<usize>)
    ensures
        r is Some <==> matches_at(s@, i as int, lit@),
        r is Some ==> r.unwrap() == i + lit@.len(),
{
    let n = lit.len();
    if n > s.len() || i > s.len() - n {
        return None;
    }
    let mut k: usize = 0;
    proof {
        assert(i + n <= s@.len());
    }
    while k < n
        invariant
            k <= n,
            n == lit@.len(),
            i + n <= s@.len(),
            i + n <= usize::MAX,
            forall|j: int| 0 <= j < k ==> s@[i + j] == lit@[j],
        decreases n - k,
    {
        if s[i + k] != lit[k] {
            proof {
                if matches_at(s@, i as int, lit@) {
                    lemma_matches_index(s@, i as int, lit@, k as int);
                }
            }
            return None;
        }
        k = k + 1;
    }
    proof {
        assert(s@.subrange(i as int, i + n as int) =~= lit@);
    }
    Some(i + n)
}

pub fn parse_bool(s: &[u8], i: usize) -> (r: Option<(bool, usize)>)
    ensures
        step_eq(r, spec_parse_bool(s@, i as int)),
{
    let t = lit_true_vec();
    match eat(s, i, &t) {
        Some(j) => Some((true, j)),
        None => {
            let f = lit_false_vec();
            match eat(s, i, &f) {
                Some(j) => Some((false, j)),
                None => None,
            }
        },
    }
}

/// A quoted tag: opening and closing quote with no quote in between.
pub open spec fn quoted_shape(q: Seq<u8>) -> bool {
    &&& q.len() >= 2
    &&& q[0] == QUOTE
    &&& q[q.len() - 1] == QUOTE
    &&& forall|k: int| 1 <= k < q.len() - 1 ==> q[k] != QUOTE
}

/// Two quoted tags that occur at the same position are the same tag:
/// the shorter one would otherwise put its closing quote inside the
/// longer one.
pub proof fn lemma_quoted_overlap(s: Seq<u8>, i: int, a: Seq<u8>, b: Seq<u8>)
    requires
        matches_at(s, i, a),
        matches_at(s, i, b),
        quoted_shape(a),
        quoted_shape(b),
    ensures
        a == b,
{
    if a.len() < b.len() {
        lemma_matches_index(s, i, a, a.len() - 1);
        lemma_matches_index(s, i, b, a.len() - 1);
    } else if b.len() < a.len() {
        lemma_matches_index(s, i, b, b.len() - 1);
        lemma_matches_index(s, i, a, b.len() - 1);
    } else {
        assert forall|k: int| 0 <= k < a.len() implies a[k] == b[k] by {
            lemma_matches_index(s, i, a, k);
            lemma_matches_index(s, i, b, k);
        }
        assert(a =~= b);
    }
}

/// Length and two distinguishing bytes of each tag: no two tags share
/// this triple.
pub open spec fn qmode_disc(x: AuraModeNum) -> (int, u8, u8) {
    match x {
        AuraModeNum::Static => (8int, 83u8, 97u8),
        AuraModeNum::Breathe => (9int, 66u8, 101u8),
        AuraModeNum::Strobe => (8int, 83u8, 114u8),
        AuraModeNum::Rainbow => (9int, 82u8, 105u8),
        AuraModeNum::Star => (6int, 83u8, 97u8),
        AuraModeNum::Rain => (6int, 82u8, 105u8),
        AuraModeNum::Highlight => (11int, 72u8, 103u8),
        AuraModeNum::Laser => (7int, 76u8, 115u8),
        AuraModeNum::Ripple => (8int, 82u8, 112u8),
        AuraModeNum::Pulse => (7int, 80u8, 108u8),
        AuraModeNum::Comet => (7int, 67u8, 109u8),
        AuraModeNum::Flash => (7int, 70u8, 97u8),
    }
}

/// Every tag is a well-shaped quoted token matching its triple.
pub proof fn lemma_qmode_shape(x: AuraModeNum)
    ensures
        quoted_shape(qmode(x)),
        qmode(x).len() == qmode_disc(x).0,
        qmode(x)[1] == qmode_disc(x).1,
        qmode(x)[3] == qmode_disc(x).2,
{
    reveal(qmode);
    match x {

        AuraModeNum::Static => {},
        AuraModeNum::Breathe => {},
        AuraModeNum::Strobe => {},
        AuraModeNum::Rainbow => {},
        AuraModeNum::Star => {},
        AuraModeNum::Rain => {},
        AuraModeNum::Highlight => {},
        AuraModeNum::Laser => {},
        AuraModeNum::Ripple => {},
        AuraModeNum::Pulse => {},
        AuraModeNum::Comet => {},
        AuraModeNum::Flash => {},
    }
}

/// Distinct values never render to the same tag.
pub proof fn lemma_qmode_inj(a: AuraModeNum, b: AuraModeNum)
    requires
        qmode(a) == qmode(b),
    ensures
        a == b,
{
    lemma_qmode_shape(a);
    lemma_qmode_shape(b);
    if a != b {
        assert(qmode_disc(a) != qmode_disc(b));
        assert(false);
    }
}

#[verifier::opaque]
pub open spec fn spec_parse_qmode(s: Seq<u8>, i: int) -> Option<(AuraModeNum, int)> {
    if matches_at(s, i, qmode(AuraModeNum::Static)) {
        Some((AuraModeNum::Static, i + qmode(AuraModeNum::Static).len() as int))
    } else if matches_at(s, i, qmode(AuraModeNum::Breathe)) {
        Some((AuraModeNum::Breathe, i + qmode(AuraModeNum::Breathe).len() as int))
    } else if matches_at(s, i, qmode(AuraModeNum::Strobe)) {
        Some((AuraModeNum::Strobe, i + qmode(AuraModeNum::Strobe).len() as int))
    } else if matches_at(s, i, qmode(AuraModeNum::Rainbow)) {
        Some((AuraModeNum::Rainbow, i + qmode(AuraModeNum::Rainbow).len() as int))
    } else if matches_at(s, i, qmode(AuraModeNum::Star)) {
        Some((AuraModeNum::Star, i + qmode(AuraModeNum::Star).len() as int))
    } else if matches_at(s, i, qmode(AuraModeNum::Rain)) {
        Some((AuraModeNum::Rain, i + qmode(AuraModeNum::Rain).len() as int))
    } else if matches_at(s, i, qmode(AuraModeNum::Highlight)) {
        Some((AuraModeNum::Highlight, i + qmode(AuraModeNum::Highlight).len() as int))
    } else if matches_at(s, i, qmode(AuraModeNum::Laser)) {
        Some((AuraModeNum::Laser, i + qmode(AuraModeNum::Laser).len() as int))
    } else if matches_at(s, i, qmode(AuraModeNum::Ripple)) {
        Some((AuraModeNum::Ripple, i + qmode(AuraModeNum::Ripple).len() as int))
    } else if matches_at(s, i, qmode(AuraModeNum::Pulse)) {
        Some((AuraModeNum::Pulse, i + qmode(AuraModeNum::Pulse).len() as int))
    } else if matches_at(s, i, qmode(AuraModeNum::Comet)) {
        Some((AuraModeNum::Comet, i + qmode(AuraModeNum::Comet).len() as int))
    } else if matches_at(s, i, qmode(AuraModeNum::Flash)) {
        Some((AuraModeNum::Flash, i + qmode(AuraModeNum::Flash).len() as int))
    } else {
        None
    }
}

/// Parsing the tag of `m` reads back exactly `m`.
pub proof fn lemma_parse_qmode(s: Seq<u8>, i: int, m: AuraModeNum)
    requires
        matches_at(s, i, qmode(m)),
    ensures
        spec_parse_qmode(s, i) == Some((m, i + qmode(m).len() as int)),
{
    reveal(spec_parse_qmode);
    lemma_qmode_shape(m);
    assert forall|k: AuraModeNum| matches_at(s, i, qmode(k)) implies k == m by {
        lemma_qmode_shape(k);
        lemma_quoted_overlap(s, i, qmode(k), qmode(m));
        lemma_qmode_inj(k, m);
    }
}

pub fn parse_qmode(s: &[u8], i: usize) -> (r: Option<(AuraModeNum, usize)>)
    ensures
        step_eq(r, spec_parse_qmode(s@, i as int)),
{
    proof {
        reveal(spec_parse_qmode);
    }
    let t = qmode_vec(AuraModeNum::Static);
    if let Some(j) = eat(s, i, &t) {
        return Some((AuraModeNum::Static, j));
    }
    let t = qmode_vec(AuraModeNum::Breathe);
    if let Some(j) = eat(s, i, &t) {
        return Some((AuraModeNum::Breathe, j));
    }
    let t = qmode_vec(AuraModeNum::Strobe);
    if let Some(j) = eat(s, i, &t) {
        return Some((AuraModeNum::Strobe, j));
    }
    let t = qmode_vec(AuraModeNum::Rainbow);
    if let Some(j) = eat(s, i, &t) {
        return Some((AuraModeNum::Rainbow, j));
    }
    let t = qmode_vec(AuraModeNum::Star);
    if let Some(j) = eat(s, i, &t) {
        return Some((AuraModeNum::Star, j));
    }
    let t = qmode_vec(AuraModeNum::Rain);
    if let Some(j) = eat(s, i, &t) {
        return Some((AuraModeNum::Rain, j));
    }
    let t = qmode_vec(AuraModeNum::Highlight);
    if let Some(j) = eat(s, i, &t) {
        return Some((AuraModeNum::Highlight, j));
    }
    let t = qmode_vec(AuraModeNum::Laser);
    if let Some(j) = eat(s, i, &t) {
        return Some((AuraModeNum::Laser, j));
    }
    let t = qmode_vec(AuraModeNum::Ripple);
    if let Some(j) = eat(s, i, &t) {
        return Some((AuraModeNum::Ripple, j));
    }
    let t = qmode_vec(AuraModeNum::Pulse);
    if let Some(j) = eat(s, i, &t) {
        return Some((AuraModeNum::Pulse, j));
    }
    let t = qmode_vec(AuraModeNum::Comet);
    if let Some(j) = eat(s, i, &t) {
        return Some((AuraModeNum::Comet, j));
    }
    let t = qmode_vec(AuraModeNum::Flash);
    if let Some(j) = eat(s, i, &t) {
        return Some((AuraModeNum::Flash, j));
    }
    None
}

/// Length and two distinguishing bytes of each tag: no two tags share
/// this triple.
pub open spec fn qzone_disc(x: AuraZone) -> (int, u8, u8) {
    match x {
        AuraZone::Global => (6int, 78u8, 101u8),
        AuraZone::Key1 => (6int, 75u8, 49u8),
        AuraZone::Key2 => (6int, 75u8, 50u8),
        AuraZone::Key3 => (6int, 75u8, 51u8),
        AuraZone::Key4 => (6int, 75u8, 52u8),
    }
}

/// Every tag is a well-shaped quoted token matching its triple.
pub proof fn lemma_qzone_shape(x: AuraZone)
    ensures
        quoted_shape(qzone(x)),
        qzone(x).len() == qzone_disc(x).0,
        qzone(x)[1] == qzone_disc(x).1,
        qzone(x)[4] == qzone_disc(x).2,
{
    reveal(qzone);
    match x {

        AuraZone::Global => {},
        AuraZone::Key1 => {},
        AuraZone::Key2 => {},
        AuraZone::Key3 => {},
        AuraZone::Key4 => {},
    }
}

/// Distinct values never render to the same tag.
pub proof fn lemma_qzone_inj(a: AuraZone, b: AuraZone)
    requires
        qzone(a) == qzone(b),
    ensures
        a == b,
{
    lemma_qzone_shape(a);
    lemma_qzone_shape(b);
    if a != b {
        assert(qzone_disc(a) != qzone_disc(b));
        assert(false);
    }
}

#[verifier::opaque]
pub open spec fn spec_parse_qzone(s: Seq<u8>, i: int) -> Option<(AuraZone, int)> {
    if matches_at(s, i, qzone(AuraZone::Global)) {
        Some((AuraZone::Global, i + qzone(AuraZone::Global).len() as int))
    } else if matches_at(s, i, qzone(AuraZone::Key1)) {
        Some((AuraZone::Key1, i + qzone(AuraZone::Key1).len() as int))
    } else if matches_at(s, i, qzone(AuraZone::Key2)) {
        Some((AuraZone::Key2, i + qzone(AuraZone::Key2).len() as int))
    } else if matches_at(s, i, qzone(AuraZone::Key3)) {
        Some((AuraZone::Key3, i + qzone(AuraZone::Key3).len() as int))
    } else if matches_at(s, i, qzone(AuraZone::Key4)) {
        Some((AuraZone::Key4, i + qzone(AuraZone::Key4).len() as int))
    } else {
        None
    }
}

/// Parsing the tag of `m` reads back exactly `m`.
pub proof fn lemma_parse_qzone(s: Seq<u8>, i: int, m: AuraZone)
    requires
        matches_at(s, i, qzone(m)),
    ensures
        spec_parse_qzone(s, i) == Some((m, i + qzone(m).len() as int)),
{
    reveal(spec_parse_qzone);
    lemma_qzone_shape(m);
    assert forall|k: AuraZone| matches_at(s, i, qzone(k)) implies k == m by {
        lemma_qzone_shape(k);
        lemma_quoted_overlap(s, i, qzone(k), qzone(m));
        lemma_qzone_inj(k, m);
    }
}

pub fn parse_qzone(s: &[u8], i: usize) -> (r: Option<(AuraZone, usize)>)
    ensures
        step_eq(r, spec_parse_qzone(s@, i as int)),
{
    proof {
        reveal(spec_parse_qzone);
    }
    let t = qzone_vec(AuraZone::Global);
    if let Some(j) = eat(s, i, &t) {
        return Some((AuraZone::Global, j));
    }
    let t = qzone_vec(AuraZone::Key1);
    if let Some(j) = eat(s, i, &t) {
        return Some((AuraZone::Key1, j));
    }
    let t = qzone_vec(AuraZone::Key2);
    if let Some(j) = eat(s, i, &t) {
        return Some((AuraZone::Key2, j));
    }
    let t = qzone_vec(AuraZone::Key3);
    if let Some(j) = eat(s, i, &t) {
        return Some((AuraZone::Key3, j));
    }
    let t = qzone_vec(AuraZone::Key4);
    if let Some(j) = eat(s, i, &t) {
        return Some((AuraZone::Key4, j));
    }
    None
}

/// Length and two distinguishing bytes of each tag: no two tags share
/// this triple.
pub open spec fn qspeed_disc(x: Speed) -> (int, u8, u8) {
    match x {
        Speed::Low => (5int, 76u8, 76u8),
        Speed::Med => (5int, 77u8, 77u8),
        Speed::High => (6int, 72u8, 72u8),
    }
}

/// Every tag is a well-shaped quoted token matching its triple.
pub proof fn lemma_qspeed_shape(x: Speed)
    ensures
        quoted_shape(qspeed(x)),
        qspeed(x).len() == qspeed_disc(x).0,
        qspeed(x)[1] == qspeed_disc(x).1,
        qspeed(x)[1] == qspeed_disc(x).2,
{
    reveal(qspeed);
    match x {

        Speed::Low => {},
        Speed::Med => {},
        Speed::High => {},
    }
}

/// Distinct values never render to the same tag.
pub proof fn lemma_qspeed_inj(a: Speed, b: Speed)
    requires
        qspeed(a) == qspeed(b),
    ensures
        a == b,
{
    lemma_qspeed_shape(a);
    lemma_qspeed_shape(b);
    if a != b {
        assert(qspeed_disc(a) != qspeed_disc(b));
        assert(false);
    }
}

#[verifier::opaque]
pub open spec fn spec_parse_qspeed(s: Seq<u8>, i: int) -> Option<(Speed, int)> {
    if matches_at(s, i, qspeed(Speed::Low)) {
        Some((Speed::Low, i + qspeed(Speed::Low).len() as int))
    } else if matches_at(s, i, qspeed(Speed::Med)) {
        Some((Speed::Med, i + qspeed(Speed::Med).len() as int))
    } else if matches_at(s, i, qspeed(Speed::High)) {
        Some((Speed::High, i + qspeed(Speed::High).len() as int))
    } else {
        None
    }
}

/// Parsing the tag of `m` reads back exactly `m`.
pub proof fn lemma_parse_qspeed(s: Seq<u8>, i: int, m: Speed)
    requires
        matches_at(s, i, qspeed(m)),
    ensures
        spec_parse_qspeed(s, i) == Some((m, i + qspeed(m).len() as int)),
{
    reveal(spec_parse_qspeed);
    lemma_qspeed_shape(m);
    assert forall|k: Speed| matches_at(s, i, qspeed(k)) implies k == m by {
        lemma_qspeed_shape(k);
        lemma_quoted_overlap(s, i, qspeed(k), qspeed(m));
        lemma_qspeed_inj(k, m);
    }
}

pub fn parse_qspeed(s: &[u8], i: usize) -> (r: Option<(Speed, usize)>)
    ensures
        step_eq(r, spec_parse_qspeed(s@, i as int)),
{
    proof {
        reveal(spec_parse_qspeed);
    }
    let t = qspeed_vec(Speed::Low);
    if let Some(j) = eat(s, i, &t) {
        return Some((Speed::Low, j));
    }
    let t = qspeed_vec(Speed::Med);
    if let Some(j) = eat(s, i, &t) {
        return Some((Speed::Med, j));
    }
    let t = qspeed_vec(Speed::High);
    if let Some(j) = eat(s, i, &t) {
        return Some((Speed::High, j));
    }
    None
}

/// Length and two distinguishing bytes of each tag: no two tags share
/// this triple.
pub open spec fn qdir_disc(x: Direction) -> (int, u8, u8) {
    match x {
        Direction::Right => (7int, 82u8, 82u8),
        Direction::Left => (6int, 76u8, 76u8),
        Direction::Up => (4int, 85u8, 85u8),
        Direction::Down => (6int, 68u8, 68u8),
    }
}

/// Every tag is a well-shaped quoted token matching its triple.
pub proof fn lemma_qdir_shape(x: Direction)
    ensures
        quoted_shape(qdir(x)),
        qdir(x).len() == qdir_disc(x).0,
        qdir(x)[1] == qdir_disc(x).1,
        qdir(x)[1] == qdir_disc(x).2,
{
    reveal(qdir);
    match x {

        Direction::Right => {},
        Direction::Left => {},
        Direction::Up => {},
        Direction::Down => {},
    }
}

/// Distinct values never render to the same tag.
pub proof fn lemma_qdir_inj(a: Direction, b: Direction)
    requires
        qdir(a) == qdir(b),
    ensures
        a == b,
{
    lemma_qdir_shape(a);
    lemma_qdir_shape(b);
    if a != b {
        assert(qdir_disc(a) != qdir_disc(b));
        assert(false);
    }
}

#[verifier::opaque]
pub open spec fn spec_parse_qdir(s: Seq<u8>, i: int) -> Option<(Direction, int)> {
    if matches_at(s, i, qdir(Direction::Right)) {
        Some((Direction::Right, i + qdir(Direction::Right).len() as int))
    } else if matches_at(s, i, qdir(Direction::Left)) {
        Some((Direction::Left, i + qdir(Direction::Left).len() as int))
    } else if matches_at(s, i, qdir(Direction::Up)) {
        Some((Direction::Up, i + qdir(Direction::Up).len() as int))
    } else if matches_at(s, i, qdir(Direction::Down)) {
        Some((Direction::Down, i + qdir(Direction::Down).len() as int))
    } else {
        None
    }
}

/// Parsing the tag of `m` reads back exactly `m`.
pub proof fn lemma_parse_qdir(s: Seq<u8>, i: int, m: Direction)
    requires
        matches_at(s, i, qdir(m)),
    ensures
        spec_parse_qdir(s, i) == Some((m, i + qdir(m).len() as int)),
{
    reveal(spec_parse_qdir);
    lemma_qdir_shape(m);
    assert forall|k: Direction| matches_at(s, i, qdir(k)) implies k == m by {
        lemma_qdir_shape(k);
        lemma_quoted_overlap(s, i, qdir(k), qdir(m));
        lemma_qdir_inj(k, m);
    }
}

pub fn parse_qdir(s: &[u8], i: usize) -> (r: Option<(Direction, usize)>)
    ensures
        step_eq(r, spec_parse_qdir(s@, i as int)),
{
    proof {
        reveal(spec_parse_qdir);
    }
    let t = qdir_vec(Direction::Right);
    if let Some(j) = eat(s, i, &t) {
        return Some((Direction::Right, j));
    }
    let t = qdir_vec(Direction::Left);
    if let Some(j) = eat(s, i, &t) {
        return Some((Direction::Left, j));
    }
    let t = qdir_vec(Direction::Up);
    if let Some(j) = eat(s, i, &t) {
        return Some((Direction::Up, j));
    }
    let t = qdir_vec(Direction::Down);
    if let Some(j) = eat(s, i, &t) {
        return Some((Direction::Down, j));
    }
    None
}


/// The rendering of a colour: its three channels in brackets.
#[verifier::opaque]
pub open spec fn spec_render_colour(c: Colour) -> Seq<u8> {
    seq![LBRACK] + (spec_digits(c.0) + (seq![COMMA] + (spec_digits(c.1) + (seq![COMMA] + (
    spec_digits(c.2) + seq![RBRACK])))))
}

/// Appends the rendering of `c`.
pub fn push_colour(out: &mut Vec<u8>, c: Colour)
    ensures
        final(out)@ == old(out)@ + spec_render_colour(c),
{
    proof {
        reveal(spec_render_colour);
    }
    out.push(LBRACK);
    push_digits(out, c.0);
    out.push(COMMA);
    push_digits(out, c.1);
    out.push(COMMA);
    push_digits(out, c.2);
    out.push(RBRACK);
    proof {
        assert(out@ =~= old(out)@ + spec_render_colour(c));
    }
}

#[verifier::opaque]
pub open spec fn spec_parse_colour(s: Seq<u8>, i: int) -> Option<(Colour, int)> {
    match spec_eat(s, i, seq![LBRACK]) {
        None => None,
        Some(i1) => match spec_parse_num(s, i1) {
            None => None,
            Some((r, i2)) => match spec_eat(s, i2, seq![COMMA]) {
                None => None,
                Some(i3) => match spec_parse_num(s, i3) {
                    None => None,
                    Some((g, i4)) => match spec_eat(s, i4, seq![COMMA]) {
                        None => None,
                        Some(i5) => match spec_parse_num(s, i5) {
                            None => None,
                            Some((b, i6)) => match spec_eat(s, i6, seq![RBRACK]) {
                                None => None,
                                Some(i7) => Some((Colour(r, g, b), i7)),
                            },
                        },
                    },
                },
            },
        },
    }
}

pub fn parse_colour(s: &[u8], i: usize) -> (r: Option<(Colour, usize)>)
    requires
        s@.len() <= usize::MAX - 8,
    ensures
        step_eq(r, spec_parse_colour(s@, i as int)),
{
    proof {
        reveal(spec_parse_colour);
    }
    let mut lb: Vec<u8> = Vec::new();
    lb.push(LBRACK);
    let mut cm: Vec<u8> = Vec::new();
    cm.push(COMMA);
    let mut rb: Vec<u8> = Vec::new();
    rb.push(RBRACK);
    proof {
        assert(lb@ =~= seq![LBRACK]);
        assert(cm@ =~= seq![COMMA]);
        assert(rb@ =~= seq![RBRACK]);
    }
    let i1 = match eat(s, i, &lb) {
        Some(j) => j,
        None => {
            return None;
        },
    };
    let (r, i2) = match parse_num(s, i1) {
        Some(p) => p,
        None => {
            return None;
        },
    };
    let i3 = match eat(s, i2, &cm) {
        Some(j) => j,
        None => {
            return None;
        },
    };
    let (g, i4) = match parse_num(s, i3) {
        Some(p) => p,
        None => {
            return None;
        },
    };
    let i5 = match eat(s, i4, &cm) {
        Some(j) => j,
        None => {
            return None;
        },
    };
    let (b, i6) = match parse_num(s, i5) {
        Some(p) => p,
        None => {
            return None;
        },
    };
    let i7 = match eat(s, i6, &rb) {
        Some(j) => j,
        None => {
            return None;
        },
    };
    Some((Colour(r, g, b), i7))
}

/// Parsing the rendering of `c` reads back exactly `c`.
pub proof fn lemma_parse_colour(s: Seq<u8>, i: int, c: Colour)
    requires
        matches_at(s, i, spec_render_colour(c)),
    ensures
        spec_parse_colour(s, i) == Some((c, i + spec_render_colour(c).len() as int)),
{
    reveal(spec_render_colour);
    reveal(spec_parse_colour);
    let r1 = spec_digits(c.0) + (seq![COMMA] + (spec_digits(c.1) + (seq![COMMA] + (spec_digits(
        c.2,
    ) + seq![RBRACK]))));
    lemma_matches_split(s, i, seq![LBRACK], r1);
    let i1 = i + 1;
    let r2 = seq![COMMA] + (spec_digits(c.1) + (seq![COMMA] + (spec_digits(c.2) + seq![RBRACK])));
    lemma_matches_split(s, i1, spec_digits(c.0), r2);
    let i2 = i1 + spec_digits(c.0).len();
    lemma_matches_index(s, i2, r2, 0);
    lemma_parse_num_digits(s, i1, c.0);
    let r3 = spec_digits(c.1) + (seq![COMMA] + (spec_digits(c.2) + seq![RBRACK]));
    lemma_matches_split(s, i2, seq![COMMA], r3);
    let i3 = i2 + 1;
    let r4 = seq![COMMA] + (spec_digits(c.2) + seq![RBRACK]);
    lemma_matches_split(s, i3, spec_digits(c.1), r4);
    let i4 = i3 + spec_digits(c.1).len();
    lemma_matches_index(s, i4, r4, 0);
    lemma_parse_num_digits(s, i3, c.1);
    let r5 = spec_digits(c.2) + seq![RBRACK];
    lemma_matches_split(s, i4, seq![COMMA], r5);
    let i5 = i4 + 1;
    lemma_matches_split(s, i5, spec_digits(c.2), seq![RBRACK]);
    let i6 = i5 + spec_digits(c.2).len();
    lemma_matches_index(s, i6, seq![RBRACK], 0);
    lemma_parse_num_digits(s, i5, c.2);
}

/// The rendering of one effect: a fixed-order object of its six fields.
#[verifier::opaque]
pub open spec fn spec_render_effect(e: AuraEffect) -> Seq<u8> {
    lit_eff_mode() + (qmode(e.mode) + (lit_eff_zone() + (qzone(e.zone) + (lit_eff_colour1() + (
    spec_render_colour(e.colour1) + (lit_eff_colour2() + (spec_render_colour(e.colour2) + (
    lit_eff_speed() + (qspeed(e.speed) + (lit_eff_direction() + (qdir(e.direction)
        + seq![RBRACE])))))))))))
}

/// Appends the rendering of `e`.
#[verifier::rlimit(60)]
pub fn push_effect(out: &mut Vec<u8>, e: &AuraEffect)
    ensures
        final(out)@ == old(out)@ + spec_render_effect(*e),
{
    proof {
        reveal(spec_render_effect);
    }
    let mut t = lit_eff_mode_vec();
    out.append(&mut t);
    let mut t = qmode_vec(e.mode);
    out.append(&mut t);
    let mut t = lit_eff_zone_vec();
    out.append(&mut t);
    let mut t = qzone_vec(e.zone);
    out.append(&mut t);
    let mut t = lit_eff_colour1_vec();
    out.append(&mut t);
    push_colour(out, e.colour1);
    let mut t = lit_eff_colour2_vec();
    out.append(&mut t);
    push_colour(out, e.colour2);
    let mut t = lit_eff_speed_vec();
    out.append(&mut t);
    let mut t = qspeed_vec(e.speed);
    out.append(&mut t);
    let mut t = lit_eff_direction_vec();
    out.append(&mut t);
    let mut t = qdir_vec(e.direction);
    out.append(&mut t);
    out.push(RBRACE);
    proof {
        assert(out@ =~= old(out)@ + spec_render_effect(*e));
    }
}

#[verifier::opaque]
pub open spec fn spec_parse_effect(s: Seq<u8>, i: int) -> Option<(AuraEffect, int)> {
    match spec_eat(s, i, lit_eff_mode()) {
        None => None,
        Some(i1) => match spec_parse_qmode(s, i1) {
            None => None,
            Some((mode, i2)) => match spec_eat(s, i2, lit_eff_zone()) {
                None => None,
                Some(i3) => match spec_parse_qzone(s, i3) {
                    None => None,
                    Some((zone, i4)) => match spec_eat(s, i4, lit_eff_colour1()) {
                        None => None,
                        Some(i5) => match spec_parse_colour(s, i5) {
                            None => None,
                            Some((colour1, i6)) => match spec_eat(s, i6, lit_eff_colour2()) {
                                None => None,
                                Some(i7) => match spec_parse_colour(s, i7) {
                                    None => None,
                                    Some((colour2, i8)) => match spec_eat(
                                        s,
                                        i8,
                                        lit_eff_speed(),
                                    ) {
                                        None => None,
                                        Some(i9) => match spec_parse_qspeed(s, i9) {
                                            None => None,
                                            Some((speed, i10)) => match spec_eat(
                                                s,
                                                i10,
                                                lit_eff_direction(),
                                            ) {
                                                None => None,
                                                Some(i11) => match spec_parse_qdir(s, i11) {
                                                    None => None,
                                                    Some((direction, i12)) => match spec_eat(
                                                        s,
                                                        i12,
                                                        seq![RBRACE],
                                                    ) {
                                                        None => None,
                                                        Some(i13) => Some(
                                                            (
                                                                AuraEffect {
                                                                    mode,
                                                                    zone,
                                                                    colour1,
                                                                    colour2,
                                                                    speed,
                                                                    direction,
                                                                },
                                                                i13,
                                                            ),
                                                        ),
                                                    },
                                                },
                                            },
                                        },
                                    },
                                },
                            },
                        },
                    },
                },
            },
        },
    }
}

pub fn parse_effect(s: &[u8], i: usize) -> (r: Option<(AuraEffect, usize)>)
    requires
        s@.len() <= usize::MAX - 8,
    ensures
        step_eq(r, spec_parse_effect(s@, i as int)),
{
    proof {
        reveal(spec_parse_effect);
    }
    let mut rb: Vec<u8> = Vec::new();
    rb.push(RBRACE);
    proof {
        assert(rb@ =~= seq![RBRACE]);
    }
    let t = lit_eff_mode_vec();
    let i1 = match eat(s, i, &t) {
        Some(j) => j,
        None => {
            return None;
        },
    };
    let (mode, i2) = match parse_qmode(s, i1) {
        Some(p) => p,
        None => {
            return None;
        },
    };
    let t = lit_eff_zone_vec();
    let i3 = match eat(s, i2, &t) {
        Some(j) => j,
        None => {
            return None;
        },
    };
    let (zone, i4) = match parse_qzone(s, i3) {
        Some(p) => p,
        None => {
            return None;
        },
    };
    let t = lit_eff_colour1_vec();
    let i5 = match eat(s, i4, &t) {
        Some(j) => j,
        None => {
            return None;
        },
    };
    let (colour1, i6) = match parse_colour(s, i5) {
        Some(p) => p,
        None => {
            return None;
        },
    };
    let t = lit_eff_colour2_vec();
    let i7 = match eat(s, i6, &t) {
        Some(j) => j,
        None => {
            return None;
        },
    };
    let (colour2, i8) = match parse_colour(s, i7) {
        Some(p) => p,
        None => {
            return None;
        },
    };
    let t = lit_eff_speed_vec();
    let i9 = match eat(s, i8, &t) {
        Some(j) => j,
        None => {
            return None;
        },
    };
    let (speed, i10) = match parse_qspeed(s, i9) {
        Some(p) => p,
        None => {
            return None;
        },
    };
    let t = lit_eff_direction_vec();
    let i11 = match eat(s, i10, &t) {
        Some(j) => j,
        None => {
            return None;
        },
    };
    let (direction, i12) = match parse_qdir(s, i11) {
        Some(p) => p,
        None => {
            return None;
        },
    };
    let i13 = match eat(s, i12, &rb) {
        Some(j) => j,
        None => {
            return None;
        },
    };
    Some((AuraEffect { mode, zone, colour1, colour2, speed, direction }, i13))
}

/// Parsing the rendering of `e` reads back exactly `e`.
#[verifier::rlimit(60)]
pub proof fn lemma_parse_effect(s: Seq<u8>, i: int, e: AuraEffect)
    requires
        matches_at(s, i, spec_render_effect(e)),
    ensures
        spec_parse_effect(s, i) == Some((e, i + spec_render_effect(e).len() as int)),
{
    reveal(spec_render_effect);
    reveal(spec_parse_effect);
    let r1 = qmode(e.mode) + (lit_eff_zone() + (qzone(e.zone) + (lit_eff_colour1() + (
    spec_render_colour(e.colour1) + (lit_eff_colour2() + (spec_render_colour(e.colour2) + (
    lit_eff_speed() + (qspeed(e.speed) + (lit_eff_direction() + (qdir(e.direction)
        + seq![RBRACE]))))))))));
    lemma_matches_split(s, i, lit_eff_mode(), r1);
    let i1 = i + lit_eff_mode().len();
    let r2 = lit_eff_zone() + (qzone(e.zone) + (lit_eff_colour1() + (spec_render_colour(
        e.colour1,
    ) + (lit_eff_colour2() + (spec_render_colour(e.colour2) + (lit_eff_speed() + (qspeed(
        e.speed,
    ) + (lit_eff_direction() + (qdir(e.direction) + seq![RBRACE])))))))));
    lemma_matches_split(s, i1, qmode(e.mode), r2);
    lemma_parse_qmode(s, i1, e.mode);
    let i2 = i1 + qmode(e.mode).len();
    let r3 = qzone(e.zone) + (lit_eff_colour1() + (spec_render_colour(e.colour1) + (
    lit_eff_colour2() + (spec_render_colour(e.colour2) + (lit_eff_speed() + (qspeed(e.speed) + (
    lit_eff_direction() + (qdir(e.direction) + seq![RBRACE]))))))));
    lemma_matches_split(s, i2, lit_eff_zone(), r3);
    let i3 = i2 + lit_eff_zone().len();
    let r4 = lit_eff_colour1() + (spec_render_colour(e.colour1) + (lit_eff_colour2() + (
    spec_render_colour(e.colour2) + (lit_eff_speed() + (qspeed(e.speed) + (lit_eff_direction()
        + (qdir(e.direction) + seq![RBRACE])))))));
    lemma_matches_split(s, i3, qzone(e.zone), r4);
    lemma_parse_qzone(s, i3, e.zone);
    let i4 = i3 + qzone(e.zone).len();
    let r5 = spec_render_colour(e.colour1) + (lit_eff_colour2() + (spec_render_colour(
        e.colour2,
    ) + (lit_eff_speed() + (qspeed(e.speed) + (lit_eff_direction() + (qdir(e.direction)
        + seq![RBRACE]))))));
    lemma_matches_split(s, i4, lit_eff_colour1(), r5);
    let i5 = i4 + lit_eff_colour1().len();
    let r6 = lit_eff_colour2() + (spec_render_colour(e.colour2) + (lit_eff_speed() + (qspeed(
        e.speed,
    ) + (lit_eff_direction() + (qdir(e.direction) + seq![RBRACE])))));
    lemma_matches_split(s, i5, spec_render_colour(e.colour1), r6);
    lemma_parse_colour(s, i5, e.colour1);
    let i6 = i5 + spec_render_colour(e.colour1).len();
    let r7 = spec_render_colour(e.colour2) + (lit_eff_speed() + (qspeed(e.speed) + (
    lit_eff_direction() + (qdir(e.direction) + seq![RBRACE]))));
    lemma_matches_split(s, i6, lit_eff_colour2(), r7);
    let i7 = i6 + lit_eff_colour2().len();
    let r8 = lit_eff_speed() + (qspeed(e.speed) + (lit_eff_direction() + (qdir(e.direction)
        + seq![RBRACE])));
    lemma_matches_split(s, i7, spec_render_colour(e.colour2), r8);
    lemma_parse_colour(s, i7, e.colour2);
    let i8 = i7 + spec_render_colour(e.colour2).len();
    let r9 = qspeed(e.speed) + (lit_eff_direction() + (qdir(e.direction) + seq![RBRACE]));
    lemma_matches_split(s, i8, lit_eff_speed(), r9);
    let i9 = i8 + lit_eff_speed().len();
    let r10 = lit_eff_direction() + (qdir(e.direction) + seq![RBRACE]);
    lemma_matches_split(s, i9, qspeed(e.speed), r10);
    lemma_parse_qspeed(s, i9, e.speed);
    let i10 = i9 + qspeed(e.speed).len();
    let r11 = qdir(e.direction) + seq![RBRACE];
    lemma_matches_split(s, i10, lit_eff_direction(), r11);
    let i11 = i10 + lit_eff_direction().len();
    lemma_matches_split(s, i11, qdir(e.direction), seq![RBRACE]);
    lemma_parse_qdir(s, i11, e.direction);
}


/// The rendering of the power-state flags: a fixed-order object of the
/// five booleans.
#[verifier::opaque]
pub open spec fn spec_render_power(p: LedPowerStates) -> Seq<u8> {
    lit_pw_boot() + (spec_bool_text(p.boot_anim) + (lit_pw_sleep() + (spec_bool_text(
        p.sleep_anim,
    ) + (lit_pw_all() + (spec_bool_text(p.all_leds) + (lit_pw_keys() + (spec_bool_text(
        p.keys_leds,
    ) + (lit_pw_side() + (spec_bool_text(p.side_leds) + seq![RBRACE])))))))))
}

/// Appends the rendering of `p`.
#[verifier::rlimit(60)]
pub fn push_power(out: &mut Vec<u8>, p: &LedPowerStates)
    ensures
        final(out)@ == old(out)@ + spec_render_power(*p),
{
    proof {
        reveal(spec_render_power);
    }
    let mut t = lit_pw_boot_vec();
    out.append(&mut t);
    push_bool(out, p.boot_anim);
    let mut t = lit_pw_sleep_vec();
    out.append(&mut t);
    push_bool(out, p.sleep_anim);
    let mut t = lit_pw_all_vec();
    out.append(&mut t);
    push_bool(out, p.all_leds);
    let mut t = lit_pw_keys_vec();
    out.append(&mut t);
    push_bool(out, p.keys_leds);
    let mut t = lit_pw_side_vec();
    out.append(&mut t);
    push_bool(out, p.side_leds);
    out.push(RBRACE);
    proof {
        let q = *p;
        let a1 = lit_pw_boot();
        let a2 = spec_bool_text(q.boot_anim);
        let a3 = lit_pw_sleep();
        let a4 = spec_bool_text(q.sleep_anim);
        let a5 = lit_pw_all();
        let a6 = spec_bool_text(q.all_leds);
        let a7 = lit_pw_keys();
        let a8 = spec_bool_text(q.keys_leds);
        let a9 = lit_pw_side();
        let a10 = spec_bool_text(q.side_leds);
        let a11 = seq![RBRACE];
        let s0 = old(out)@;
        assert(out@ == s0 + a1 + a2 + a3 + a4 + a5 + a6 + a7 + a8 + a9 + a10 + a11) by {
            assert((s0 + a1 + a2 + a3 + a4 + a5 + a6 + a7 + a8 + a9 + a10).push(RBRACE) =~= s0
                + a1 + a2 + a3 + a4 + a5 + a6 + a7 + a8 + a9 + a10 + a11);
        }
        let r10 = a10 + a11;
        let r9 = a9 + r10;
        let r8 = a8 + r9;
        let r7 = a7 + r8;
        let r6 = a6 + r7;
        let r5 = a5 + r6;
        let r4 = a4 + r5;
        let r3 = a3 + r4;
        let r2 = a2 + r3;
        let r1 = a1 + r2;
        vstd::seq_lib::lemma_concat_associative(s0 + a1 + a2 + a3 + a4 + a5 + a6 + a7 + a8 + a9,
            a10, a11);
        vstd::seq_lib::lemma_concat_associative(s0 + a1 + a2 + a3 + a4 + a5 + a6 + a7 + a8, a9,
            r10);
        vstd::seq_lib::lemma_concat_associative(s0 + a1 + a2 + a3 + a4 + a5 + a6 + a7, a8, r9);
        vstd::seq_lib::lemma_concat_associative(s0 + a1 + a2 + a3 + a4 + a5 + a6, a7, r8);
        vstd::seq_lib::lemma_concat_associative(s0 + a1 + a2 + a3 + a4 + a5, a6, r7);
        vstd::seq_lib::lemma_concat_associative(s0 + a1 + a2 + a3 + a4, a5, r6);
        vstd::seq_lib::lemma_concat_associative(s0 + a1 + a2 + a3, a4, r5);
        vstd::seq_lib::lemma_concat_associative(s0 + a1 + a2, a3, r4);
        vstd::seq_lib::lemma_concat_associative(s0 + a1, a2, r3);
        vstd::seq_lib::lemma_concat_associative(s0, a1, r2);
        assert(out@ == s0 + spec_render_power(q));
    }
}

#[verifier::opaque]
pub open spec fn spec_parse_power(s: Seq<u8>, i: int) -> Option<(LedPowerStates, int)> {
    match spec_eat(s, i, lit_pw_boot()) {
        None => None,
        Some(i1) => match spec_parse_bool(s, i1) {
            None => None,
            Some((boot_anim, i2)) => match spec_eat(s, i2, lit_pw_sleep()) {
                None => None,
                Some(i3) => match spec_parse_bool(s, i3) {
                    None => None,
                    Some((sleep_anim, i4)) => match spec_eat(s, i4, lit_pw_all()) {
                        None => None,
                        Some(i5) => match spec_parse_bool(s, i5) {
                            None => None,
                            Some((all_leds, i6)) => match spec_eat(s, i6, lit_pw_keys()) {
                                None => None,
                                Some(i7) => match spec_parse_bool(s, i7) {
                                    None => None,
                                    Some((keys_leds, i8)) => match spec_eat(
                                        s,
                                        i8,
                                        lit_pw_side(),
                                    ) {
                                        None => None,
                                        Some(i9) => match spec_parse_bool(s, i9) {
                                            None => None,
                                            Some((side_leds, i10)) => match spec_eat(
                                                s,
                                                i10,
                                                seq![RBRACE],
                                            ) {
                                                None => None,
                                                Some(i11) => Some(
                                                    (
                                                        LedPowerStates {
                                                            boot_anim,
                                                            sleep_anim,
                                                            all_leds,
                                                            keys_leds,
                                                            side_leds,
                                                        },
                                                        i11,
                                                    ),
                                                ),
                                            },
                                        },
                                    },
                                },
                            },
                        },
                    },
                },
            },
        },
    }
}

pub fn parse_power(s: &[u8], i: usize) -> (r: Option<(LedPowerStates, usize)>)
    ensures
        step_eq(r, spec_parse_power(s@, i as int)),
{
    proof {
        reveal(spec_parse_power);
    }
    let mut rb: Vec<u8> = Vec::new();
    rb.push(RBRACE);
    proof {
        assert(rb@ =~= seq![RBRACE]);
    }
    let t = lit_pw_boot_vec();
    let i1 = match eat(s, i, &t) {
        Some(j) => j,
        None => {
            return None;
        },
    };
    let (boot_anim, i2) = match parse_bool(s, i1) {
        Some(p) => p,
        None => {
            return None;
        },
    };
    let t = lit_pw_sleep_vec();
    let i3 = match eat(s, i2, &t) {
        Some(j) => j,
        None => {
            return None;
        },
    };
    let (sleep_anim, i4) = match parse_bool(s, i3) {
        Some(p) => p,
        None => {
            return None;
        },
    };
    let t = lit_pw_all_vec();
    let i5 = match eat(s, i4, &t) {
        Some(j) => j,
        None => {
            return None;
        },
    };
    let (all_leds, i6) = match parse_bool(s, i5) {
        Some(p) => p,
        None => {
            return None;
        },
    };
    let t = lit_pw_keys_vec();
    let i7 = match eat(s, i6, &t) {
        Some(j) => j,
        None => {
            return None;
        },
    };
    let (keys_leds, i8) = match parse_bool(s, i7) {
        Some(p) => p,
        None => {
            return None;
        },
    };
    let t = lit_pw_side_vec();
    let i9 = match eat(s, i8, &t) {
        Some(j) => j,
        None => {
            return None;
        },
    };
    let (side_leds, i10) = match parse_bool(s, i9) {
        Some(p) => p,
        None => {
            return None;
        },
    };
    let i11 = match eat(s, i10, &rb) {
        Some(j) => j,
        None => {
            return None;
        },
    };
    Some((LedPowerStates { boot_anim, sleep_anim, all_leds, keys_leds, side_leds }, i11))
}

/// Parsing the rendering of `p` reads back exactly `p`.
#[verifier::rlimit(60)]
pub proof fn lemma_parse_power(s: Seq<u8>, i: int, p: LedPowerStates)
    requires
        matches_at(s, i, spec_render_power(p)),
    ensures
        spec_parse_power(s, i) == Some((p, i + spec_render_power(p).len() as int)),
{
    reveal(spec_render_power);
    reveal(spec_parse_power);
    let r1 = spec_bool_text(p.boot_anim) + (lit_pw_sleep() + (spec_bool_text(p.sleep_anim) + (
    lit_pw_all() + (spec_bool_text(p.all_leds) + (lit_pw_keys() + (spec_bool_text(p.keys_leds)
        + (lit_pw_side() + (spec_bool_text(p.side_leds) + seq![RBRACE]))))))));
    lemma_matches_split(s, i, lit_pw_boot(), r1);
    let i1 = i + lit_pw_boot().len();
    let r2 = lit_pw_sleep() + (spec_bool_text(p.sleep_anim) + (lit_pw_all() + (spec_bool_text(
        p.all_leds,
    ) + (lit_pw_keys() + (spec_bool_text(p.keys_leds) + (lit_pw_side() + (spec_bool_text(
        p.side_leds,
    ) + seq![RBRACE])))))));
    lemma_matches_split(s, i1, spec_bool_text(p.boot_anim), r2);
    lemma_parse_bool(s, i1, p.boot_anim);
    let i2 = i1 + spec_bool_text(p.boot_anim).len();
    let r3 = spec_bool_text(p.sleep_anim) + (lit_pw_all() + (spec_bool_text(p.all_leds) + (
    lit_pw_keys() + (spec_bool_text(p.keys_leds) + (lit_pw_side() + (spec_bool_text(
        p.side_leds,
    ) + seq![RBRACE]))))));
    lemma_matches_split(s, i2, lit_pw_sleep(), r3);
    let i3 = i2 + lit_pw_sleep().len();
    let r4 = lit_pw_all() + (spec_bool_text(p.all_leds) + (lit_pw_keys() + (spec_bool_text(
        p.keys_leds,
    ) + (lit_pw_side() + (spec_bool_text(p.side_leds) + seq![RBRACE])))));
    lemma_matches_split(s, i3, spec_bool_text(p.sleep_anim), r4);
    lemma_parse_bool(s, i3, p.sleep_anim);
    let i4 = i3 + spec_bool_text(p.sleep_anim).len();
    let r5 = spec_bool_text(p.all_leds) + (lit_pw_keys() + (spec_bool_text(p.keys_leds) + (
    lit_pw_side() + (spec_bool_text(p.side_leds) + seq![RBRACE]))));
    lemma_matches_split(s, i4, lit_pw_all(), r5);
    let i5 = i4 + lit_pw_all().len();
    let r6 = lit_pw_keys() + (spec_bool_text(p.keys_leds) + (lit_pw_side() + (spec_bool_text(
        p.side_leds,
    ) + seq![RBRACE])));
    lemma_matches_split(s, i5, spec_bool_text(p.all_leds), r6);
    lemma_parse_bool(s, i5, p.all_leds);
    let i6 = i5 + spec_bool_text(p.all_leds).len();
    let r7 = spec_bool_text(p.keys_leds) + (lit_pw_side() + (spec_bool_text(p.side_leds)
        + seq![RBRACE]));
    lemma_matches_split(s, i6, lit_pw_keys(), r7);
    let i7 = i6 + lit_pw_keys().len();
    let r8 = lit_pw_side() + (spec_bool_text(p.side_leds) + seq![RBRACE]);
    lemma_matches_split(s, i7, spec_bool_text(p.keys_leds), r8);
    lemma_parse_bool(s, i7, p.keys_leds);
    let i8 = i7 + spec_bool_text(p.keys_leds).len();
    let r9 = spec_bool_text(p.side_leds) + seq![RBRACE];
    lemma_matches_split(s, i8, lit_pw_side(), r9);
    let i9 = i8 + lit_pw_side().len();
    lemma_matches_split(s, i9, spec_bool_text(p.side_leds), seq![RBRACE]);
    lemma_parse_bool(s, i9, p.side_leds);
}


/// One entry of the builtins object: the mode tag as key, the effect as
/// value.  The key always equals the effect's own mode field.
pub open spec fn spec_render_bentry(e: AuraEffect) -> Seq<u8> {
    qmode(e.mode) + (seq![COLON] + spec_render_effect(e))
}

/// The comma-led tail of the builtins object for `s`.
pub open spec fn spec_render_brest(s: Seq<AuraEffect>) -> Seq<u8>
    decreases s.len(),
{
    if s.len() == 0 {
        Seq::empty()
    } else {
        seq![COMMA] + (spec_render_bentry(s[0]) + spec_render_brest(s.subrange(1, s.len() as int)))
    }
}

/// The builtins object: entries in stored order between braces.
pub open spec fn spec_render_builtins(s: Seq<AuraEffect>) -> Seq<u8> {
    if s.len() == 0 {
        seq![LBRACE] + seq![RBRACE]
    } else {
        seq![LBRACE] + (spec_render_bentry(s[0]) + (spec_render_brest(
            s.subrange(1, s.len() as int),
        ) + seq![RBRACE]))
    }
}

pub open spec fn spec_parse_bentry(s: Seq<u8>, i: int) -> Option<(AuraEffect, int)> {
    match spec_parse_qmode(s, i) {
        None => None,
        Some((m, i1)) => match spec_eat(s, i1, seq![COLON]) {
            None => None,
            Some(i2) => match spec_parse_effect(s, i2) {
                None => None,
                Some((e, i3)) => if e.mode == m {
                    Some((e, i3))
                } else {
                    None
                },
            },
        },
    }
}

/// Reads the `},`-separated tail of the builtins object, closing brace
/// included; keys must ascend strictly from `prev`.
pub open spec fn spec_parse_brest(s: Seq<u8>, i: int, prev: u8) -> Option<(Seq<AuraEffect>, int)>
    decreases s.len() - i,
{
    if spec_eat(s, i, seq![RBRACE]) is Some {
        Some((Seq::empty(), i + 1))
    } else {
        match spec_eat(s, i, seq![COMMA]) {
            None => None,
            Some(i1) => match spec_parse_bentry(s, i1) {
                None => None,
                Some((e, i2)) => if e.mode.spec_num() > prev && i2 > i && i2 <= s.len() {
                    match spec_parse_brest(s, i2, e.mode.spec_num()) {
                        None => None,
                        Some((rest, j)) => Some((seq![e] + rest, j)),
                    }
                } else {
                    None
                },
            },
        }
    }
}

pub open spec fn spec_parse_builtins(s: Seq<u8>, i: int) -> Option<(Seq<AuraEffect>, int)> {
    match spec_eat(s, i, seq![LBRACE]) {
        None => None,
        Some(i1) => if spec_eat(s, i1, seq![RBRACE]) is Some {
            Some((Seq::empty(), i1 + 1))
        } else {
            match spec_parse_bentry(s, i1) {
                None => None,
                Some((e, i2)) => if i2 > i1 && i2 <= s.len() {
                    match spec_parse_brest(s, i2, e.mode.spec_num()) {
                        None => None,
                        Some((rest, j)) => Some((seq![e] + rest, j)),
                    }
                } else {
                    None
                },
            }
        },
    }
}

/// Parsing the rendering of one builtins entry reads back exactly it.
pub proof fn lemma_parse_bentry(s: Seq<u8>, i: int, e: AuraEffect)
    requires
        matches_at(s, i, spec_render_bentry(e)),
    ensures
        spec_parse_bentry(s, i) == Some((e, i + spec_render_bentry(e).len() as int)),
{
    let r1 = seq![COLON] + spec_render_effect(e);
    lemma_matches_split(s, i, qmode(e.mode), r1);
    lemma_parse_qmode(s, i, e.mode);
    let i1 = i + qmode(e.mode).len();
    lemma_matches_split(s, i1, seq![COLON], spec_render_effect(e));
    let i2 = i1 + 1;
    lemma_parse_effect(s, i2, e);
}

/// Parsing the rendered tail of a sorted entry list reads back exactly
/// that list.
#[verifier::rlimit(100)]
pub proof fn lemma_parse_brest(s: Seq<u8>, i: int, entries: Seq<AuraEffect>, prev: u8)
    requires
        matches_at(s, i, spec_render_brest(entries) + seq![RBRACE]),
        sorted_by_mode(entries),
        forall|k: int| 0 <= k < entries.len() ==> entries[k].mode.spec_num() > prev,
    ensures
        spec_parse_brest(s, i, prev) == Some(
            (entries, i + spec_render_brest(entries).len() + 1),
        ),
    decreases entries.len(),
{
    if entries.len() == 0 {
        assert(spec_render_brest(entries) + seq![RBRACE] == seq![RBRACE]);
    } else {
        let e0 = entries[0];
        let tail = entries.subrange(1, entries.len() as int);
        let whole = spec_render_brest(entries) + seq![RBRACE];
        let b0 = spec_render_bentry(e0);
        let bt = spec_render_brest(tail);
        let rest_part = bt + seq![RBRACE];
        vstd::seq_lib::lemma_concat_associative(seq![COMMA], b0 + bt, seq![RBRACE]);
        vstd::seq_lib::lemma_concat_associative(b0, bt, seq![RBRACE]);
        assert(whole == seq![COMMA] + (b0 + rest_part));
        lemma_matches_index(s, i, whole, 0);
        if spec_eat(s, i, seq![RBRACE]) is Some {
            lemma_matches_index(s, i, seq![RBRACE], 0);
        }
        assert(spec_eat(s, i, seq![RBRACE]) is None);
        lemma_matches_split(s, i, seq![COMMA], spec_render_bentry(e0) + rest_part);
        let i1 = i + 1;
        lemma_matches_split(s, i1, spec_render_bentry(e0), rest_part);
        lemma_parse_bentry(s, i1, e0);
        let i2 = i1 + spec_render_bentry(e0).len();
        lemma_parse_brest(s, i2, tail, e0.mode.spec_num());
        assert(seq![e0] + tail =~= entries);
    }
}

/// Parsing the rendering of a sorted builtins object reads back exactly
/// its entry list.
#[verifier::rlimit(100)]
pub proof fn lemma_parse_builtins(s: Seq<u8>, i: int, entries: Seq<AuraEffect>)
    requires
        matches_at(s, i, spec_render_builtins(entries)),
        sorted_by_mode(entries),
    ensures
        spec_parse_builtins(s, i) == Some(
            (entries, i + spec_render_builtins(entries).len() as int),
        ),
{
    if entries.len() == 0 {
        lemma_matches_split(s, i, seq![LBRACE], seq![RBRACE]);
    } else {
        let e0 = entries[0];
        let tail = entries.subrange(1, entries.len() as int);
        let rest_part = spec_render_brest(tail) + seq![RBRACE];
        let inner = spec_render_bentry(e0) + (spec_render_brest(tail) + seq![RBRACE]);
        lemma_matches_split(s, i, seq![LBRACE], inner);
        let i1 = i + 1;
        lemma_matches_split(s, i1, spec_render_bentry(e0), rest_part);
        lemma_parse_bentry(s, i1, e0);
        let i2 = i1 + spec_render_bentry(e0).len();
        if spec_eat(s, i1, seq![RBRACE]) is Some {
            lemma_matches_index(s, i1, seq![RBRACE], 0);
            lemma_qmode_shape(e0.mode);
            lemma_matches_index(s, i1, spec_render_bentry(e0), 0);
            assert(spec_render_bentry(e0)[0] == qmode(e0.mode)[0]);
        }
        assert(spec_eat(s, i1, seq![RBRACE]) is None);
        lemma_parse_brest(s, i2, tail, e0.mode.spec_num());
        assert(seq![e0] + tail =~= entries);
    }
}

/// Appends the rendering of the builtins object for `map`.
pub fn push_builtins(out: &mut Vec<u8>, map: &BuiltinMap)
    ensures
        final(out)@ == old(out)@ + spec_render_builtins(map@),
{
    let n = map.len();
    out.push(LBRACE);
    if n == 0 {
        out.push(RBRACE);
        proof {
            assert(out@ =~= old(out)@ + spec_render_builtins(map@));
        }
        return ;
    }
    let e0 = map.index(0);
    push_bentry(out, &e0);
    let ghost s0 = old(out)@ + seq![LBRACE] + spec_render_bentry(map@[0]);
    proof {
        assert(out@ == s0);
    }
    let mut k: usize = 1;
    while k < n
        invariant
            1 <= k <= n,
            n == map@.len(),
            out@ == s0 + spec_render_brest_prefix(map@, 1, k as int),
        decreases n - k,
    {
        out.push(COMMA);
        let ek = map.index(k);
        push_bentry(out, &ek);
        proof {
            lemma_brest_prefix_snoc(map@, 1, k as int);
            assert(out@ =~= s0 + spec_render_brest_prefix(map@, 1, k as int + 1));
        }
        k = k + 1;
    }
    out.push(RBRACE);
    proof {
        lemma_brest_prefix_full(map@, 1);
        assert(out@ =~= old(out)@ + spec_render_builtins(map@));
    }
}

/// Appends the rendering of one builtins entry.
fn push_bentry(out: &mut Vec<u8>, e: &AuraEffect)
    ensures
        final(out)@ == old(out)@ + spec_render_bentry(*e),
{
    let mut t = qmode_vec(e.mode);
    out.append(&mut t);
    out.push(COLON);
    push_effect(out, e);
    proof {
        vstd::seq_lib::lemma_concat_associative(
            old(out)@,
            qmode(e.mode),
            seq![COLON] + spec_render_effect(*e),
        );
        assert((old(out)@ + qmode(e.mode)).push(COLON) =~= old(out)@ + qmode(e.mode)
            + seq![COLON]);
        vstd::seq_lib::lemma_concat_associative(
            old(out)@ + qmode(e.mode),
            seq![COLON],
            spec_render_effect(*e),
        );
        vstd::seq_lib::lemma_concat_associative(
            qmode(e.mode),
            seq![COLON],
            spec_render_effect(*e),
        );
        vstd::seq_lib::lemma_concat_associative(
            old(out)@,
            qmode(e.mode) + seq![COLON],
            spec_render_effect(*e),
        );
    }
}

/// The rendered comma-led entries with indices `from <= x < to`.
pub open spec fn spec_render_brest_prefix(s: Seq<AuraEffect>, from: int, to: int) -> Seq<u8>
    decreases to - from,
{
    if from >= to {
        Seq::empty()
    } else {
        seq![COMMA] + (spec_render_bentry(s[from]) + spec_render_brest_prefix(s, from + 1, to))
    }
}

/// Extending a rendered prefix by one entry appends that entry's text.
#[verifier::rlimit(100)]
pub proof fn lemma_brest_prefix_snoc(s: Seq<AuraEffect>, from: int, to: int)
    requires
        0 <= from <= to < s.len(),
    ensures
        spec_render_brest_prefix(s, from, to + 1) == spec_render_brest_prefix(s, from, to) + (
        seq![COMMA] + spec_render_bentry(s[to])),
    decreases to - from,
{
    if from >= to {
        assert(spec_render_brest_prefix(s, from + 1, to + 1) == Seq::<u8>::empty());
        assert(spec_render_brest_prefix(s, from, to + 1) == seq![COMMA] + (
        spec_render_bentry(s[from]) + Seq::<u8>::empty()));
    } else {
        lemma_brest_prefix_snoc(s, from + 1, to);
        let piece = seq![COMMA] + spec_render_bentry(s[to]);
        vstd::seq_lib::lemma_concat_associative(
            spec_render_bentry(s[from]),
            spec_render_brest_prefix(s, from + 1, to),
            piece,
        );
        vstd::seq_lib::lemma_concat_associative(
            seq![COMMA],
            spec_render_bentry(s[from]) + spec_render_brest_prefix(s, from + 1, to),
            piece,
        );
    }
}

/// The full rendered prefix is the rendered tail of the suffix.
pub proof fn lemma_brest_prefix_full(s: Seq<AuraEffect>, from: int)
    requires
        0 <= from <= s.len(),
    ensures
        spec_render_brest_prefix(s, from, s.len() as int) == spec_render_brest(
            s.subrange(from, s.len() as int),
        ),
    decreases s.len() - from,
{
    let suf = s.subrange(from, s.len() as int);
    if from < s.len() {
        lemma_brest_prefix_full(s, from + 1);
        assert(suf[0] == s[from]);
        assert(suf.subrange(1, suf.len() as int) =~= s.subrange(from + 1, s.len() as int));
        assert(spec_render_brest_prefix(s, from, s.len() as int) =~= spec_render_brest(suf));
    } else {
        assert(suf.len() == 0);
    }
}


/// Reads one builtins entry; the key tag must equal the effect's mode.
fn parse_bentry(s: &[u8], i: usize) -> (r: Option<(AuraEffect, usize)>)
    requires
        s@.len() <= usize::MAX - 8,
    ensures
        step_eq(r, spec_parse_bentry(s@, i as int)),
{
    let (m, i1) = match parse_qmode(s, i) {
        Some(p) => p,
        None => {
            return None;
        },
    };
    let mut cl: Vec<u8> = Vec::new();
    cl.push(COLON);
    proof {
        assert(cl@ =~= seq![COLON]);
    }
    let i2 = match eat(s, i1, &cl) {
        Some(j) => j,
        None => {
            return None;
        },
    };
    let (e, i3) = match parse_effect(s, i2) {
        Some(p) => p,
        None => {
            return None;
        },
    };
    if e.mode == m {
        Some((e, i3))
    } else {
        None
    }
}

/// Reads a whole builtins object into a store, checking that the keys
/// ascend strictly.
pub fn parse_builtins(s: &[u8], i: usize) -> (r: Option<(BuiltinMap, usize)>)
    requires
        s@.len() <= usize::MAX - 8,
    ensures
        r is Some <==> spec_parse_builtins(s@, i as int) is Some,
        r is Some ==> {
            &&& r.unwrap().0@ == spec_parse_builtins(s@, i as int).unwrap().0
            &&& r.unwrap().0.wf()
            &&& r.unwrap().1 == spec_parse_builtins(s@, i as int).unwrap().1
        },
{
    let ghost i0 = i as int;
    let mut lb: Vec<u8> = Vec::new();
    lb.push(LBRACE);
    let mut rb: Vec<u8> = Vec::new();
    rb.push(RBRACE);
    let mut cm: Vec<u8> = Vec::new();
    cm.push(COMMA);
    proof {
        assert(lb@ =~= seq![LBRACE]);
        assert(rb@ =~= seq![RBRACE]);
        assert(cm@ =~= seq![COMMA]);
    }
    let i1 = match eat(s, i, &lb) {
        Some(j) => j,
        None => {
            return None;
        },
    };
    if let Some(j) = eat(s, i1, &rb) {
        let m = BuiltinMap::new();
        return Some((m, j));
    }
    let (e0, i2) = match parse_bentry(s, i1) {
        Some(p) => p,
        None => {
            return None;
        },
    };
    if !(i2 > i1 && i2 <= s.len()) {
        return None;
    }
    let mut map = BuiltinMap::new();
    let pushed = map.try_push(e0);
    proof {
        assert(pushed);
    }
    let mut cur: usize = i2;
    loop
        invariant
            s@.len() <= usize::MAX - 8,
            i0 == i as int,
            rb@ == seq![RBRACE],
            cm@ == seq![COMMA],
            map.wf(),
            map@.len() >= 1,
            cur <= s@.len(),
            spec_parse_builtins(s@, i0) == match spec_parse_brest(
                s@,
                cur as int,
                map@.last().mode.spec_num(),
            ) {
                Some(p) => Some::<(Seq<AuraEffect>, int)>((map@ + p.0, p.1)),
                None => None::<(Seq<AuraEffect>, int)>,
            },
        decreases s@.len() - cur,
    {
        let ghost prev = map@.last().mode.spec_num();
        if let Some(j) = eat(s, cur, &rb) {
            proof {
                assert(spec_parse_brest(s@, cur as int, prev) == Some(
                    (Seq::<AuraEffect>::empty(), cur + 1),
                ));
                assert(map@ + Seq::<AuraEffect>::empty() == map@);
            }
            return Some((map, j));
        }
        let ic = match eat(s, cur, &cm) {
            Some(j) => j,
            None => {
                return None;
            },
        };
        let (e, j2) = match parse_bentry(s, ic) {
            Some(p) => p,
            None => {
                return None;
            },
        };
        if !(j2 > cur && j2 <= s.len()) {
            return None;
        }
        let ghost map0 = map@;
        let ok = map.try_push(e);
        if !ok {
            proof {
                assert(!(e.mode.spec_num() > prev));
            }
            return None;
        }
        proof {
            if spec_parse_brest(s@, j2 as int, e.mode.spec_num()) is Some {
                let p = spec_parse_brest(s@, j2 as int, e.mode.spec_num()).unwrap();
                vstd::seq_lib::lemma_concat_associative(map0, seq![e], p.0);
                assert(map0 + seq![e] == map@);
            }
        }
        cur = j2;
    }
}


/// A rendered effect is never empty.
pub proof fn lemma_render_effect_len(e: AuraEffect)
    ensures
        spec_render_effect(e).len() > 0,
{
    reveal(spec_render_effect);
    reveal(lit_eff_mode);
}

/// The comma-led tail of an effect array.
pub open spec fn spec_render_erest(s: Seq<AuraEffect>) -> Seq<u8>
    decreases s.len(),
{
    if s.len() == 0 {
        Seq::empty()
    } else {
        seq![COMMA] + (spec_render_effect(s[0]) + spec_render_erest(s.subrange(1, s.len() as int)))
    }
}

/// An effect array: the effects in stored order between brackets.
pub open spec fn spec_render_earray(s: Seq<AuraEffect>) -> Seq<u8> {
    if s.len() == 0 {
        seq![LBRACK] + seq![RBRACK]
    } else {
        seq![LBRACK] + (spec_render_effect(s[0]) + (spec_render_erest(
            s.subrange(1, s.len() as int),
        ) + seq![RBRACK]))
    }
}

/// Reads the comma-led tail of an effect array, closing bracket included.
pub open spec fn spec_parse_erest(s: Seq<u8>, i: int) -> Option<(Seq<AuraEffect>, int)>
    decreases s.len() - i,
{
    if spec_eat(s, i, seq![RBRACK]) is Some {
        Some((Seq::empty(), i + 1))
    } else {
        match spec_eat(s, i, seq![COMMA]) {
            None => None,
            Some(i1) => match spec_parse_effect(s, i1) {
                None => None,
                Some((e, i2)) => if i2 > i && i2 <= s.len() {
                    match spec_parse_erest(s, i2) {
                        None => None,
                        Some((rest, j)) => Some((seq![e] + rest, j)),
                    }
                } else {
                    None
                },
            },
        }
    }
}

pub open spec fn spec_parse_earray(s: Seq<u8>, i: int) -> Option<(Seq<AuraEffect>, int)> {
    match spec_eat(s, i, seq![LBRACK]) {
        None => None,
        Some(i1) => if spec_eat(s, i1, seq![RBRACK]) is Some {
            Some((Seq::empty(), i1 + 1))
        } else {
            match spec_parse_effect(s, i1) {
                None => None,
                Some((e, i2)) => if i2 > i1 && i2 <= s.len() {
                    match spec_parse_erest(s, i2) {
                        None => None,
                        Some((rest, j)) => Some((seq![e] + rest, j)),
                    }
                } else {
                    None
                },
            }
        },
    }
}

/// Parsing the rendered tail of an effect list reads back exactly it.
pub proof fn lemma_parse_erest(s: Seq<u8>, i: int, entries: Seq<AuraEffect>)
    requires
        matches_at(s, i, spec_render_erest(entries) + seq![RBRACK]),
    ensures
        spec_parse_erest(s, i) == Some((entries, i + spec_render_erest(entries).len() + 1)),
    decreases entries.len(),
{
    if entries.len() == 0 {
        assert(spec_render_erest(entries) + seq![RBRACK] == seq![RBRACK]);
    } else {
        let e0 = entries[0];
        let tail = entries.subrange(1, entries.len() as int);
        let whole = spec_render_erest(entries) + seq![RBRACK];
        let b0 = spec_render_effect(e0);
        let bt = spec_render_erest(tail);
        let rest_part = bt + seq![RBRACK];
        vstd::seq_lib::lemma_concat_associative(seq![COMMA], b0 + bt, seq![RBRACK]);
        vstd::seq_lib::lemma_concat_associative(b0, bt, seq![RBRACK]);
        assert(whole == seq![COMMA] + (b0 + rest_part));
        lemma_matches_index(s, i, whole, 0);
        if spec_eat(s, i, seq![RBRACK]) is Some {
            lemma_matches_index(s, i, seq![RBRACK], 0);
        }
        assert(spec_eat(s, i, seq![RBRACK]) is None);
        lemma_matches_split(s, i, seq![COMMA], b0 + rest_part);
        let i1 = i + 1;
        lemma_matches_split(s, i1, b0, rest_part);
        lemma_parse_effect(s, i1, e0);
        lemma_render_effect_len(e0);
        let i2 = i1 + b0.len();
        lemma_parse_erest(s, i2, tail);
        assert(seq![e0] + tail =~= entries);
    }
}

/// Parsing a rendered effect array reads back exactly its list.
pub proof fn lemma_parse_earray(s: Seq<u8>, i: int, entries: Seq<AuraEffect>)
    requires
        matches_at(s, i, spec_render_earray(entries)),
    ensures
        spec_parse_earray(s, i) == Some(
            (entries, i + spec_render_earray(entries).len() as int),
        ),
{
    if entries.len() == 0 {
        lemma_matches_split(s, i, seq![LBRACK], seq![RBRACK]);
    } else {
        let e0 = entries[0];
        let tail = entries.subrange(1, entries.len() as int);
        let b0 = spec_render_effect(e0);
        let rest_part = spec_render_erest(tail) + seq![RBRACK];
        let inner = b0 + (spec_render_erest(tail) + seq![RBRACK]);
        lemma_matches_split(s, i, seq![LBRACK], inner);
        let i1 = i + 1;
        lemma_matches_split(s, i1, b0, rest_part);
        lemma_parse_effect(s, i1, e0);
        lemma_render_effect_len(e0);
        let i2 = i1 + b0.len();
        if spec_eat(s, i1, seq![RBRACK]) is Some {
            reveal(spec_render_effect);
            reveal(lit_eff_mode);
            lemma_matches_index(s, i1, seq![RBRACK], 0);
            lemma_matches_index(s, i1, b0, 0);
        }
        assert(spec_eat(s, i1, seq![RBRACK]) is None);
        lemma_parse_erest(s, i2, tail);
        assert(seq![e0] + tail =~= entries);
    }
}

/// The rendered comma-led effects with indices `from <= x < to`.
pub open spec fn spec_render_erest_prefix(s: Seq<AuraEffect>, from: int, to: int) -> Seq<u8>
    decreases to - from,
{
    if from >= to {
        Seq::empty()
    } else {
        seq![COMMA] + (spec_render_effect(s[from]) + spec_render_erest_prefix(s, from + 1, to))
    }
}

/// Extending a rendered prefix by one effect appends that effect's text.
pub proof fn lemma_erest_prefix_snoc(s: Seq<AuraEffect>, from: int, to: int)
    requires
        0 <= from <= to < s.len(),
    ensures
        spec_render_erest_prefix(s, from, to + 1) == spec_render_erest_prefix(s, from, to) + (
        seq![COMMA] + spec_render_effect(s[to])),
    decreases to - from,
{
    if from >= to {
        assert(spec_render_erest_prefix(s, from + 1, to + 1) == Seq::<u8>::empty());
        assert(spec_render_erest_prefix(s, from, to + 1) == seq![COMMA] + (spec_render_effect(
            s[from],
        ) + Seq::<u8>::empty()));
    } else {
        lemma_erest_prefix_snoc(s, from + 1, to);
        let piece = seq![COMMA] + spec_render_effect(s[to]);
        vstd::seq_lib::lemma_concat_associative(
            spec_render_effect(s[from]),
            spec_render_erest_prefix(s, from + 1, to),
            piece,
        );
        vstd::seq_lib::lemma_concat_associative(
            seq![COMMA],
            spec_render_effect(s[from]) + spec_render_erest_prefix(s, from + 1, to),
            piece,
        );
    }
}

/// The full rendered prefix is the rendered tail of the suffix.
pub proof fn lemma_erest_prefix_full(s: Seq<AuraEffect>, from: int)
    requires
        0 <= from <= s.len(),
    ensures
        spec_render_erest_prefix(s, from, s.len() as int) == spec_render_erest(
            s.subrange(from, s.len() as int),
        ),
    decreases s.len() - from,
{
    let suf = s.subrange(from, s.len() as int);
    if from < s.len() {
        lemma_erest_prefix_full(s, from + 1);
        assert(suf[0] == s[from]);
        assert(suf.subrange(1, suf.len() as int) =~= s.subrange(from + 1, s.len() as int));
    } else {
        assert(suf.len() == 0);
    }
}

/// Appends the rendering of the effect array for `v`.
pub fn push_earray(out: &mut Vec<u8>, v: &Vec<AuraEffect>)
    ensures
        final(out)@ == old(out)@ + spec_render_earray(v@),
{
    let n = v.len();
    out.push(LBRACK);
    if n == 0 {
        out.push(RBRACK);
        proof {
            assert(out@ =~= old(out)@ + spec_render_earray(v@));
        }
        return ;
    }
    push_effect(out, &v[0]);
    let ghost s0 = old(out)@ + seq![LBRACK] + spec_render_effect(v@[0]);
    proof {
        assert(out@ == s0);
    }
    let mut k: usize = 1;
    while k < n
        invariant
            1 <= k <= n,
            n == v@.len(),
            out@ == s0 + spec_render_erest_prefix(v@, 1, k as int),
            s0 == old(out)@ + seq![LBRACK] + spec_render_effect(v@[0]),
        decreases n - k,
    {
        out.push(COMMA);
        push_effect(out, &v[k]);
        proof {
            lemma_erest_prefix_snoc(v@, 1, k as int);
            assert(out@ =~= s0 + spec_render_erest_prefix(v@, 1, k as int + 1));
        }
        k = k + 1;
    }
    out.push(RBRACK);
    proof {
        lemma_erest_prefix_full(v@, 1);
        let tail = v@.subrange(1, v@.len() as int);
        vstd::seq_lib::lemma_concat_associative(
            spec_render_effect(v@[0]),
            spec_render_erest(tail),
            seq![RBRACK],
        );
        assert(out@ =~= old(out)@ + spec_render_earray(v@));
    }
}

/// Reads a whole effect array.
pub fn parse_earray(s: &[u8], i: usize) -> (r: Option<(Vec<AuraEffect>, usize)>)
    requires
        s@.len() <= usize::MAX - 8,
    ensures
        r is Some <==> spec_parse_earray(s@, i as int) is Some,
        r is Some ==> {
            &&& r.unwrap().0@ == spec_parse_earray(s@, i as int).unwrap().0
            &&& r.unwrap().1 == spec_parse_earray(s@, i as int).unwrap().1
        },
{
    let ghost i0 = i as int;
    let mut lk: Vec<u8> = Vec::new();
    lk.push(LBRACK);
    let mut rk: Vec<u8> = Vec::new();
    rk.push(RBRACK);
    let mut cm: Vec<u8> = Vec::new();
    cm.push(COMMA);
    proof {
        assert(lk@ =~= seq![LBRACK]);
        assert(rk@ =~= seq![RBRACK]);
        assert(cm@ =~= seq![COMMA]);
    }
    let i1 = match eat(s, i, &lk) {
        Some(j) => j,
        None => {
            return None;
        },
    };
    if let Some(j) = eat(s, i1, &rk) {
        let v: Vec<AuraEffect> = Vec::new();
        proof {
            assert(v@ =~= Seq::<AuraEffect>::empty());
        }
        return Some((v, j));
    }
    let (e0, i2) = match parse_effect(s, i1) {
        Some(p) => p,
        None => {
            return None;
        },
    };
    if !(i2 > i1 && i2 <= s.len()) {
        return None;
    }
    let mut acc: Vec<AuraEffect> = Vec::new();
    acc.push(e0);
    proof {
        assert(acc@ =~= seq![e0]);
    }
    let mut cur: usize = i2;
    loop
        invariant
            s@.len() <= usize::MAX - 8,
            i0 == i as int,
            rk@ == seq![RBRACK],
            cm@ == seq![COMMA],
            cur <= s@.len(),
            spec_parse_earray(s@, i0) == match spec_parse_erest(s@, cur as int) {
                Some(p) => Some::<(Seq<AuraEffect>, int)>((acc@ + p.0, p.1)),
                None => None::<(Seq<AuraEffect>, int)>,
            },
        decreases s@.len() - cur,
    {
        if let Some(j) = eat(s, cur, &rk) {
            proof {
                assert(spec_parse_erest(s@, cur as int) == Some(
                    (Seq::<AuraEffect>::empty(), cur + 1),
                ));
                assert(acc@ + Seq::<AuraEffect>::empty() == acc@);
            }
            return Some((acc, j));
        }
        let ic = match eat(s, cur, &cm) {
            Some(j) => j,
            None => {
                return None;
            },
        };
        let (e, j2) = match parse_effect(s, ic) {
            Some(p) => p,
            None => {
                return None;
            },
        };
        if !(j2 > cur && j2 <= s.len()) {
            return None;
        }
        let ghost acc0 = acc@;
        acc.push(e);
        proof {
            if spec_parse_erest(s@, j2 as int) is Some {
                let p = spec_parse_erest(s@, j2 as int).unwrap();
                vstd::seq_lib::lemma_concat_associative(acc0, seq![e], p.0);
                assert(acc0 + seq![e] == acc@) by {
                    assert(acc0.push(e) =~= acc0 + seq![e]);
                }
            }
        }
        cur = j2;
    }
}


/// One entry of the multizone object: the mode tag as key, the effect
/// array as value.
pub open spec fn spec_render_mzentry(p: (AuraModeNum, Seq<AuraEffect>)) -> Seq<u8> {
    qmode(p.0) + (seq![COLON] + spec_render_earray(p.1))
}

/// The comma-led tail of the multizone object.
pub open spec fn spec_render_mzrest(s: Seq<(AuraModeNum, Seq<AuraEffect>)>) -> Seq<u8>
    decreases s.len(),
{
    if s.len() == 0 {
        Seq::empty()
    } else {
        seq![COMMA] + (spec_render_mzentry(s[0]) + spec_render_mzrest(
            s.subrange(1, s.len() as int),
        ))
    }
}

/// The multizone object: entries in stored order between braces.
pub open spec fn spec_render_mzobj(s: Seq<(AuraModeNum, Seq<AuraEffect>)>) -> Seq<u8> {
    if s.len() == 0 {
        seq![LBRACE] + seq![RBRACE]
    } else {
        seq![LBRACE] + (spec_render_mzentry(s[0]) + (spec_render_mzrest(
            s.subrange(1, s.len() as int),
        ) + seq![RBRACE]))
    }
}

/// The multizone field: `null`, or the object.
pub open spec fn spec_render_mzopt(o: Option<Seq<(AuraModeNum, Seq<AuraEffect>)>>) -> Seq<
    u8,
> {
    match o {
        None => lit_null(),
        Some(s) => spec_render_mzobj(s),
    }
}

/// Reads one multizone entry; its list must be well formed for its key.
pub open spec fn spec_parse_mzentry(s: Seq<u8>, i: int) -> Option<
    ((AuraModeNum, Seq<AuraEffect>), int),
> {
    match spec_parse_qmode(s, i) {
        None => None,
        Some((m, i1)) => match spec_eat(s, i1, seq![COLON]) {
            None => None,
            Some(i2) => match spec_parse_earray(s, i2) {
                None => None,
                Some((arr, i3)) => if inner_wf(m, arr) {
                    Some(((m, arr), i3))
                } else {
                    None
                },
            },
        },
    }
}

/// Reads the comma-led tail of the multizone object, closing brace
/// included; keys must ascend strictly from `prev`.
pub open spec fn spec_parse_mzrest(s: Seq<u8>, i: int, prev: u8) -> Option<
    (Seq<(AuraModeNum, Seq<AuraEffect>)>, int),
>
    decreases s.len() - i,
{
    if spec_eat(s, i, seq![RBRACE]) is Some {
        Some((Seq::empty(), i + 1))
    } else {
        match spec_eat(s, i, seq![COMMA]) {
            None => None,
            Some(i1) => match spec_parse_mzentry(s, i1) {
                None => None,
                Some((p, i2)) => if p.0.spec_num() > prev && i2 > i && i2 <= s.len() {
                    match spec_parse_mzrest(s, i2, p.0.spec_num()) {
                        None => None,
                        Some((rest, j)) => Some((seq![p] + rest, j)),
                    }
                } else {
                    None
                },
            },
        }
    }
}

pub open spec fn spec_parse_mzobj(s: Seq<u8>, i: int) -> Option<
    (Seq<(AuraModeNum, Seq<AuraEffect>)>, int),
> {
    match spec_eat(s, i, seq![LBRACE]) {
        None => None,
        Some(i1) => if spec_eat(s, i1, seq![RBRACE]) is Some {
            Some((Seq::empty(), i1 + 1))
        } else {
            match spec_parse_mzentry(s, i1) {
                None => None,
                Some((p, i2)) => if i2 > i1 && i2 <= s.len() {
                    match spec_parse_mzrest(s, i2, p.0.spec_num()) {
                        None => None,
                        Some((rest, j)) => Some((seq![p] + rest, j)),
                    }
                } else {
                    None
                },
            }
        },
    }
}

pub open spec fn spec_parse_mzopt(s: Seq<u8>, i: int) -> Option<
    (Option<Seq<(AuraModeNum, Seq<AuraEffect>)>>, int),
> {
    if matches_at(s, i, lit_null()) {
        Some((None, i + lit_null().len() as int))
    } else {
        match spec_parse_mzobj(s, i) {
            None => None,
            Some((entries, j)) => Some((Some(entries), j)),
        }
    }
}

/// Parsing the rendering of one multizone entry reads back exactly it.
pub proof fn lemma_parse_mzentry(s: Seq<u8>, i: int, p: (AuraModeNum, Seq<AuraEffect>))
    requires
        matches_at(s, i, spec_render_mzentry(p)),
        inner_wf(p.0, p.1),
    ensures
        spec_parse_mzentry(s, i) == Some((p, i + spec_render_mzentry(p).len() as int)),
{
    let r1 = seq![COLON] + spec_render_earray(p.1);
    lemma_matches_split(s, i, qmode(p.0), r1);
    lemma_parse_qmode(s, i, p.0);
    let i1 = i + qmode(p.0).len();
    lemma_matches_split(s, i1, seq![COLON], spec_render_earray(p.1));
    let i2 = i1 + 1;
    lemma_parse_earray(s, i2, p.1);
}

/// Parsing the rendered tail of a sorted multizone entry list reads
/// back exactly that list.
#[verifier::rlimit(100)]
pub proof fn lemma_parse_mzrest(
    s: Seq<u8>,
    i: int,
    entries: Seq<(AuraModeNum, Seq<AuraEffect>)>,
    prev: u8,
)
    requires
        matches_at(s, i, spec_render_mzrest(entries) + seq![RBRACE]),
        sorted_by_fst(entries),
        forall|k: int| 0 <= k < entries.len() ==> entries[k].0.spec_num() > prev,
        forall|k: int| 0 <= k < entries.len() ==> inner_wf(entries[k].0, entries[k].1),
    ensures
        spec_parse_mzrest(s, i, prev) == Some(
            (entries, i + spec_render_mzrest(entries).len() + 1),
        ),
    decreases entries.len(),
{
    if entries.len() == 0 {
        assert(spec_render_mzrest(entries) + seq![RBRACE] == seq![RBRACE]);
    } else {
        let e0 = entries[0];
        let tail = entries.subrange(1, entries.len() as int);
        let whole = spec_render_mzrest(entries) + seq![RBRACE];
        let b0 = spec_render_mzentry(e0);
        let bt = spec_render_mzrest(tail);
        let rest_part = bt + seq![RBRACE];
        vstd::seq_lib::lemma_concat_associative(seq![COMMA], b0 + bt, seq![RBRACE]);
        vstd::seq_lib::lemma_concat_associative(b0, bt, seq![RBRACE]);
        assert(whole == seq![COMMA] + (b0 + rest_part));
        lemma_matches_index(s, i, whole, 0);
        if spec_eat(s, i, seq![RBRACE]) is Some {
            lemma_matches_index(s, i, seq![RBRACE], 0);
        }
        assert(spec_eat(s, i, seq![RBRACE]) is None);
        lemma_matches_split(s, i, seq![COMMA], b0 + rest_part);
        let i1 = i + 1;
        lemma_matches_split(s, i1, b0, rest_part);
        lemma_parse_mzentry(s, i1, e0);
        let i2 = i1 + b0.len();
        lemma_parse_mzrest(s, i2, tail, e0.0.spec_num());
        assert(seq![e0] + tail =~= entries);
    }
}

/// Parsing the rendering of a sorted multizone object reads back exactly
/// its entry list.
#[verifier::rlimit(100)]
pub proof fn lemma_parse_mzobj(s: Seq<u8>, i: int, entries: Seq<(AuraModeNum, Seq<AuraEffect>)>)
    requires
        matches_at(s, i, spec_render_mzobj(entries)),
        sorted_by_fst(entries),
        forall|k: int| 0 <= k < entries.len() ==> inner_wf(entries[k].0, entries[k].1),
    ensures
        spec_parse_mzobj(s, i) == Some((entries, i + spec_render_mzobj(entries).len() as int)),
{
    if entries.len() == 0 {
        lemma_matches_split(s, i, seq![LBRACE], seq![RBRACE]);
    } else {
        let e0 = entries[0];
        let tail = entries.subrange(1, entries.len() as int);
        let rest_part = spec_render_mzrest(tail) + seq![RBRACE];
        let inner = spec_render_mzentry(e0) + (spec_render_mzrest(tail) + seq![RBRACE]);
        lemma_matches_split(s, i, seq![LBRACE], inner);
        let i1 = i + 1;
        lemma_matches_split(s, i1, spec_render_mzentry(e0), rest_part);
        lemma_parse_mzentry(s, i1, e0);
        let i2 = i1 + spec_render_mzentry(e0).len();
        if spec_eat(s, i1, seq![RBRACE]) is Some {
            lemma_matches_index(s, i1, seq![RBRACE], 0);
            lemma_qmode_shape(e0.0);
            lemma_matches_index(s, i1, spec_render_mzentry(e0), 0);
            assert(spec_render_mzentry(e0)[0] == qmode(e0.0)[0]);
        }
        assert(spec_eat(s, i1, seq![RBRACE]) is None);
        lemma_parse_mzrest(s, i2, tail, e0.0.spec_num());
        assert(seq![e0] + tail =~= entries);
    }
}

/// Parsing the rendering of the multizone field reads back exactly it.
pub proof fn lemma_parse_mzopt(s: Seq<u8>, i: int, o: Option<Seq<(AuraModeNum, Seq<AuraEffect>)>>)
    requires
        matches_at(s, i, spec_render_mzopt(o)),
        match o {
            None => true,
            Some(entries) => sorted_by_fst(entries) && forall|k: int|
                0 <= k < entries.len() ==> inner_wf(entries[k].0, entries[k].1),
        },
    ensures
        spec_parse_mzopt(s, i) == Some((o, i + spec_render_mzopt(o).len() as int)),
{
    match o {
        None => {
        },
        Some(entries) => {
            if matches_at(s, i, lit_null()) {
                reveal(lit_null);
                lemma_matches_index(s, i, lit_null(), 0);
                lemma_matches_index(s, i, spec_render_mzobj(entries), 0);
                if entries.len() > 0 {
                    assert(spec_render_mzobj(entries)[0] == LBRACE);
                } else {
                    assert(spec_render_mzobj(entries)[0] == LBRACE);
                }
                assert(false);
            }
            lemma_parse_mzobj(s, i, entries);
        },
    }
}


/// The rendered comma-led multizone entries with indices `from <= x < to`.
pub open spec fn spec_render_mzrest_prefix(
    s: Seq<(AuraModeNum, Seq<AuraEffect>)>,
    from: int,
    to: int,
) -> Seq<u8>
    decreases to - from,
{
    if from >= to {
        Seq::empty()
    } else {
        seq![COMMA] + (spec_render_mzentry(s[from]) + spec_render_mzrest_prefix(s, from + 1, to))
    }
}

/// Extending a rendered prefix by one entry appends that entry's text.
pub proof fn lemma_mzrest_prefix_snoc(s: Seq<(AuraModeNum, Seq<AuraEffect>)>, from: int, to: int)
    requires
        0 <= from <= to < s.len(),
    ensures
        spec_render_mzrest_prefix(s, from, to + 1) == spec_render_mzrest_prefix(s, from, to) + (
        seq![COMMA] + spec_render_mzentry(s[to])),
    decreases to - from,
{
    if from >= to {
        assert(spec_render_mzrest_prefix(s, from + 1, to + 1) == Seq::<u8>::empty());
        assert(spec_render_mzrest_prefix(s, from, to + 1) == seq![COMMA] + (
        spec_render_mzentry(s[from]) + Seq::<u8>::empty()));
    } else {
        lemma_mzrest_prefix_snoc(s, from + 1, to);
        let piece = seq![COMMA] + spec_render_mzentry(s[to]);
        vstd::seq_lib::lemma_concat_associative(
            spec_render_mzentry(s[from]),
            spec_render_mzrest_prefix(s, from + 1, to),
            piece,
        );
        vstd::seq_lib::lemma_concat_associative(
            seq![COMMA],
            spec_render_mzentry(s[from]) + spec_render_mzrest_prefix(s, from + 1, to),
            piece,
        );
    }
}

/// The full rendered prefix is the rendered tail of the suffix.
pub proof fn lemma_mzrest_prefix_full(s: Seq<(AuraModeNum, Seq<AuraEffect>)>, from: int)
    requires
        0 <= from <= s.len(),
    ensures
        spec_render_mzrest_prefix(s, from, s.len() as int) == spec_render_mzrest(
            s.subrange(from, s.len() as int),
        ),
    decreases s.len() - from,
{
    let suf = s.subrange(from, s.len() as int);
    if from < s.len() {
        lemma_mzrest_prefix_full(s, from + 1);
        assert(suf[0] == s[from]);
        assert(suf.subrange(1, suf.len() as int) =~= s.subrange(from + 1, s.len() as int));
    } else {
        assert(suf.len() == 0);
    }
}

/// Appends the rendering of one multizone entry.
fn push_mzentry(out: &mut Vec<u8>, mode: AuraModeNum, effects: &Vec<AuraEffect>)
    ensures
        final(out)@ == old(out)@ + spec_render_mzentry((mode, effects@)),
{
    let mut t = qmode_vec(mode);
    out.append(&mut t);
    out.push(COLON);
    push_earray(out, effects);
    proof {
        vstd::seq_lib::lemma_concat_associative(
            old(out)@,
            qmode(mode),
            seq![COLON] + spec_render_earray(effects@),
        );
        assert((old(out)@ + qmode(mode)).push(COLON) =~= old(out)@ + qmode(mode) + seq![COLON]);
        vstd::seq_lib::lemma_concat_associative(
            old(out)@ + qmode(mode),
            seq![COLON],
            spec_render_earray(effects@),
        );
        vstd::seq_lib::lemma_concat_associative(
            qmode(mode),
            seq![COLON],
            spec_render_earray(effects@),
        );
        vstd::seq_lib::lemma_concat_associative(
            old(out)@,
            qmode(mode) + seq![COLON],
            spec_render_earray(effects@),
        );
    }
}

/// Appends the rendering of the multizone field.
pub fn push_multizone(out: &mut Vec<u8>, mz: &Option<MultizoneMap>)
    ensures
        final(out)@ == old(out)@ + spec_render_mzopt(spec_mz_view(mz)),
{
    match mz {
        None => {
            let mut t = lit_null_vec();
            out.append(&mut t);
        },
        Some(map) => {
            let n = map.len();
            out.push(LBRACE);
            if n == 0 {
                out.push(RBRACE);
                proof {
                    assert(out@ =~= old(out)@ + spec_render_mzopt(spec_mz_view(mz)));
                }
                return ;
            }
            let m0 = map.mode_at(0);
            let v0 = map.effects_at(0);
            push_mzentry(out, m0, &v0);
            let ghost s0 = old(out)@ + seq![LBRACE] + spec_render_mzentry(map@[0]);
            proof {
                assert((map@[0].0, map@[0].1) == map@[0]);
                assert(out@ == s0);
            }
            let mut k: usize = 1;
            while k < n
                invariant
                    1 <= k <= n,
                    n == map@.len(),
                    out@ == s0 + spec_render_mzrest_prefix(map@, 1, k as int),
                decreases n - k,
            {
                out.push(COMMA);
                let mk = map.mode_at(k);
                let vk = map.effects_at(k);
                push_mzentry(out, mk, &vk);
                proof {
                    assert((map@[k as int].0, map@[k as int].1) == map@[k as int]);
                    lemma_mzrest_prefix_snoc(map@, 1, k as int);
                    assert(out@ =~= s0 + spec_render_mzrest_prefix(map@, 1, k as int + 1));
                }
                k = k + 1;
            }
            out.push(RBRACE);
            proof {
                lemma_mzrest_prefix_full(map@, 1);
                assert(out@ =~= old(out)@ + spec_render_mzopt(spec_mz_view(mz)));
            }
        },
    }
}

/// The abstract value of the optional multizone store.
pub open spec fn spec_mz_view(mz: &Option<MultizoneMap>) -> Option<
    Seq<(AuraModeNum, Seq<AuraEffect>)>,
> {
    match mz {
        None => None,
        Some(m) => Some(m@),
    }
}

/// Reads the multizone field into an optional store, checking that the
/// keys ascend strictly and each list is well formed.
pub fn parse_multizone(s: &[u8], i: usize) -> (r: Option<(Option<MultizoneMap>, usize)>)
    requires
        s@.len() <= usize::MAX - 8,
    ensures
        r is Some <==> spec_parse_mzopt(s@, i as int) is Some,
        r is Some ==> {
            &&& spec_mz_view(&r.unwrap().0) == spec_parse_mzopt(s@, i as int).unwrap().0
            &&& match r.unwrap().0 {
                Some(m) => m.wf(),
                None => true,
            }
            &&& r.unwrap().1 == spec_parse_mzopt(s@, i as int).unwrap().1
        },
{
    let ghost i0 = i as int;
    let nl = lit_null_vec();
    if let Some(j) = eat(s, i, &nl) {
        return Some((None, j));
    }
    let mut lb: Vec<u8> = Vec::new();
    lb.push(LBRACE);
    let mut rb: Vec<u8> = Vec::new();
    rb.push(RBRACE);
    let mut cm: Vec<u8> = Vec::new();
    cm.push(COMMA);
    let mut cl: Vec<u8> = Vec::new();
    cl.push(COLON);
    proof {
        assert(lb@ =~= seq![LBRACE]);
        assert(rb@ =~= seq![RBRACE]);
        assert(cm@ =~= seq![COMMA]);
        assert(cl@ =~= seq![COLON]);
    }
    let i1 = match eat(s, i, &lb) {
        Some(j) => j,
        None => {
            return None;
        },
    };
    if let Some(j) = eat(s, i1, &rb) {
        let m = MultizoneMap::new();
        return Some((Some(m), j));
    }
    let (p0, i2) = match parse_mzentry(s, i1, &cl) {
        Some(p) => p,
        None => {
            return None;
        },
    };
    if !(i2 > i1 && i2 <= s.len()) {
        return None;
    }
    let mut map = MultizoneMap::new();
    let (m0, v0) = p0;
    let ghost v0v = v0@;
    let pushed = map.try_push_entry(m0, v0);
    proof {
        assert(pushed);
        assert(map@ =~= Seq::<(AuraModeNum, Seq<AuraEffect>)>::empty().push((m0, v0v)));
    }
    let mut cur: usize = i2;
    loop
        invariant
            s@.len() <= usize::MAX - 8,
            i0 == i as int,
            rb@ == seq![RBRACE],
            cm@ == seq![COMMA],
            cl@ == seq![COLON],
            map.wf(),
            map@.len() >= 1,
            cur <= s@.len(),
            spec_parse_mzobj(s@, i0) == match spec_parse_mzrest(
                s@,
                cur as int,
                map@.last().0.spec_num(),
            ) {
                Some(p) => Some::<(Seq<(AuraModeNum, Seq<AuraEffect>)>, int)>((map@ + p.0, p.1)),
                None => None::<(Seq<(AuraModeNum, Seq<AuraEffect>)>, int)>,
            },
            spec_parse_mzopt(s@, i0) == match spec_parse_mzobj(s@, i0) {
                Some(p) => Some::<(Option<Seq<(AuraModeNum, Seq<AuraEffect>)>>, int)>(
                    (Some(p.0), p.1),
                ),
                None => None::<(Option<Seq<(AuraModeNum, Seq<AuraEffect>)>>, int)>,
            },
        decreases s@.len() - cur,
    {
        let ghost prev = map@.last().0.spec_num();
        if let Some(j) = eat(s, cur, &rb) {
            proof {
                assert(spec_parse_mzrest(s@, cur as int, prev) == Some(
                    (Seq::<(AuraModeNum, Seq<AuraEffect>)>::empty(), cur + 1),
                ));
                assert(map@ + Seq::<(AuraModeNum, Seq<AuraEffect>)>::empty() == map@);
            }
            return Some((Some(map), j));
        }
        let ic = match eat(s, cur, &cm) {
            Some(j) => j,
            None => {
                return None;
            },
        };
        let (p, j2) = match parse_mzentry(s, ic, &cl) {
            Some(q) => q,
            None => {
                return None;
            },
        };
        if !(j2 > cur && j2 <= s.len()) {
            return None;
        }
        let ghost map0 = map@;
        let (mk, vk) = p;
        let ghost vkv = vk@;
        let ok = map.try_push_entry(mk, vk);
        if !ok {
            proof {
                assert(!(mk.spec_num() > prev));
            }
            return None;
        }
        proof {
            if spec_parse_mzrest(s@, j2 as int, mk.spec_num()) is Some {
                let q = spec_parse_mzrest(s@, j2 as int, mk.spec_num()).unwrap();
                vstd::seq_lib::lemma_concat_associative(map0, seq![(mk, vkv)], q.0);
                assert(map0 + seq![(mk, vkv)] == map@);
            }
        }
        cur = j2;
    }
}

/// Reads one multizone entry, checking its list against its key.
fn parse_mzentry(s: &[u8], i: usize, cl: &Vec<u8>) -> (r: Option<
    ((AuraModeNum, Vec<AuraEffect>), usize),
>)
    requires
        s@.len() <= usize::MAX - 8,
        cl@ == seq![COLON],
    ensures
        r is Some <==> spec_parse_mzentry(s@, i as int) is Some,
        r is Some ==> {
            &&& spec_parse_mzentry(s@, i as int).unwrap().0.0 == r.unwrap().0.0
            &&& spec_parse_mzentry(s@, i as int).unwrap().0.1 == r.unwrap().0.1@
            &&& spec_parse_mzentry(s@, i as int).unwrap().1 == r.unwrap().1
        },
{
    let (m, i1) = match parse_qmode(s, i) {
        Some(p) => p,
        None => {
            return None;
        },
    };
    let i2 = match eat(s, i1, cl) {
        Some(j) => j,
        None => {
            return None;
        },
    };
    let (arr, i3) = match parse_earray(s, i2) {
        Some(p) => p,
        None => {
            return None;
        },
    };
    if crate::maps::check_inner_wf(m, &arr) {
        Some(((m, arr), i3))
    } else {
        None
    }
}


/// The rendering of a whole configuration: its five fields in fixed
/// order, no white space, a single object.
#[verifier::opaque]
pub open spec fn spec_render_config(c: crate::config::AuraConfigModel) -> Seq<u8> {
    seq![LBRACE] + (lit_cfg_brightness() + (spec_digits(c.brightness.spec_level()) + (
    lit_cfg_mode() + (qmode(c.current_mode) + (lit_cfg_builtins() + (spec_render_builtins(
        c.builtins,
    ) + (lit_cfg_multizone() + (spec_render_mzopt(c.multizone) + (lit_cfg_power() + (
    spec_render_power(c.power_states) + seq![RBRACE]))))))))))
}

/// Reads a whole configuration object starting at `i`.  The fields come
/// in their fixed order; a trailing run of absent fields takes the
/// documented defaults, so a file written before a field existed still
/// loads.
#[verifier::opaque]
pub open spec fn spec_parse_config(s: Seq<u8>, i: int) -> Option<
    (crate::config::AuraConfigModel, int),
> {
    match spec_eat(s, i, seq![LBRACE]) {
        None => None,
        Some(ib) => if spec_eat(s, ib, seq![RBRACE]) is Some {
            Some((spec_model_defaults(), ib + 1))
        } else {
            match spec_eat(s, ib, lit_cfg_brightness()) {
                None => None,
                Some(i1) => match spec_parse_num(s, i1) {
                    None => None,
                    Some((n, i2)) => if n > 3 {
                        None
                    } else {
                        let brightness = LedBrightness::spec_from_level(n);
                        if spec_eat(s, i2, seq![RBRACE]) is Some {
                            Some(
                                (
                                    crate::config::AuraConfigModel {
                                        brightness,
                                        ..spec_model_defaults()
                                    },
                                    i2 + 1,
                                ),
                            )
                        } else {
                            match spec_eat(s, i2, lit_cfg_mode()) {
                                None => None,
                                Some(i3) => match spec_parse_qmode(s, i3) {
                                    None => None,
                                    Some((mode, i4)) => if spec_eat(s, i4, seq![RBRACE])
                                        is Some {
                                        Some(
                                            (
                                                crate::config::AuraConfigModel {
                                                    brightness,
                                                    current_mode: mode,
                                                    ..spec_model_defaults()
                                                },
                                                i4 + 1,
                                            ),
                                        )
                                    } else {
                                        match spec_eat(s, i4, lit_cfg_builtins()) {
                                            None => None,
                                            Some(i5) => match spec_parse_builtins(s, i5) {
                                                None => None,
                                                Some((builtins, i6)) => if spec_eat(
                                                    s,
                                                    i6,
                                                    seq![RBRACE],
                                                ) is Some {
                                                    Some(
                                                        (
                                                            crate::config::AuraConfigModel {
                                                                brightness,
                                                                current_mode: mode,
                                                                builtins,
                                                                ..spec_model_defaults()
                                                            },
                                                            i6 + 1,
                                                        ),
                                                    )
                                                } else {
                                                    spec_parse_config_tail(
                                                        s,
                                                        i6,
                                                        brightness,
                                                        mode,
                                                        builtins,
                                                    )
                                                },
                                            },
                                        }
                                    },
                                },
                            }
                        }
                    },
                },
            }
        },
    }
}

/// The last two fields of the configuration object, after the builtins.
#[verifier::opaque]
pub open spec fn spec_parse_config_tail(
    s: Seq<u8>,
    i6: int,
    brightness: LedBrightness,
    mode: AuraModeNum,
    builtins: Seq<AuraEffect>,
) -> Option<(crate::config::AuraConfigModel, int)> {
    match spec_eat(s, i6, lit_cfg_multizone()) {
        None => None,
        Some(i7) => match spec_parse_mzopt(s, i7) {
            None => None,
            Some((multizone, i8)) => if spec_eat(s, i8, seq![RBRACE]) is Some {
                Some(
                    (
                        crate::config::AuraConfigModel {
                            brightness,
                            current_mode: mode,
                            builtins,
                            multizone,
                            ..spec_model_defaults()
                        },
                        i8 + 1,
                    ),
                )
            } else {
                match spec_eat(s, i8, lit_cfg_power()) {
                    None => None,
                    Some(i9) => match spec_parse_power(s, i9) {
                        None => None,
                        Some((power_states, i10)) => match spec_eat(s, i10, seq![RBRACE]) {
                            None => None,
                            Some(i11) => Some(
                                (
                                    crate::config::AuraConfigModel {
                                        brightness,
                                        current_mode: mode,
                                        builtins,
                                        multizone,
                                        power_states,
                                    },
                                    i11,
                                ),
                            ),
                        },
                    },
                }
            },
        },
    }
}

/// The configuration a field-less file denotes: every field at its
/// documented default.
pub open spec fn spec_model_defaults() -> crate::config::AuraConfigModel {
    crate::config::AuraConfigModel {
        brightness: LedBrightness::Med,
        current_mode: AuraModeNum::Static,
        builtins: Seq::empty(),
        multizone: None,
        power_states: crate::config::spec_all_on(),
    }
}

/// Reads a whole configuration and insists the input holds nothing else.
pub open spec fn spec_parse_config_total(s: Seq<u8>) -> Option<crate::config::AuraConfigModel> {
    match spec_parse_config(s, 0) {
        None => None,
        Some((c, j)) => if j == s.len() {
            Some(c)
        } else {
            None
        },
    }
}

/// Renders `c` into the canonical file text.
pub fn render_config(c: &crate::config::AuraConfig) -> (r: Vec<u8>)
    ensures
        r@ == spec_render_config(c@),
{
    let mut out: Vec<u8> = Vec::new();
    out.push(LBRACE);
    proof {
        assert(out@ =~= Seq::<u8>::empty() + seq![LBRACE]);
    }
    let mut t = lit_cfg_brightness_vec();
    out.append(&mut t);
    push_digits(&mut out, c.brightness.level());
    let mut t = lit_cfg_mode_vec();
    out.append(&mut t);
    let mut t = qmode_vec(c.current_mode);
    out.append(&mut t);
    let mut t = lit_cfg_builtins_vec();
    out.append(&mut t);
    push_builtins(&mut out, &c.builtins);
    let mut t = lit_cfg_multizone_vec();
    out.append(&mut t);
    push_multizone(&mut out, &c.multizone);
    let mut t = lit_cfg_power_vec();
    out.append(&mut t);
    push_power(&mut out, &c.power_states);
    out.push(RBRACE);
    proof {
        reveal(spec_render_config);
        let a0 = seq![LBRACE];
        let a1 = lit_cfg_brightness();
        let a2 = spec_digits(c@.brightness.spec_level());
        let a3 = lit_cfg_mode();
        let a4 = qmode(c@.current_mode);
        let a5 = lit_cfg_builtins();
        let a6 = spec_render_builtins(c@.builtins);
        let a7 = lit_cfg_multizone();
        let a8 = spec_render_mzopt(c@.multizone);
        let a9 = lit_cfg_power();
        let a10 = spec_render_power(c@.power_states);
        let a11 = seq![RBRACE];
        let s0 = Seq::<u8>::empty();
        assert(out@ == s0 + a0 + a1 + a2 + a3 + a4 + a5 + a6 + a7 + a8 + a9 + a10 + a11) by {
            assert((s0 + a0 + a1 + a2 + a3 + a4 + a5 + a6 + a7 + a8 + a9 + a10).push(RBRACE)
                =~= s0 + a0 + a1 + a2 + a3 + a4 + a5 + a6 + a7 + a8 + a9 + a10 + a11);
        }
        let r10 = a10 + a11;
        let r9 = a9 + r10;
        let r8 = a8 + r9;
        let r7 = a7 + r8;
        let r6 = a6 + r7;
        let r5 = a5 + r6;
        let r4 = a4 + r5;
        let r3 = a3 + r4;
        let r2 = a2 + r3;
        let r1 = a1 + r2;
        vstd::seq_lib::lemma_concat_associative(s0 + a0 + a1 + a2 + a3 + a4 + a5 + a6 + a7 + a8
            + a9, a10, a11);
        vstd::seq_lib::lemma_concat_associative(s0 + a0 + a1 + a2 + a3 + a4 + a5 + a6 + a7 + a8,
            a9, r10);
        vstd::seq_lib::lemma_concat_associative(s0 + a0 + a1 + a2 + a3 + a4 + a5 + a6 + a7, a8,
            r9);
        vstd::seq_lib::lemma_concat_associative(s0 + a0 + a1 + a2 + a3 + a4 + a5 + a6, a7, r8);
        vstd::seq_lib::lemma_concat_associative(s0 + a0 + a1 + a2 + a3 + a4 + a5, a6, r7);
        vstd::seq_lib::lemma_concat_associative(s0 + a0 + a1 + a2 + a3 + a4, a5, r6);
        vstd::seq_lib::lemma_concat_associative(s0 + a0 + a1 + a2 + a3, a4, r5);
        vstd::seq_lib::lemma_concat_associative(s0 + a0 + a1 + a2, a3, r4);
        vstd::seq_lib::lemma_concat_associative(s0 + a0 + a1, a2, r3);
        vstd::seq_lib::lemma_concat_associative(s0 + a0, a1, r2);
        vstd::seq_lib::lemma_concat_associative(s0, a0, r1);
        assert(out@ == s0 + spec_render_config(c@));
    }
    out
}

/// Reads a whole configuration from the file text, which must hold one
/// configuration object and nothing else.  A trailing run of absent
/// fields takes the documented defaults; over-long inputs are rejected
/// like any other text the codec does not accept.
pub fn parse_config(s: &[u8]) -> (r: Option<crate::config::AuraConfig>)
    ensures
        s@.len() <= usize::MAX - 8 ==> {
            &&& r is Some <==> spec_parse_config_total(s@) is Some
            &&& r is Some ==> {
                &&& r.unwrap()@ == spec_parse_config_total(s@).unwrap()
                &&& r.unwrap().wf()
            }
        },
        s@.len() > usize::MAX - 8 ==> r is None,
{
    proof {
        reveal(spec_parse_config);
        reveal(spec_parse_config_tail);
    }
    if s.len() > usize::MAX - 8 {
        return None;
    }
    let mut lb: Vec<u8> = Vec::new();
    lb.push(LBRACE);
    let mut rb: Vec<u8> = Vec::new();
    rb.push(RBRACE);
    proof {
        assert(lb@ =~= seq![LBRACE]);
        assert(rb@ =~= seq![RBRACE]);
    }
    let ib = match eat(s, 0, &lb) {
        Some(j) => j,
        None => {
            return None;
        },
    };
    if let Some(j) = eat(s, ib, &rb) {
        return finish(s, defaults_config(), j);
    }
    let t = lit_cfg_brightness_vec();
    let i1 = match eat(s, ib, &t) {
        Some(j) => j,
        None => {
            return None;
        },
    };
    let (n, i2) = match parse_num(s, i1) {
        Some(p) => p,
        None => {
            return None;
        },
    };
    if n > 3 {
        return None;
    }
    let mut c = defaults_config();
    c.brightness = LedBrightness::from_level(n);
    if let Some(j) = eat(s, i2, &rb) {
        return finish(s, c, j);
    }
    let t = lit_cfg_mode_vec();
    let i3 = match eat(s, i2, &t) {
        Some(j) => j,
        None => {
            return None;
        },
    };
    let (mode, i4) = match parse_qmode(s, i3) {
        Some(p) => p,
        None => {
            return None;
        },
    };
    c.current_mode = mode;
    if let Some(j) = eat(s, i4, &rb) {
        return finish(s, c, j);
    }
    let t = lit_cfg_builtins_vec();
    let i5 = match eat(s, i4, &t) {
        Some(j) => j,
        None => {
            return None;
        },
    };
    let (builtins, i6) = match parse_builtins(s, i5) {
        Some(p) => p,
        None => {
            return None;
        },
    };
    c.builtins = builtins;
    if let Some(j) = eat(s, i6, &rb) {
        return finish(s, c, j);
    }
    let t = lit_cfg_multizone_vec();
    let i7 = match eat(s, i6, &t) {
        Some(j) => j,
        None => {
            return None;
        },
    };
    let (multizone, i8) = match parse_multizone(s, i7) {
        Some(p) => p,
        None => {
            return None;
        },
    };
    c.multizone = multizone;
    if let Some(j) = eat(s, i8, &rb) {
        return finish(s, c, j);
    }
    let t = lit_cfg_power_vec();
    let i9 = match eat(s, i8, &t) {
        Some(j) => j,
        None => {
            return None;
        },
    };
    let (power_states, i10) = match parse_power(s, i9) {
        Some(p) => p,
        None => {
            return None;
        },
    };
    c.power_states = power_states;
    let i11 = match eat(s, i10, &rb) {
        Some(j) => j,
        None => {
            return None;
        },
    };
    finish(s, c, i11)
}

/// A configuration with every field at its documented default.
fn defaults_config() -> (r: crate::config::AuraConfig)
    ensures
        r@ == spec_model_defaults(),
        r.wf(),
{
    let r = crate::config::AuraConfig {
        brightness: LedBrightness::Med,
        current_mode: AuraModeNum::Static,
        builtins: BuiltinMap::new(),
        multizone: None,
        power_states: crate::aura::LedPowerStates {
            boot_anim: true,
            sleep_anim: true,
            all_leds: true,
            keys_leds: true,
            side_leds: true,
        },
    };
    r
}

/// The whole input must have been consumed.
fn finish(s: &[u8], c: crate::config::AuraConfig, j: usize) -> (r: Option<
    crate::config::AuraConfig,
>)
    ensures
        j == s@.len() ==> r == Some(c),
        j != s@.len() ==> r is None,
{
    if j == s.len() {
        Some(c)
    } else {
        None
    }
}

/// Parsing the rendered multizone and power fields reads back exactly
/// the model's values.
#[verifier::rlimit(100)]
proof fn lemma_config_round_trip_tail(s: Seq<u8>, i6: int, c: crate::config::AuraConfigModel)
    requires
        crate::config::model_wf(c),
        matches_at(
            s,
            i6,
            lit_cfg_multizone() + (spec_render_mzopt(c.multizone) + (lit_cfg_power() + (
            spec_render_power(c.power_states) + seq![RBRACE]))),
        ),
    ensures
        spec_parse_config_tail(s, i6, c.brightness, c.current_mode, c.builtins) == Some(
            (
                c,
                i6 + (lit_cfg_multizone() + (spec_render_mzopt(c.multizone) + (lit_cfg_power()
                    + (spec_render_power(c.power_states) + seq![RBRACE])))).len(),
            ),
        ),
{
    reveal(spec_parse_config_tail);
    reveal(lit_cfg_power);
    let a8 = spec_render_mzopt(c.multizone);
    let a10 = spec_render_power(c.power_states);
    let r8 = a8 + (lit_cfg_power() + (a10 + seq![RBRACE]));
    lemma_matches_split(s, i6, lit_cfg_multizone(), r8);
    let i7 = i6 + lit_cfg_multizone().len();
    let r9 = lit_cfg_power() + (a10 + seq![RBRACE]);
    lemma_matches_split(s, i7, a8, r9);
    lemma_parse_mzopt(s, i7, c.multizone);
    let i8 = i7 + a8.len();
    if spec_eat(s, i8, seq![RBRACE]) is Some {
        lemma_matches_index(s, i8, seq![RBRACE], 0);
        lemma_matches_index(s, i8, r9, 0);
    }
    assert(spec_eat(s, i8, seq![RBRACE]) is None);
    let r10 = a10 + seq![RBRACE];
    lemma_matches_split(s, i8, lit_cfg_power(), r10);
    let i9 = i8 + lit_cfg_power().len();
    lemma_matches_split(s, i9, a10, seq![RBRACE]);
    lemma_parse_power(s, i9, c.power_states);
}

/// Parsing the rendering of a well-formed configuration yields exactly
/// that configuration: nothing the store writes is lost on the way
/// through the file.
#[verifier::rlimit(100)]
pub proof fn lemma_config_round_trip(c: crate::config::AuraConfigModel)
    requires
        crate::config::model_wf(c),
    ensures
        spec_parse_config_total(spec_render_config(c)) == Some(c),
{
    reveal(spec_render_config);
    reveal(spec_parse_config);
    reveal(lit_cfg_brightness);
    reveal(lit_cfg_mode);
    reveal(lit_cfg_builtins);
    reveal(lit_cfg_multizone);
    let s = spec_render_config(c);
    lemma_matches_self(s);
    let a2 = spec_digits(c.brightness.spec_level());
    let a4 = qmode(c.current_mode);
    let a6 = spec_render_builtins(c.builtins);
    let a8 = spec_render_mzopt(c.multizone);
    let a10 = spec_render_power(c.power_states);
    let r1 = lit_cfg_brightness() + (a2 + (lit_cfg_mode() + (a4 + (lit_cfg_builtins() + (a6 + (
    lit_cfg_multizone() + (a8 + (lit_cfg_power() + (a10 + seq![RBRACE])))))))));
    lemma_matches_split(s, 0, seq![LBRACE], r1);
    let ib = 1int;
    if spec_eat(s, ib, seq![RBRACE]) is Some {
        lemma_matches_index(s, ib, seq![RBRACE], 0);
        lemma_matches_index(s, ib, r1, 0);
    }
    assert(spec_eat(s, ib, seq![RBRACE]) is None);
    let r2 = a2 + (lit_cfg_mode() + (a4 + (lit_cfg_builtins() + (a6 + (lit_cfg_multizone() + (a8
        + (lit_cfg_power() + (a10 + seq![RBRACE]))))))));
    lemma_matches_split(s, ib, lit_cfg_brightness(), r2);
    let i1 = ib + lit_cfg_brightness().len() as int;
    let r3 = lit_cfg_mode() + (a4 + (lit_cfg_builtins() + (a6 + (lit_cfg_multizone() + (a8 + (
    lit_cfg_power() + (a10 + seq![RBRACE])))))));
    lemma_matches_split(s, i1, a2, r3);
    let i2 = i1 + a2.len();
    lemma_matches_index(s, i2, r3, 0);
    lemma_parse_num_digits(s, i1, c.brightness.spec_level());
    assert(LedBrightness::spec_from_level(c.brightness.spec_level()) == c.brightness);
    if spec_eat(s, i2, seq![RBRACE]) is Some {
        lemma_matches_index(s, i2, seq![RBRACE], 0);
    }
    assert(spec_eat(s, i2, seq![RBRACE]) is None);
    let r4 = a4 + (lit_cfg_builtins() + (a6 + (lit_cfg_multizone() + (a8 + (lit_cfg_power() + (
    a10 + seq![RBRACE]))))));
    lemma_matches_split(s, i2, lit_cfg_mode(), r4);
    let i3 = i2 + lit_cfg_mode().len();
    let r5 = lit_cfg_builtins() + (a6 + (lit_cfg_multizone() + (a8 + (lit_cfg_power() + (a10
        + seq![RBRACE])))));
    lemma_matches_split(s, i3, a4, r5);
    lemma_parse_qmode(s, i3, c.current_mode);
    let i4 = i3 + a4.len();
    if spec_eat(s, i4, seq![RBRACE]) is Some {
        lemma_matches_index(s, i4, seq![RBRACE], 0);
        lemma_matches_index(s, i4, r5, 0);
    }
    assert(spec_eat(s, i4, seq![RBRACE]) is None);
    let r6 = a6 + (lit_cfg_multizone() + (a8 + (lit_cfg_power() + (a10 + seq![RBRACE]))));
    lemma_matches_split(s, i4, lit_cfg_builtins(), r6);
    let i5 = i4 + lit_cfg_builtins().len();
    let r7 = lit_cfg_multizone() + (a8 + (lit_cfg_power() + (a10 + seq![RBRACE])));
    lemma_matches_split(s, i5, a6, r7);
    lemma_parse_builtins(s, i5, c.builtins);
    let i6 = i5 + a6.len();
    if spec_eat(s, i6, seq![RBRACE]) is Some {
        lemma_matches_index(s, i6, seq![RBRACE], 0);
        lemma_matches_index(s, i6, r7, 0);
    }
    assert(spec_eat(s, i6, seq![RBRACE]) is None);
    lemma_config_round_trip_tail(s, i6, c);
    assert(spec_parse_config(s, 0) == Some((c, s.len() as int)));
}

} // verus!
