//! Data model of the keyboard LED subsystem: brightness levels, built-in
//! effect identifiers, zones, effect descriptions and power-state flags.

use vstd::prelude::*;

verus! {

/// Keyboard backlight brightness: an ordinal with four levels, numbered
/// 0 (off) through 3 (high).  Increment and decrement wrap modulo 4.
#[derive(Clone, Copy, PartialEq, Eq, Structural, Debug)]
pub enum LedBrightness {
    Off,
    Low,
    Med,
    High,
}

impl LedBrightness {
    /// The numeric level of this brightness, 0 through 3.
    pub open spec fn spec_level(self) -> u8 {
        match self {
            LedBrightness::Off => 0,
            LedBrightness::Low => 1,
            LedBrightness::Med => 2,
            LedBrightness::High => 3,
        }
    }

    /// The brightness whose level is `n`; values above 3 fall back to `Off`.
    pub open spec fn spec_from_level(n: u8) -> LedBrightness {
        if n == 1 {
            LedBrightness::Low
        } else if n == 2 {
            LedBrightness::Med
        } else if n == 3 {
            LedBrightness::High
        } else {
            LedBrightness::Off
        }
    }

    /// The next brightness in the cycle Off -> Low -> Med -> High -> Off.
    pub open spec fn spec_next(self) -> LedBrightness {
        Self::spec_from_level(((self.spec_level() + 1) % 4) as u8)
    }

    /// The previous brightness in the cycle; the inverse of `spec_next`.
    pub open spec fn spec_prev(self) -> LedBrightness {
        Self::spec_from_level(((self.spec_level() + 3) % 4) as u8)
    }

    pub fn level(self) -> (r: u8)
        ensures
            r == self.spec_level(),
    {
        match self {
            LedBrightness::Off => 0,
            LedBrightness::Low => 1,
            LedBrightness::Med => 2,
            LedBrightness::High => 3,
        }
    }

    pub fn from_level(n: u8) -> (r: LedBrightness)
        ensures
            r == Self::spec_from_level(n),
    {
        if n == 1 {
            LedBrightness::Low
        } else if n == 2 {
            LedBrightness::Med
        } else if n == 3 {
            LedBrightness::High
        } else {
            LedBrightness::Off
        }
    }

    pub fn next(self) -> (r: LedBrightness)
        ensures
            r == self.spec_next(),
            r.spec_level() == (self.spec_level() + 1) % 4,
    {
        match self {
            LedBrightness::Off => LedBrightness::Low,
            LedBrightness::Low => LedBrightness::Med,
            LedBrightness::Med => LedBrightness::High,
            LedBrightness::High => LedBrightness::Off,
        }
    }

    pub fn prev(self) -> (r: LedBrightness)
        ensures
            r == self.spec_prev(),
            r.spec_level() == (self.spec_level() + 3) % 4,
    {
        match self {
            LedBrightness::Off => LedBrightness::High,
            LedBrightness::Low => LedBrightness::Off,
            LedBrightness::Med => LedBrightness::Low,
            LedBrightness::High => LedBrightness::Med,
        }
    }

    /// The byte written to the brightness node: the ASCII digit of the level.
    pub open spec fn spec_char_code(self) -> u8 {
        (48 + self.spec_level()) as u8
    }

    pub fn as_char_code(self) -> (r: u8)
        ensures
            r == self.spec_char_code(),
    {
        48 + self.level()
    }
}

/// Stepping the brightness four times in the same direction returns to the
/// starting level, whichever direction is taken.
pub proof fn lemma_brightness_cycle(b: LedBrightness)
    ensures
        b.spec_next().spec_next().spec_next().spec_next() == b,
        b.spec_prev().spec_prev().spec_prev().spec_prev() == b,
{
}

/// `spec_prev` undoes `spec_next`, and the other way round.
pub proof fn lemma_brightness_step_inverse(b: LedBrightness)
    ensures
        b.spec_next().spec_prev() == b,
        b.spec_prev().spec_next() == b,
{
}

/// Identifier of a built-in lighting effect.  The device numbers these
/// modes itself; `mode_num` below gives the byte the hardware expects,
/// which skips the value 9.
#[derive(Clone, Copy, PartialEq, Eq, Structural, Debug)]
pub enum AuraModeNum {
    Static,
    Breathe,
    Strobe,
    Rainbow,
    Star,
    Rain,
    Highlight,
    Laser,
    Ripple,
    Pulse,
    Comet,
    Flash,
}

impl AuraModeNum {
    /// The byte identifying this mode in a device packet.
    pub open spec fn spec_num(self) -> u8 {
        match self {
            AuraModeNum::Static => 0,
            AuraModeNum::Breathe => 1,
            AuraModeNum::Strobe => 2,
            AuraModeNum::Rainbow => 3,
            AuraModeNum::Star => 4,
            AuraModeNum::Rain => 5,
            AuraModeNum::Highlight => 6,
            AuraModeNum::Laser => 7,
            AuraModeNum::Ripple => 8,
            AuraModeNum::Pulse => 10,
            AuraModeNum::Comet => 11,
            AuraModeNum::Flash => 12,
        }
    }

    pub fn num(self) -> (r: u8)
        ensures
            r == self.spec_num(),
    {
        match self {
            AuraModeNum::Static => 0,
            AuraModeNum::Breathe => 1,
            AuraModeNum::Strobe => 2,
            AuraModeNum::Rainbow => 3,
            AuraModeNum::Star => 4,
            AuraModeNum::Rain => 5,
            AuraModeNum::Highlight => 6,
            AuraModeNum::Laser => 7,
            AuraModeNum::Ripple => 8,
            AuraModeNum::Pulse => 10,
            AuraModeNum::Comet => 11,
            AuraModeNum::Flash => 12,
        }
    }
}

/// Two distinct modes never share a device byte.
pub proof fn lemma_mode_num_injective(a: AuraModeNum, b: AuraModeNum)
    requires
        a.spec_num() == b.spec_num(),
    ensures
        a == b,
{
}

/// The lighting region an effect addresses: the whole keyboard
/// (`Global`, written as `None` in the persisted file) or one of the
/// four addressable key zones.
#[derive(Clone, Copy, PartialEq, Eq, Structural, Debug)]
pub enum AuraZone {
    Global,
    Key1,
    Key2,
    Key3,
    Key4,
}

impl AuraZone {
    /// The byte identifying this zone in a device packet.
    pub open spec fn spec_num(self) -> u8 {
        match self {
            AuraZone::Global => 0,
            AuraZone::Key1 => 1,
            AuraZone::Key2 => 2,
            AuraZone::Key3 => 3,
            AuraZone::Key4 => 4,
        }
    }

    pub fn num(self) -> (r: u8)
        ensures
            r == self.spec_num(),
    {
        match self {
            AuraZone::Global => 0,
            AuraZone::Key1 => 1,
            AuraZone::Key2 => 2,
            AuraZone::Key3 => 3,
            AuraZone::Key4 => 4,
        }
    }
}

/// Animation speed of an effect.  The bytes are the device's own codes.
#[derive(Clone, Copy, PartialEq, Eq, Structural, Debug)]
pub enum Speed {
    Low,
    Med,
    High,
}

impl Speed {
    /// The byte identifying this speed in a device packet.
    pub open spec fn spec_num(self) -> u8 {
        match self {
            Speed::Low => 0xe1,
            Speed::Med => 0xeb,
            Speed::High => 0xf5,
        }
    }

    pub fn num(self) -> (r: u8)
        ensures
            r == self.spec_num(),
    {
        match self {
            Speed::Low => 0xe1,
            Speed::Med => 0xeb,
            Speed::High => 0xf5,
        }
    }
}

/// Animation direction of an effect, for the modes that move.
#[derive(Clone, Copy, PartialEq, Eq, Structural, Debug)]
pub enum Direction {
    Right,
    Left,
    Up,
    Down,
}

impl Direction {
    /// The byte identifying this direction in a device packet.
    pub open spec fn spec_num(self) -> u8 {
        match self {
            Direction::Right => 0,
            Direction::Left => 1,
            Direction::Up => 2,
            Direction::Down => 3,
        }
    }

    pub fn num(self) -> (r: u8)
        ensures
            r == self.spec_num(),
    {
        match self {
            Direction::Right => 0,
            Direction::Left => 1,
            Direction::Up => 2,
            Direction::Down => 3,
        }
    }
}

/// An RGB colour, one byte per channel.
#[derive(Clone, Copy, PartialEq, Eq, Structural, Debug)]
pub struct Colour(pub u8, pub u8, pub u8);

/// One configured lighting effect: a mode together with its colours,
/// speed, direction and target zone.
#[derive(Clone, Copy, PartialEq, Eq, Structural, Debug)]
pub struct AuraEffect {
    pub mode: AuraModeNum,
    pub zone: AuraZone,
    pub colour1: Colour,
    pub colour2: Colour,
    pub speed: Speed,
    pub direction: Direction,
}

impl AuraEffect {
    /// The default effect for a given mode: whole keyboard, a red first
    /// colour, medium speed, moving right.
    pub open spec fn spec_default_with_mode(mode: AuraModeNum) -> AuraEffect {
        AuraEffect {
            mode,
            zone: AuraZone::Global,
            colour1: Colour(166, 0, 0),
            colour2: Colour(0, 0, 0),
            speed: Speed::Med,
            direction: Direction::Right,
        }
    }

    pub fn default_with_mode(mode: AuraModeNum) -> (r: AuraEffect)
        ensures
            r == Self::spec_default_with_mode(mode),
    {
        AuraEffect {
            mode,
            zone: AuraZone::Global,
            colour1: Colour(166, 0, 0),
            colour2: Colour(0, 0, 0),
            speed: Speed::Med,
            direction: Direction::Right,
        }
    }

    pub fn mode(&self) -> (r: AuraModeNum)
        ensures
            r == self.mode,
    {
        self.mode
    }

    pub fn zone(&self) -> (r: AuraZone)
        ensures
            r == self.zone,
    {
        self.zone
    }
}

/// The five power-state flags of the LED hardware, persisted and applied
/// to the device together as one packed command.
#[derive(Clone, Copy, PartialEq, Eq, Structural, Debug)]
pub struct LedPowerStates {
    pub boot_anim: bool,
    pub sleep_anim: bool,
    pub all_leds: bool,
    pub keys_leds: bool,
    pub side_leds: bool,
}

/// What the physical keyboard supports: the ordered list of built-in
/// modes used for cycling, and whether multizone or per-key addressing
/// is available.
#[derive(Clone, Debug)]
pub struct LaptopLedData {
    pub standard: Vec<AuraModeNum>,
    pub multizone: bool,
    pub per_key: bool,
}

/// The capability summary reported outward for this controller.
#[derive(Clone, Debug)]
pub struct LedSupportedFunctions {
    pub brightness_set: bool,
    pub stock_led_modes: Vec<AuraModeNum>,
    pub multizone_led_mode: bool,
    pub per_key_led_mode: bool,
}

/// Builds the capability summary from the capability descriptor and
/// whether a brightness node was found.
pub fn supported_functions(data: &LaptopLedData, brightness_node_present: bool) -> (r:
    LedSupportedFunctions)
    ensures
        r.brightness_set == brightness_node_present,
        r.stock_led_modes@ == data.standard@,
        r.multizone_led_mode == data.multizone,
        r.per_key_led_mode == data.per_key,
{
    LedSupportedFunctions {
        brightness_set: brightness_node_present,
        stock_led_modes: data.standard.clone(),
        multizone_led_mode: data.multizone,
        per_key_led_mode: data.per_key,
    }
}

} // verus!
