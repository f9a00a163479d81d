//! The LED controller state machine.
//!
//! The controller owns the live configuration, knows what the physical
//! device supports, and turns every requested change into the packets to
//! write and the file text to persist.  Each operation returns a plan —
//! the packets for the device node and, where the configuration changed,
//! the rendered bytes for the configuration file — and the caller performs
//! the writes in the order the plan lists them: device packets first, the
//! persisted text afterwards only if the packets went through, as the
//! write-order of the hardware protocol asks.

use vstd::prelude::*;

use crate::aura::{AuraEffect, AuraModeNum, LaptopLedData, LedBrightness};
use crate::codec::{spec_parse_config_total, spec_render_config};
use crate::config::{AuraConfig, AuraConfigModel};
use crate::error::RogError;
use crate::maps::{assoc_first, by_mode};
use crate::usb::{effect_bytes, led_apply_packet, led_set_packet, power_packet,
    spec_effect_bytes, spec_led_apply, spec_led_set, spec_power_packet};

verus! {

/// The runtime state of the keyboard LED controller: the device nodes it
/// found, the capability descriptor, the direction flag for raw effect
/// uploads, and the live configuration.
pub struct CtrlKbdLed {
    /// The raw packet node, absent on hardware without direct addressing.
    pub led_node: Option<String>,
    /// The brightness node; construction fails without one.
    pub bright_node: String,
    /// What the physical device supports.
    pub supported_modes: LaptopLedData,
    /// The next raw effect upload writes its rows in reverse order: the
    /// hardware wants alternating direction between successive uploads.
    pub flip_effect_write: bool,
    /// The live configuration.
    pub config: AuraConfig,
}

/// What a configuration-changing operation hands back: the packets for
/// the device and the rendered configuration to persist.
pub struct SavePlan {
    pub packets: Vec<Vec<u8>>,
    pub persist: Vec<u8>,
}

/// What stepping the brightness hands back: the rendered configuration
/// to persist and the byte for the brightness node.
pub struct BrightnessPlan {
    pub persist: Vec<u8>,
    pub code: u8,
}

/// What cycling the mode hands back.
pub enum ToggleOutcome {
    /// The current mode is not in the capability list: nothing happens.
    NoOp,
    /// The target mode had a stored effect: write it and persist.
    Applied(SavePlan),
    /// The target mode had no stored effect: only persist.
    Skipped(Vec<u8>),
}

/// The three packets every effect or power-state change writes: the
/// payload, then `SET`, then `APPLY`.
pub open spec fn spec_command_plan(payload: Seq<u8>, packets: Seq<Vec<u8>>) -> bool {
    &&& packets.len() == 3
    &&& packets[0]@ == payload
    &&& packets[1]@ == spec_led_set()
    &&& packets[2]@ == spec_led_apply()
}

/// The model with its current mode replaced.
pub open spec fn spec_with_mode(c: AuraConfigModel, m: AuraModeNum) -> AuraConfigModel {
    AuraConfigModel { current_mode: m, ..c }
}

/// The configuration after the re-read that precedes a mutation: an
/// empty file leaves the in-memory value, otherwise the file's value
/// replaces it.
pub open spec fn spec_after_read(c: AuraConfigModel, disk: Seq<u8>) -> AuraConfigModel {
    if disk.len() == 0 {
        c
    } else {
        spec_parse_config_total(disk).unwrap()
    }
}

/// Text that the re-read accepts: an empty file or a parsable one.
pub open spec fn spec_disk_ok(disk: Seq<u8>) -> bool {
    disk.len() == 0 || (disk.len() <= usize::MAX - 8 && spec_parse_config_total(disk) is Some)
}

/// The position of the first occurrence of `m` in `s`, if any.
pub open spec fn spec_position(s: Seq<AuraModeNum>, m: AuraModeNum) -> Option<int>
    decreases s.len(),
{
    if s.len() == 0 {
        None
    } else if s[0] == m {
        Some(0)
    } else {
        match spec_position(s.subrange(1, s.len() as int), m) {
            Some(i) => Some(i + 1),
            None => None,
        }
    }
}

/// The mode the cycle moves to: one step from the current mode's
/// position in the capability list, wrapping at either end.
pub open spec fn spec_toggle_target(
    standard: Seq<AuraModeNum>,
    current: AuraModeNum,
    reverse: bool,
) -> Option<AuraModeNum> {
    match spec_position(standard, current) {
        None => None,
        Some(i) => if reverse {
            if i == 0 {
                Some(standard[standard.len() - 1])
            } else {
                Some(standard[i - 1])
            }
        } else {
            if i + 1 == standard.len() {
                Some(standard[0])
            } else {
                Some(standard[i + 1])
            }
        },
    }
}

/// Finds the first position of `m` in `s`.
fn position_of(s: &Vec<AuraModeNum>, m: AuraModeNum) -> (r: Option<usize>)
    ensures
        match r {
            Some(i) => spec_position(s@, m) == Some(i as int),
            None => spec_position(s@, m) is None,
        },
{
    let mut i: usize = 0;
    while i < s.len() && s[i] != m
        invariant
            i <= s@.len(),
            forall|j: int| 0 <= j < i ==> s@[j] != m,
        decreases s@.len() - i,
    {
        i = i + 1;
    }
    proof {
        lemma_position_skip(s@, m, i as int);
    }
    if i < s.len() {
        Some(i)
    } else {
        None
    }
}

/// A scan that passed `i` elements without finding `m` leaves the
/// position search `i` steps into the sequence.
proof fn lemma_position_skip(s: Seq<AuraModeNum>, m: AuraModeNum, i: int)
    requires
        0 <= i <= s.len(),
        forall|j: int| 0 <= j < i ==> s[j] != m,
    ensures
        spec_position(s, m) == match spec_position(s.subrange(i, s.len() as int), m) {
            Some(p) => Some(p + i),
            None => None::<int>,
        },
    decreases i,
{
    if i == 0 {
        assert(s.subrange(0, s.len() as int) =~= s);
    } else {
        let tail = s.subrange(1, s.len() as int);
        lemma_position_skip(tail, m, i - 1);
        assert(tail.subrange(i - 1, tail.len() as int) =~= s.subrange(i, s.len() as int));
    }
}

/// A byte-for-byte copy of a packet.
fn copy_packet(v: &Vec<u8>) -> (r: Vec<u8>)
    ensures
        r@ == v@,
{
    let mut r: Vec<u8> = Vec::new();
    let mut i: usize = 0;
    while i < v.len()
        invariant
            i <= v@.len(),
            r@ == v@.subrange(0, i as int),
        decreases v@.len() - i,
    {
        r.push(v[i]);
        proof {
            assert(r@ =~= v@.subrange(0, i as int + 1));
        }
        i = i + 1;
    }
    proof {
        assert(v@.subrange(0, v@.len() as int) =~= v@);
    }
    r
}

/// Whether `s` holds `m`, by scan.
fn contains_mode(s: &Vec<AuraModeNum>, m: AuraModeNum) -> (r: bool)
    ensures
        r == s@.contains(m),
{
    let mut i: usize = 0;
    while i < s.len()
        invariant
            i <= s@.len(),
            forall|j: int| 0 <= j < i ==> s@[j] != m,
        decreases s@.len() - i,
    {
        if s[i] == m {
            return true;
        }
        i = i + 1;
    }
    false
}

impl CtrlKbdLed {
    /// Builds the controller from what discovery found.  A missing
    /// brightness node is fatal: without it no device control is
    /// possible.  A missing packet node only degrades the controller to
    /// brightness control.
    pub fn new(
        supported_modes: LaptopLedData,
        config: AuraConfig,
        led_node: Option<String>,
        bright_node: Option<String>,
    ) -> (r: Result<CtrlKbdLed, RogError>)
        ensures
            match r {
                Ok(c) => {
                    &&& bright_node is Some
                    &&& c.bright_node == bright_node.unwrap()
                    &&& c.led_node == led_node
                    &&& c.supported_modes == supported_modes
                    &&& c.flip_effect_write == false
                    &&& c.config == config
                },
                Err(e) => bright_node is None && e is MissingFunction,
            },
    {
        if led_node.is_none() && bright_node.is_none() {
            return Err(RogError::MissingFunction(
                "All keyboard features missing, you may require a newer kernel".to_owned(),
            ));
        }
        match bright_node {
            Some(bright) => Ok(CtrlKbdLed {
                led_node,
                bright_node: bright,
                supported_modes,
                flip_effect_write: false,
                config,
            }),
            None => Err(RogError::MissingFunction(
                "No brightness control, you may require a newer kernel".to_owned(),
            )),
        }
    }

    /// Steps the brightness up one level, wrapping after the highest.
    /// The caller persists the rendered configuration first and then
    /// writes the byte to the brightness node.
    pub fn next_brightness(&mut self) -> (r: BrightnessPlan)
        requires
            old(self).config.wf(),
        ensures
            final(self).config.brightness == old(self).config.brightness.spec_next(),
            final(self).config@ == (AuraConfigModel {
                brightness: old(self).config.brightness.spec_next(),
                ..old(self).config@
            }),
            final(self).config.wf(),
            final(self).led_node == old(self).led_node,
            final(self).bright_node == old(self).bright_node,
            final(self).supported_modes == old(self).supported_modes,
            final(self).flip_effect_write == old(self).flip_effect_write,
            r.persist@ == spec_render_config(final(self).config@),
            r.code == final(self).config.brightness.spec_char_code(),
    {
        self.config.brightness = self.config.brightness.next();
        let persist = self.config.to_bytes();
        let code = self.config.brightness.as_char_code();
        BrightnessPlan { persist, code }
    }

    /// Steps the brightness down one level, wrapping below the lowest.
    pub fn prev_brightness(&mut self) -> (r: BrightnessPlan)
        requires
            old(self).config.wf(),
        ensures
            final(self).config.brightness == old(self).config.brightness.spec_prev(),
            final(self).config@ == (AuraConfigModel {
                brightness: old(self).config.brightness.spec_prev(),
                ..old(self).config@
            }),
            final(self).config.wf(),
            final(self).led_node == old(self).led_node,
            final(self).bright_node == old(self).bright_node,
            final(self).supported_modes == old(self).supported_modes,
            final(self).flip_effect_write == old(self).flip_effect_write,
            r.persist@ == spec_render_config(final(self).config@),
            r.code == final(self).config.brightness.spec_char_code(),
    {
        self.config.brightness = self.config.brightness.prev();
        let persist = self.config.to_bytes();
        let code = self.config.brightness.as_char_code();
        BrightnessPlan { persist, code }
    }

    /// The packet sequence that applies `mode` to the device: the effect
    /// packet, then `SET`, then `APPLY`.  A mode outside the device's
    /// standard set is rejected with `NotSupported` before anything is
    /// written: a rejected call produces zero packets.
    pub fn write_mode(&self, mode: &AuraEffect) -> (r: Result<Vec<Vec<u8>>, RogError>)
        ensures
            r is Ok <==> self.supported_modes.standard@.contains(mode.mode),
            r is Ok ==> spec_command_plan(spec_effect_bytes(*mode), r.unwrap()@),
            r is Err ==> r == Result::<Vec<Vec<u8>>, RogError>::Err(RogError::NotSupported),
    {
        if !contains_mode(&self.supported_modes.standard, mode.mode()) {
            return Err(RogError::NotSupported);
        }
        let mut packets: Vec<Vec<u8>> = Vec::new();
        packets.push(effect_bytes(mode));
        packets.push(led_set_packet());
        packets.push(led_apply_packet());
        Ok(packets)
    }

    /// Applies a chosen effect and records it: the canonical path for a
    /// user-chosen mode.  The configuration is first re-read from the
    /// file text, so a concurrent edit of the file is not clobbered.
    /// On success the effect's mode becomes current, the effect is
    /// routed into the stores, and the plan carries the device packets
    /// and the rendered configuration.
    pub fn set_and_save(&mut self, mode: &AuraEffect, disk: &[u8]) -> (r: Result<
        SavePlan,
        RogError,
    >)
        requires
            old(self).config.wf(),
            spec_disk_ok(disk@),
        ensures
            r is Ok <==> old(self).supported_modes.standard@.contains(mode.mode),
            final(self).led_node == old(self).led_node,
            final(self).bright_node == old(self).bright_node,
            final(self).supported_modes == old(self).supported_modes,
            final(self).flip_effect_write == old(self).flip_effect_write,
            final(self).config.wf(),
            r is Err ==> r == Result::<SavePlan, RogError>::Err(RogError::NotSupported)
                && final(self).config@ == spec_after_read(old(self).config@, disk@),
            r is Ok ==> {
                &&& final(self).config.current_mode == mode.mode
                &&& crate::config::spec_set_builtin_rel(
                    spec_with_mode(spec_after_read(old(self).config@, disk@), mode.mode),
                    final(self).config@,
                    *mode,
                )
                &&& spec_command_plan(spec_effect_bytes(*mode), r.unwrap().packets@)
                &&& r.unwrap().persist@ == spec_render_config(final(self).config@)
            },
    {
        let read_result = self.config.read_from(disk);
        proof {
            assert(read_result is Ok);
        }
        let packets = match self.write_mode(mode) {
            Ok(p) => p,
            Err(e) => {
                return Err(e);
            },
        };
        self.config.current_mode = mode.mode();
        self.config.set_builtin(*mode);
        let persist = self.config.to_bytes();
        Ok(SavePlan { packets, persist })
    }

    /// Cycles to the neighbouring mode in the capability list, wrapping
    /// at the ends.  A current mode that is not in the list makes the
    /// whole call a silent no-op.  Otherwise the configuration is
    /// re-read from the file text, the target mode's stored effect is
    /// applied if there is one, and the configuration is persisted
    /// either way.  Cycling reuses the stored effect: unlike
    /// `set_and_save` it stores nothing new.
    pub fn toggle_mode(&mut self, reverse: bool, disk: &[u8]) -> (r: ToggleOutcome)
        requires
            old(self).config.wf(),
            spec_disk_ok(disk@),
        ensures
            final(self).led_node == old(self).led_node,
            final(self).bright_node == old(self).bright_node,
            final(self).supported_modes == old(self).supported_modes,
            final(self).flip_effect_write == old(self).flip_effect_write,
            final(self).config.wf(),
            match r {
                ToggleOutcome::NoOp => spec_toggle_target(
                    old(self).supported_modes.standard@,
                    old(self).config.current_mode,
                    reverse,
                ) is None && *final(self) == *old(self),
                ToggleOutcome::Applied(plan) => {
                    let target = spec_toggle_target(
                        old(self).supported_modes.standard@,
                        old(self).config.current_mode,
                        reverse,
                    );
                    let mid = spec_after_read(old(self).config@, disk@);
                    &&& target is Some
                    &&& assoc_first(mid.builtins, by_mode(), target.unwrap()) is Some
                    &&& spec_command_plan(
                        spec_effect_bytes(
                            assoc_first(mid.builtins, by_mode(), target.unwrap()).unwrap(),
                        ),
                        plan.packets@,
                    )
                    &&& final(self).config@ == spec_with_mode(mid, target.unwrap())
                    &&& plan.persist@ == spec_render_config(final(self).config@)
                },
                ToggleOutcome::Skipped(persist) => {
                    let target = spec_toggle_target(
                        old(self).supported_modes.standard@,
                        old(self).config.current_mode,
                        reverse,
                    );
                    let mid = spec_after_read(old(self).config@, disk@);
                    &&& target is Some
                    &&& assoc_first(mid.builtins, by_mode(), target.unwrap()) is None
                    &&& final(self).config@ == mid
                    &&& plan_none(persist@, final(self).config@)
                },
            },
    {
        let current = self.config.current_mode;
        let n = self.supported_modes.standard.len();
        let idx = match position_of(&self.supported_modes.standard, current) {
            Some(i) => i,
            None => {
                return ToggleOutcome::NoOp;
            },
        };
        proof {
            lemma_position_in_range(self.supported_modes.standard@, current);
        }
        let target_idx: usize = if reverse {
            if idx == 0 {
                n - 1
            } else {
                idx - 1
            }
        } else {
            if idx + 1 == n {
                0
            } else {
                idx + 1
            }
        };
        let next = self.supported_modes.standard[target_idx];
        let read_result = self.config.read_from(disk);
        proof {
            assert(read_result is Ok);
        }
        match self.config.builtins.get(next) {
            Some(data) => {
                proof {
                    crate::maps::lemma_assoc_found(self.config.builtins@, by_mode(), next);
                    assert(self.supported_modes.standard@.contains(next));
                }
                let packets = match self.write_mode(&data) {
                    Ok(p) => p,
                    Err(_) => {
                        proof {
                            assert(false);
                        }
                        return ToggleOutcome::NoOp;
                    },
                };
                self.config.current_mode = next;
                let persist = self.config.to_bytes();
                ToggleOutcome::Applied(SavePlan { packets, persist })
            },
            None => {
                let persist = self.config.to_bytes();
                ToggleOutcome::Skipped(persist)
            },
        }
    }

    /// The packet sequence that applies the configured power states:
    /// the packed power packet, then `SET`, then `APPLY`.
    pub fn set_power_states(&self) -> (r: Vec<Vec<u8>>)
        ensures
            spec_command_plan(spec_power_packet(self.config.power_states), r@),
    {
        let mut packets: Vec<Vec<u8>> = Vec::new();
        packets.push(power_packet(&self.config.power_states));
        packets.push(led_set_packet());
        packets.push(led_apply_packet());
        packets
    }

    /// Orders the rows of a raw effect upload.  The hardware wants
    /// successive uploads in alternating row order, so the stored
    /// direction flag decides whether the rows go out reversed, and
    /// flips after every successful call.  Without a packet node the
    /// upload is rejected and nothing changes.
    pub fn write_effect_block(&mut self, effect: &Vec<Vec<u8>>) -> (r: Result<
        Vec<Vec<u8>>,
        RogError,
    >)
        ensures
            final(self).led_node == old(self).led_node,
            final(self).bright_node == old(self).bright_node,
            final(self).supported_modes == old(self).supported_modes,
            final(self).config == old(self).config,
            match r {
                Ok(rows) => {
                    &&& old(self).led_node is Some
                    &&& final(self).flip_effect_write == !old(self).flip_effect_write
                    &&& rows.deep_view() == if old(self).flip_effect_write {
                        effect.deep_view().reverse()
                    } else {
                        effect.deep_view()
                    }
                },
                Err(e) => {
                    &&& old(self).led_node is None
                    &&& e == RogError::NotSupported
                    &&& *final(self) == *old(self)
                },
            },
    {
        if self.led_node.is_none() {
            return Err(RogError::NotSupported);
        }
        let mut rows: Vec<Vec<u8>> = Vec::new();
        if self.flip_effect_write {
            let mut i: usize = effect.len();
            while i > 0
                invariant
                    i <= effect@.len(),
                    rows@.len() == effect@.len() - i,
                    forall|j: int|
                        0 <= j < rows@.len() ==> rows@[j]@ == effect@[effect@.len() - 1 - j]@,
                decreases i,
            {
                i = i - 1;
                rows.push(copy_packet(&effect[i]));
            }
            proof {
                assert(rows.deep_view() =~= effect.deep_view().reverse());
            }
        } else {
            let mut i: usize = 0;
            while i < effect.len()
                invariant
                    i <= effect@.len(),
                    rows@.len() == i,
                    forall|j: int| 0 <= j < i ==> rows@[j]@ == effect@[j]@,
                decreases effect@.len() - i,
            {
                rows.push(copy_packet(&effect[i]));
                i = i + 1;
            }
            proof {
                assert(rows.deep_view() =~= effect.deep_view());
            }
        }
        self.flip_effect_write = !self.flip_effect_write;
        Ok(rows)
    }

    /// Reacts to an out-of-band change of the brightness node.  The raw
    /// byte must be an ASCII digit; when it differs from the stored
    /// level, the configuration is re-read from the file text, the
    /// observed level is recorded, and the rendered text to persist is
    /// returned.  A byte equal to the stored level changes nothing.
    pub fn update_config(&mut self, raw: u8, disk: &[u8]) -> (r: Result<Option<Vec<u8>>,
        RogError,
    >)
        requires
            old(self).config.wf(),
            spec_disk_ok(disk@),
        ensures
            final(self).led_node == old(self).led_node,
            final(self).bright_node == old(self).bright_node,
            final(self).supported_modes == old(self).supported_modes,
            final(self).flip_effect_write == old(self).flip_effect_write,
            final(self).config.wf(),
            !(48 <= raw <= 57) ==> r == Result::<Option<Vec<u8>>, RogError>::Err(
                RogError::ParseLed,
            ) && *final(self) == *old(self),
            48 <= raw <= 57 && old(self).config.brightness == LedBrightness::spec_from_level(
                (raw - 48) as u8,
            ) ==> r == Result::<Option<Vec<u8>>, RogError>::Ok(None::<Vec<u8>>) && *final(self)
                == *old(self),
            48 <= raw <= 57 && old(self).config.brightness != LedBrightness::spec_from_level(
                (raw - 48) as u8,
            ) ==> {
                &&& r is Ok
                &&& r.unwrap() is Some
                &&& final(self).config@ == (AuraConfigModel {
                    brightness: LedBrightness::spec_from_level((raw - 48) as u8),
                    ..spec_after_read(old(self).config@, disk@)
                })
                &&& r.unwrap().unwrap()@ == spec_render_config(final(self).config@)
            },
    {
        if !(48 <= raw && raw <= 57) {
            return Err(RogError::ParseLed);
        }
        let level = LedBrightness::from_level(raw - 48);
        if self.config.brightness == level {
            return Ok(None);
        }
        let read_result = self.config.read_from(disk);
        proof {
            assert(read_result is Ok);
        }
        self.config.brightness = level;
        let persist = self.config.to_bytes();
        Ok(Some(persist))
    }

    /// The plan applied on wake from sleep: re-apply the persisted
    /// brightness, and the current mode's stored effect where one exists
    /// and the device supports it.
    pub fn wake_plan(&self) -> (r: (u8, Option<Vec<Vec<u8>>>))
        ensures
            r.0 == self.config.brightness.spec_char_code(),
            match assoc_first(self.config@.builtins, by_mode(), self.config.current_mode) {
                Some(data) => {
                    &&& self.supported_modes.standard@.contains(data.mode) ==> r.1 is Some
                        && spec_command_plan(spec_effect_bytes(data), r.1.unwrap()@)
                    &&& !self.supported_modes.standard@.contains(data.mode) ==> r.1 is None
                },
                None => r.1 is None,
            },
    {
        let code = self.config.brightness.as_char_code();
        let packets = match self.config.builtins.get(self.config.current_mode) {
            Some(data) => match self.write_mode(&data) {
                Ok(p) => Some(p),
                Err(_) => None,
            },
            None => None,
        };
        (code, packets)
    }
}

/// What re-applying persisted state after boot or resume hands back:
/// the plan for the current mode's stored effect, where one exists and
/// the device supports it, and the power-state packets.
pub struct ReloadPlan {
    pub save: Option<SavePlan>,
    pub power: Vec<Vec<u8>>,
}

impl CtrlKbdLed {
    /// Re-applies the persisted state: where the current mode has a
    /// stored effect and the device supports it, the configuration is
    /// re-read from the file text and the effect applied and recorded;
    /// the power states are applied either way.
    pub fn reload_plan(&mut self, disk: &[u8]) -> (r: ReloadPlan)
        requires
            old(self).config.wf(),
            spec_disk_ok(disk@),
        ensures
            final(self).led_node == old(self).led_node,
            final(self).bright_node == old(self).bright_node,
            final(self).supported_modes == old(self).supported_modes,
            final(self).flip_effect_write == old(self).flip_effect_write,
            final(self).config.wf(),
            spec_command_plan(spec_power_packet(final(self).config.power_states), r.power@),
            match assoc_first(
                old(self).config@.builtins,
                by_mode(),
                old(self).config.current_mode,
            ) {
                Some(data) => {
                    &&& old(self).supported_modes.standard@.contains(data.mode) ==> {
                        &&& r.save is Some
                        &&& final(self).config.current_mode == data.mode
                        &&& crate::config::spec_set_builtin_rel(
                            spec_with_mode(
                                spec_after_read(old(self).config@, disk@),
                                data.mode,
                            ),
                            final(self).config@,
                            data,
                        )
                        &&& spec_command_plan(spec_effect_bytes(data), r.save.unwrap().packets@)
                        &&& r.save.unwrap().persist@ == spec_render_config(final(self).config@)
                    }
                    &&& !old(self).supported_modes.standard@.contains(data.mode) ==> r.save
                        is None && final(self).config@ == spec_after_read(
                        old(self).config@,
                        disk@,
                    )
                },
                None => r.save is None && final(self).config == old(self).config,
            },
    {
        let save = match self.config.builtins.get(self.config.current_mode) {
            Some(data) => match self.set_and_save(&data, disk) {
                Ok(p) => Some(p),
                Err(_) => None,
            },
            None => None,
        };
        let power = self.set_power_states();
        ReloadPlan { save, power }
    }
}

/// A persisted-only outcome: the rendered bytes of the configuration.
pub open spec fn plan_none(persist: Seq<u8>, c: AuraConfigModel) -> bool {
    persist == spec_render_config(c)
}

/// A position found by the scan lies inside the list.
proof fn lemma_position_in_range(s: Seq<AuraModeNum>, m: AuraModeNum)
    ensures
        match spec_position(s, m) {
            Some(i) => 0 <= i < s.len() && s[i] == m,
            None => true,
        },
    decreases s.len(),
{
    if s.len() > 0 && s[0] != m {
        lemma_position_in_range(s.subrange(1, s.len() as int), m);
    }
}

} // verus!
