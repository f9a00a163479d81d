//! Fixed command packets of the LED device protocol.
//!
//! The hardware takes fixed-length packets on its raw node.  An effect or a
//! power-state write is always followed by the `SET` packet and then the
//! `APPLY` packet; without `APPLY` the device keeps showing its previous
//! state.  The byte values are reverse-engineered device constants; their
//! offsets are documented on each builder.

use vstd::prelude::*;

use crate::aura::{AuraEffect, LedPowerStates};

verus! {

/// Length in bytes of every command packet the controller writes.
pub const LED_MSG_LEN: usize = 17;

/// The `SET` command packet: header `0x5d 0xb5`, then zero padding.
pub open spec fn spec_led_set() -> Seq<u8> {
    seq![0x5d, 0xb5, 0, 0, 0, 0, 0, 0, 0, 0, 0, 0, 0, 0, 0, 0, 0]
}

/// The `APPLY` command packet: header `0x5d 0xb4`, then zero padding.
pub open spec fn spec_led_apply() -> Seq<u8> {
    seq![0x5d, 0xb4, 0, 0, 0, 0, 0, 0, 0, 0, 0, 0, 0, 0, 0, 0, 0]
}

/// Pads `v` with zero bytes up to `LED_MSG_LEN`.
fn pad_to_msg_len(v: &mut Vec<u8>)
    requires
        old(v)@.len() <= LED_MSG_LEN,
    ensures
        final(v)@.len() == LED_MSG_LEN,
        forall|j: int| 0 <= j < old(v)@.len() ==> final(v)@[j] == old(v)@[j],
        forall|j: int| old(v)@.len() <= j < LED_MSG_LEN ==> final(v)@[j] == 0,
{
    while v.len() < LED_MSG_LEN
        invariant
            v@.len() <= LED_MSG_LEN,
            old(v)@.len() <= v@.len(),
            forall|j: int| 0 <= j < old(v)@.len() ==> v@[j] == old(v)@[j],
            forall|j: int| old(v)@.len() <= j < v@.len() ==> v@[j] == 0,
        decreases LED_MSG_LEN - v@.len(),
    {
        v.push(0);
    }
}

pub fn led_set_packet() -> (r: Vec<u8>)
    ensures
        r@ == spec_led_set(),
{
    let mut v: Vec<u8> = Vec::new();
    v.push(0x5d);
    v.push(0xb5);
    pad_to_msg_len(&mut v);
    proof {
        assert(v@ =~= spec_led_set());
    }
    v
}

pub fn led_apply_packet() -> (r: Vec<u8>)
    ensures
        r@ == spec_led_apply(),
{
    let mut v: Vec<u8> = Vec::new();
    v.push(0x5d);
    v.push(0xb4);
    pad_to_msg_len(&mut v);
    proof {
        assert(v@ =~= spec_led_apply());
    }
    v
}

/// Packs the five power-state flags into the three flag bytes of the
/// power-state packet.  Byte 0 carries the boot animation flag in bit 0
/// and the sleep animation flag in bit 1; byte 1 carries the all-LEDs
/// flag in bit 0 and the keys-LEDs flag in bit 1; byte 2 carries the
/// side-LEDs flag in bit 0.
pub open spec fn spec_leds_message(p: LedPowerStates) -> Seq<u8> {
    seq![
        ((if p.boot_anim { 1int } else { 0int }) + (if p.sleep_anim { 2int } else { 0int })) as u8,
        ((if p.all_leds { 1int } else { 0int }) + (if p.keys_leds { 2int } else { 0int })) as u8,
        (if p.side_leds { 1int } else { 0int }) as u8,
    ]
}

/// The inverse of `spec_leds_message`: reads the five flags back out of
/// the three flag bytes.
pub open spec fn spec_leds_unpack(b0: u8, b1: u8, b2: u8) -> LedPowerStates {
    LedPowerStates {
        boot_anim: b0 % 2 == 1,
        sleep_anim: (b0 / 2) % 2 == 1,
        all_leds: b1 % 2 == 1,
        keys_leds: (b1 / 2) % 2 == 1,
        side_leds: b2 % 2 == 1,
    }
}

/// Unpacking the packed flag bytes returns exactly the flags that were
/// packed: the packing loses nothing.
pub proof fn lemma_leds_message_inverse(p: LedPowerStates)
    ensures
        spec_leds_unpack(
            spec_leds_message(p)[0],
            spec_leds_message(p)[1],
            spec_leds_message(p)[2],
        ) == p,
{
}

pub fn leds_message(p: &LedPowerStates) -> (r: Vec<u8>)
    ensures
        r@ == spec_leds_message(*p),
{
    let b0: u8 = (if p.boot_anim { 1u8 } else { 0u8 }) + (if p.sleep_anim { 2u8 } else { 0u8 });
    let b1: u8 = (if p.all_leds { 1u8 } else { 0u8 }) + (if p.keys_leds { 2u8 } else { 0u8 });
    let b2: u8 = if p.side_leds { 1u8 } else { 0u8 };
    let mut v: Vec<u8> = Vec::new();
    v.push(b0);
    v.push(b1);
    v.push(b2);
    proof {
        assert(v@ =~= spec_leds_message(*p));
    }
    v
}

pub fn leds_unpack(b0: u8, b1: u8, b2: u8) -> (r: LedPowerStates)
    ensures
        r == spec_leds_unpack(b0, b1, b2),
{
    LedPowerStates {
        boot_anim: b0 % 2 == 1,
        sleep_anim: (b0 / 2) % 2 == 1,
        all_leds: b1 % 2 == 1,
        keys_leds: (b1 / 2) % 2 == 1,
        side_leds: b2 % 2 == 1,
    }
}

/// The power-state command packet: header `0x5d 0xbd 0x01` at offsets
/// 0..3, the three packed flag bytes at offsets 3..6, zero padding to 17.
pub open spec fn spec_power_packet(p: LedPowerStates) -> Seq<u8> {
    seq![0x5d, 0xbd, 0x01] + spec_leds_message(p) + seq![0, 0, 0, 0, 0, 0, 0, 0, 0, 0, 0]
}

/// The power-state packet is 17 bytes and opens with its fixed header.
pub proof fn lemma_power_packet_shape(p: LedPowerStates)
    ensures
        spec_power_packet(p).len() == LED_MSG_LEN,
        spec_power_packet(p)[0] == 0x5d,
        spec_power_packet(p)[1] == 0xbd,
        spec_power_packet(p)[2] == 0x01,
        spec_power_packet(p)[3] == spec_leds_message(p)[0],
        spec_power_packet(p)[4] == spec_leds_message(p)[1],
        spec_power_packet(p)[5] == spec_leds_message(p)[2],
{
}

pub fn power_packet(p: &LedPowerStates) -> (r: Vec<u8>)
    ensures
        r@ == spec_power_packet(*p),
{
    let flags = leds_message(p);
    let mut v: Vec<u8> = Vec::new();
    v.push(0x5d);
    v.push(0xbd);
    v.push(0x01);
    v.push(flags[0]);
    v.push(flags[1]);
    v.push(flags[2]);
    pad_to_msg_len(&mut v);
    proof {
        assert(v@ =~= spec_power_packet(*p));
    }
    v
}

/// The effect command packet: header `0x5d 0xb3`, the zone byte at
/// offset 2, the mode byte at offset 3, the first colour at 4..7, the
/// speed byte at 7, the direction byte at 8, the second colour at
/// 10..13, zero elsewhere.
pub open spec fn spec_effect_bytes(e: AuraEffect) -> Seq<u8> {
    seq![
        0x5d,
        0xb3,
        e.zone.spec_num(),
        e.mode.spec_num(),
        e.colour1.0,
        e.colour1.1,
        e.colour1.2,
        e.speed.spec_num(),
        e.direction.spec_num(),
        0,
        e.colour2.0,
        e.colour2.1,
        e.colour2.2,
        0,
        0,
        0,
        0,
    ]
}

/// The effect packet is 17 bytes and carries the mode byte at offset 3.
pub proof fn lemma_effect_bytes_shape(e: AuraEffect)
    ensures
        spec_effect_bytes(e).len() == LED_MSG_LEN,
        spec_effect_bytes(e)[0] == 0x5d,
        spec_effect_bytes(e)[1] == 0xb3,
        spec_effect_bytes(e)[3] == e.mode.spec_num(),
{
}

pub fn effect_bytes(e: &AuraEffect) -> (r: Vec<u8>)
    ensures
        r@ == spec_effect_bytes(*e),
{
    let mut v: Vec<u8> = Vec::new();
    v.push(0x5d);
    v.push(0xb3);
    v.push(e.zone.num());
    v.push(e.mode.num());
    v.push(e.colour1.0);
    v.push(e.colour1.1);
    v.push(e.colour1.2);
    v.push(e.speed.num());
    v.push(e.direction.num());
    v.push(0);
    v.push(e.colour2.0);
    v.push(e.colour2.1);
    v.push(e.colour2.2);
    pad_to_msg_len(&mut v);
    proof {
        assert(v@ =~= spec_effect_bytes(*e));
    }
    v
}

} // verus!
