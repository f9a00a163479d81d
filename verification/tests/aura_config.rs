//! Tests of the persisted configuration: routing, codec and loading.

use asusd::aura::{AuraEffect, AuraModeNum, AuraZone, Colour, Direction, LaptopLedData,
    LedBrightness, LedPowerStates, Speed};
use asusd::codec::parse_config;
use asusd::config::{AuraConfig, LoadAction};
use asusd::error::RogError;
use asusd::maps::MultizoneMap;

fn caps(standard: Vec<AuraModeNum>) -> LaptopLedData {
    LaptopLedData { standard, multizone: false, per_key: false }
}

fn effect(mode: AuraModeNum, zone: AuraZone, r: u8, g: u8, b: u8) -> AuraEffect {
    AuraEffect {
        mode,
        zone,
        colour1: Colour(r, g, b),
        colour2: Colour(0, 0, 0),
        speed: Speed::Med,
        direction: Direction::Right,
    }
}

#[test]
fn default_config_fields() {
    let c = AuraConfig::default();
    assert_eq!(c.brightness, LedBrightness::Med);
    assert_eq!(c.current_mode, AuraModeNum::Static);
    assert_eq!(c.builtins.len(), 0);
    assert!(c.multizone.is_none());
    assert!(c.power_states.boot_anim);
    assert!(c.power_states.sleep_anim);
    assert!(c.power_states.all_leds);
    assert!(c.power_states.keys_leds);
    assert!(c.power_states.side_leds);
}

#[test]
fn create_default_seeds_supported_modes() {
    let support = caps(vec![AuraModeNum::Static, AuraModeNum::Breathe]);
    let c = AuraConfig::create_default(&support);
    assert_eq!(
        c.builtins.get(AuraModeNum::Static),
        Some(AuraEffect::default_with_mode(AuraModeNum::Static))
    );
    assert_eq!(
        c.builtins.get(AuraModeNum::Breathe),
        Some(AuraEffect::default_with_mode(AuraModeNum::Breathe))
    );
    assert_eq!(c.builtins.get(AuraModeNum::Rainbow), None);
}

#[test]
fn set_builtin_global_updates_builtins_only() {
    let support = caps(vec![AuraModeNum::Static, AuraModeNum::Breathe]);
    let mut c = AuraConfig::create_default(&support);
    let e = effect(AuraModeNum::Breathe, AuraZone::Global, 1, 2, 3);
    let mz_before = c.multizone.clone();
    c.set_builtin(e.clone());
    assert_eq!(c.builtins.get(AuraModeNum::Breathe), Some(e));
    assert_eq!(
        c.builtins.get(AuraModeNum::Static),
        Some(AuraEffect::default_with_mode(AuraModeNum::Static))
    );
    assert_eq!(c.multizone, mz_before);
}

#[test]
fn set_builtin_zoned_replaces_matching_zone() {
    let mut mz = MultizoneMap::new();
    let a = effect(AuraModeNum::Static, AuraZone::Key1, 10, 0, 0);
    let b = effect(AuraModeNum::Static, AuraZone::Key2, 20, 0, 0);
    assert!(mz.try_push_entry(AuraModeNum::Static, vec![a.clone(), b.clone()]));
    let mut c = AuraConfig::default();
    c.multizone = Some(mz);
    let replacement = effect(AuraModeNum::Static, AuraZone::Key2, 99, 99, 99);
    c.set_builtin(replacement.clone());
    let list = c.get_multizone(AuraModeNum::Static).expect("list kept");
    assert_eq!(list.len(), 2);
    assert_eq!(list[0], a);
    assert_eq!(list[1], replacement);
    let matching: Vec<&AuraEffect> = list.iter().filter(|e| **e == replacement).collect();
    assert_eq!(matching.len(), 1);
}

#[test]
fn set_builtin_zoned_appends_new_zone() {
    let mut mz = MultizoneMap::new();
    let a = effect(AuraModeNum::Static, AuraZone::Key1, 10, 0, 0);
    assert!(mz.try_push_entry(AuraModeNum::Static, vec![a.clone()]));
    let mut c = AuraConfig::default();
    c.multizone = Some(mz);
    let fresh = effect(AuraModeNum::Static, AuraZone::Key3, 7, 7, 7);
    c.set_builtin(fresh.clone());
    let list = c.get_multizone(AuraModeNum::Static).expect("list kept");
    assert_eq!(list, vec![a, fresh]);
}

#[test]
fn set_builtin_zoned_without_multizone_is_noop() {
    let mut c = AuraConfig::default();
    let before = c.clone();
    c.set_builtin(effect(AuraModeNum::Static, AuraZone::Key1, 1, 1, 1));
    assert_eq!(c, before);
}

#[test]
fn render_default_exact_text() {
    let c = AuraConfig::default();
    let text = c.to_bytes();
    let expected = "{\"brightness\":2,\"current_mode\":\"Static\",\"builtins\":{},\"multizone\":null,\"power_states\":{\"boot_anim\":true,\"sleep_anim\":true,\"all_leds\":true,\"keys_leds\":true,\"side_leds\":true}}";
    assert_eq!(text, expected.as_bytes().to_vec());
}

#[test]
fn round_trip_full_config() {
    let support = caps(vec![AuraModeNum::Static, AuraModeNum::Breathe, AuraModeNum::Pulse]);
    let mut c = AuraConfig::create_default(&support);
    c.brightness = LedBrightness::High;
    c.current_mode = AuraModeNum::Pulse;
    c.power_states = LedPowerStates {
        boot_anim: false,
        sleep_anim: true,
        all_leds: false,
        keys_leds: true,
        side_leds: false,
    };
    c.set_builtin(AuraEffect {
        mode: AuraModeNum::Pulse,
        zone: AuraZone::Global,
        colour1: Colour(255, 0, 128),
        colour2: Colour(9, 99, 199),
        speed: Speed::High,
        direction: Direction::Down,
    });
    let mut mz = MultizoneMap::new();
    assert!(mz.try_push_entry(
        AuraModeNum::Static,
        vec![
            effect(AuraModeNum::Static, AuraZone::Key1, 255, 255, 255),
            effect(AuraModeNum::Static, AuraZone::Key4, 0, 0, 1),
        ]
    ));
    assert!(mz.try_push_entry(AuraModeNum::Flash, vec![]));
    c.multizone = Some(mz);
    let text = c.to_bytes();
    let parsed = parse_config(&text).expect("rendered text parses");
    assert_eq!(parsed, c);
}

#[test]
fn round_trip_empty_multizone_object() {
    let mut c = AuraConfig::default();
    c.multizone = Some(MultizoneMap::new());
    let text = c.to_bytes();
    let parsed = parse_config(&text).expect("rendered text parses");
    assert_eq!(parsed, c);
}

#[test]
fn parse_rejects_trailing_garbage() {
    let c = AuraConfig::default();
    let mut text = c.to_bytes();
    text.push(b' ');
    assert!(parse_config(&text).is_none());
}

#[test]
fn parse_rejects_corrupt_text() {
    assert!(parse_config(b"this is not a configuration").is_none());
    assert!(parse_config(b"").is_none());
    assert!(parse_config(b"{\"brightness\":7}").is_none());
}

#[test]
fn load_empty_file_creates_defaults() {
    let support = caps(vec![AuraModeNum::Static]);
    match AuraConfig::load_action(b"", &support) {
        LoadAction::CreateDefault(c, rendered) => {
            assert_eq!(c, AuraConfig::create_default(&support));
            assert_eq!(rendered, c.to_bytes());
        },
        _ => panic!("empty file must create defaults"),
    }
}

#[test]
fn load_valid_file_twice_is_idempotent() {
    let support = caps(vec![AuraModeNum::Static, AuraModeNum::Breathe]);
    let c = AuraConfig::create_default(&support);
    let text = c.to_bytes();
    let first = match AuraConfig::load_action(&text, &support) {
        LoadAction::UseExisting(x) => x,
        _ => panic!("valid file must be used as it stands"),
    };
    let second = match AuraConfig::load_action(&text, &support) {
        LoadAction::UseExisting(x) => x,
        _ => panic!("valid file must be used as it stands"),
    };
    assert_eq!(first, second);
    assert_eq!(first, c);
}

#[test]
fn load_corrupt_file_backs_up_and_recreates() {
    let support = caps(vec![AuraModeNum::Static, AuraModeNum::Rainbow]);
    match AuraConfig::load_action(b"{ broken", &support) {
        LoadAction::BackupAndCreate(c, rendered) => {
            assert_eq!(c, AuraConfig::create_default(&support));
            assert_eq!(rendered, c.to_bytes());
        },
        _ => panic!("corrupt file must be backed up and replaced"),
    }
}

#[test]
fn read_from_empty_keeps_state() {
    let support = caps(vec![AuraModeNum::Static]);
    let mut c = AuraConfig::create_default(&support);
    let before = c.clone();
    assert!(c.read_from(b"").is_ok());
    assert_eq!(c, before);
}

#[test]
fn read_from_replaces_state_wholesale() {
    let support = caps(vec![AuraModeNum::Static, AuraModeNum::Breathe]);
    let stored = AuraConfig::create_default(&support);
    let text = stored.to_bytes();
    let mut c = AuraConfig::default();
    c.brightness = LedBrightness::Off;
    assert!(c.read_from(&text).is_ok());
    assert_eq!(c, stored);
}

#[test]
fn read_from_corrupt_is_an_error() {
    let mut c = AuraConfig::default();
    let before = c.clone();
    assert_eq!(c.read_from(b"nonsense"), Err(RogError::ParseConfig));
    assert_eq!(c, before);
}

#[test]
fn colour_bounds_round_trip() {
    let mut c = AuraConfig::default();
    c.set_builtin(AuraEffect {
        mode: AuraModeNum::Static,
        zone: AuraZone::Global,
        colour1: Colour(0, 255, 100),
        colour2: Colour(255, 0, 10),
        speed: Speed::Low,
        direction: Direction::Up,
    });
    let text = c.to_bytes();
    let parsed = parse_config(&text).expect("rendered text parses");
    assert_eq!(parsed, c);
}

#[test]
fn parse_defaults_missing_trailing_fields() {
    let parsed = parse_config(b"{}").expect("field-less object parses");
    assert_eq!(parsed, AuraConfig::default());

    let parsed = parse_config(b"{\"brightness\":0}").expect("prefix parses");
    let mut expected = AuraConfig::default();
    expected.brightness = LedBrightness::Off;
    assert_eq!(parsed, expected);

    let parsed = parse_config(b"{\"brightness\":1,\"current_mode\":\"Rainbow\"}")
        .expect("prefix parses");
    let mut expected = AuraConfig::default();
    expected.brightness = LedBrightness::Low;
    expected.current_mode = AuraModeNum::Rainbow;
    assert_eq!(parsed, expected);
}

#[test]
fn parse_rejects_out_of_order_fields() {
    assert!(parse_config(b"{\"current_mode\":\"Static\"}").is_none());
}
