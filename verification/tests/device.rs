//! Tests of the device side: packets, the controller state machine,
//! discovery and the smaller attribute codecs.

use asusd::aura::{AuraEffect, AuraModeNum, AuraZone, Colour, Direction, LaptopLedData,
    LedBrightness, LedPowerStates, Speed};
use asusd::config::AuraConfig;
use asusd::controller::{CtrlKbdLed, ToggleOutcome};
use asusd::discovery::{asus_keyboard_products, find_led_node, HidRawInfo};
use asusd::error::{GraphicsError, RogError};
use asusd::gfx::{GfxCtrlAction, GfxVendors};
use asusd::platform::{AsusPlatform, GpuMuxMode};
use asusd::settings::{Config, Config462, Config472};
use asusd::usb::{effect_bytes, led_apply_packet, led_set_packet, leds_message, leds_unpack,
    power_packet, LED_MSG_LEN};

fn caps(standard: Vec<AuraModeNum>) -> LaptopLedData {
    LaptopLedData { standard, multizone: false, per_key: false }
}

fn controller(standard: Vec<AuraModeNum>) -> CtrlKbdLed {
    let support = caps(standard);
    let config = AuraConfig::create_default(&support);
    CtrlKbdLed::new(
        support,
        config,
        Some("/dev/hidraw0".to_owned()),
        Some("/sys/class/leds/asus::kbd_backlight/brightness".to_owned()),
    )
    .expect("brightness node present")
}

#[test]
fn brightness_cycles_back_after_four_steps() {
    for level in 0u8..4u8 {
        let start = LedBrightness::from_level(level);
        let mut b = start;
        for _ in 0..4 {
            b = b.next();
        }
        assert_eq!(b, start);
        let mut b = start;
        for _ in 0..4 {
            b = b.prev();
        }
        assert_eq!(b, start);
    }
}

#[test]
fn brightness_char_codes_are_ascii_digits() {
    assert_eq!(LedBrightness::Off.as_char_code(), b'0');
    assert_eq!(LedBrightness::Low.as_char_code(), b'1');
    assert_eq!(LedBrightness::Med.as_char_code(), b'2');
    assert_eq!(LedBrightness::High.as_char_code(), b'3');
}

#[test]
fn next_brightness_persists_then_applies() {
    let mut ctrl = controller(vec![AuraModeNum::Static]);
    let plan = ctrl.next_brightness();
    assert_eq!(ctrl.config.brightness, LedBrightness::High);
    assert_eq!(plan.code, b'3');
    assert_eq!(plan.persist, ctrl.config.to_bytes());
    let plan = ctrl.prev_brightness();
    assert_eq!(ctrl.config.brightness, LedBrightness::Med);
    assert_eq!(plan.code, b'2');
}

#[test]
fn leds_message_all_true_decodes_back() {
    let p = LedPowerStates {
        boot_anim: true,
        sleep_anim: true,
        all_leds: true,
        keys_leds: true,
        side_leds: true,
    };
    let bytes = leds_message(&p);
    assert_eq!(bytes, vec![3u8, 3u8, 1u8]);
    assert_eq!(leds_unpack(bytes[0], bytes[1], bytes[2]), p);
}

#[test]
fn leds_message_mixed_decodes_back() {
    let p = LedPowerStates {
        boot_anim: false,
        sleep_anim: true,
        all_leds: true,
        keys_leds: false,
        side_leds: false,
    };
    let bytes = leds_message(&p);
    assert_eq!(bytes, vec![2u8, 1u8, 0u8]);
    assert_eq!(leds_unpack(bytes[0], bytes[1], bytes[2]), p);
}

#[test]
fn power_packet_shape() {
    let p = LedPowerStates {
        boot_anim: true,
        sleep_anim: true,
        all_leds: true,
        keys_leds: true,
        side_leds: true,
    };
    let packet = power_packet(&p);
    assert_eq!(packet.len(), 17);
    assert_eq!(packet[0], 0x5d);
    assert_eq!(packet[1], 0xbd);
    assert_eq!(packet[2], 0x01);
    assert_eq!(leds_unpack(packet[3], packet[4], packet[5]), p);
    assert!(packet[6..].iter().all(|b| *b == 0));
}

#[test]
fn set_power_states_emits_packet_set_apply() {
    let ctrl = controller(vec![AuraModeNum::Static]);
    let packets = ctrl.set_power_states();
    assert_eq!(packets.len(), 3);
    assert_eq!(packets[0], power_packet(&ctrl.config.power_states));
    assert_eq!(packets[1], led_set_packet());
    assert_eq!(packets[2], led_apply_packet());
}

#[test]
fn command_packets_are_seventeen_bytes() {
    assert_eq!(led_set_packet().len(), LED_MSG_LEN);
    assert_eq!(led_apply_packet().len(), LED_MSG_LEN);
    assert_eq!(led_set_packet()[0], 0x5d);
    assert_eq!(led_set_packet()[1], 0xb5);
    assert_eq!(led_apply_packet()[1], 0xb4);
}

#[test]
fn effect_bytes_exact_layout() {
    let e = AuraEffect {
        mode: AuraModeNum::Pulse,
        zone: AuraZone::Key2,
        colour1: Colour(166, 0, 255),
        colour2: Colour(1, 2, 3),
        speed: Speed::High,
        direction: Direction::Left,
    };
    let bytes = effect_bytes(&e);
    assert_eq!(
        bytes,
        vec![0x5d, 0xb3, 2, 10, 166, 0, 255, 0xf5, 1, 0, 1, 2, 3, 0, 0, 0, 0]
    );
    assert_eq!(bytes.len(), LED_MSG_LEN);
}

#[test]
fn write_mode_rejects_unsupported_mode() {
    let ctrl = controller(vec![AuraModeNum::Static, AuraModeNum::Breathe]);
    let e = AuraEffect::default_with_mode(AuraModeNum::Rainbow);
    assert_eq!(ctrl.write_mode(&e), Err(RogError::NotSupported));
}

#[test]
fn write_mode_emits_effect_set_apply() {
    let ctrl = controller(vec![AuraModeNum::Static]);
    let e = AuraEffect::default_with_mode(AuraModeNum::Static);
    let packets = ctrl.write_mode(&e).expect("supported mode");
    assert_eq!(packets.len(), 3);
    assert_eq!(packets[0], effect_bytes(&e));
    assert_eq!(packets[1], led_set_packet());
    assert_eq!(packets[2], led_apply_packet());
}

#[test]
fn set_and_save_updates_mode_and_stores_effect() {
    let mut ctrl = controller(vec![AuraModeNum::Static, AuraModeNum::Breathe]);
    let e = AuraEffect {
        mode: AuraModeNum::Breathe,
        zone: AuraZone::Global,
        colour1: Colour(9, 8, 7),
        colour2: Colour(0, 0, 0),
        speed: Speed::Low,
        direction: Direction::Right,
    };
    let plan = ctrl.set_and_save(&e, b"").expect("supported mode");
    assert_eq!(ctrl.config.current_mode, AuraModeNum::Breathe);
    assert_eq!(ctrl.config.builtins.get(AuraModeNum::Breathe), Some(e.clone()));
    assert_eq!(plan.packets[0], effect_bytes(&e));
    assert_eq!(plan.persist, ctrl.config.to_bytes());
}

#[test]
fn set_and_save_rejects_unsupported_and_changes_nothing() {
    let mut ctrl = controller(vec![AuraModeNum::Static]);
    let before = ctrl.config.clone();
    let e = AuraEffect::default_with_mode(AuraModeNum::Laser);
    match ctrl.set_and_save(&e, b"") {
        Err(RogError::NotSupported) => {},
        _ => panic!("unsupported mode must be rejected"),
    }
    assert_eq!(ctrl.config, before);
}

#[test]
fn toggle_mode_wraps_forward_to_first() {
    let mut ctrl = controller(vec![
        AuraModeNum::Static,
        AuraModeNum::Breathe,
        AuraModeNum::Rainbow,
    ]);
    ctrl.config.current_mode = AuraModeNum::Rainbow;
    match ctrl.toggle_mode(false, b"") {
        ToggleOutcome::Applied(_) => {},
        _ => panic!("target mode has a stored effect"),
    }
    assert_eq!(ctrl.config.current_mode, AuraModeNum::Static);
}

#[test]
fn toggle_mode_wraps_backward_to_last() {
    let mut ctrl = controller(vec![
        AuraModeNum::Static,
        AuraModeNum::Breathe,
        AuraModeNum::Rainbow,
    ]);
    ctrl.config.current_mode = AuraModeNum::Static;
    match ctrl.toggle_mode(true, b"") {
        ToggleOutcome::Applied(_) => {},
        _ => panic!("target mode has a stored effect"),
    }
    assert_eq!(ctrl.config.current_mode, AuraModeNum::Rainbow);
}

#[test]
fn toggle_mode_unknown_current_is_noop() {
    let mut ctrl = controller(vec![AuraModeNum::Static, AuraModeNum::Breathe]);
    ctrl.config.current_mode = AuraModeNum::Laser;
    let before = ctrl.config.clone();
    match ctrl.toggle_mode(false, b"") {
        ToggleOutcome::NoOp => {},
        _ => panic!("current mode outside the list must be a no-op"),
    }
    assert_eq!(ctrl.config, before);
}

#[test]
fn toggle_mode_missing_builtin_only_persists() {
    let support = caps(vec![AuraModeNum::Static, AuraModeNum::Breathe]);
    let mut config = AuraConfig::default();
    config.set_builtin(AuraEffect::default_with_mode(AuraModeNum::Static));
    config.current_mode = AuraModeNum::Static;
    let mut ctrl = CtrlKbdLed::new(support, config, None, Some("b".to_owned())).unwrap();
    match ctrl.toggle_mode(false, b"") {
        ToggleOutcome::Skipped(persist) => {
            assert_eq!(persist, ctrl.config.to_bytes());
        },
        _ => panic!("missing stored effect must only persist"),
    }
    assert_eq!(ctrl.config.current_mode, AuraModeNum::Static);
}

#[test]
fn update_config_records_observed_brightness() {
    let mut ctrl = controller(vec![AuraModeNum::Static]);
    assert_eq!(ctrl.config.brightness, LedBrightness::Med);
    let r = ctrl.update_config(b'3', b"").expect("digit accepted");
    assert!(r.is_some());
    assert_eq!(ctrl.config.brightness, LedBrightness::High);
    let r = ctrl.update_config(b'3', b"").expect("digit accepted");
    assert!(r.is_none());
}

#[test]
fn update_config_rejects_non_digit() {
    let mut ctrl = controller(vec![AuraModeNum::Static]);
    assert_eq!(ctrl.update_config(b'x', b""), Err(RogError::ParseLed));
}

#[test]
fn write_effect_block_alternates_direction() {
    let mut ctrl = controller(vec![AuraModeNum::Static]);
    let rows = vec![vec![1u8, 2u8], vec![3u8, 4u8], vec![5u8, 6u8]];
    let first = ctrl.write_effect_block(&rows).expect("packet node present");
    assert_eq!(first, rows);
    let second = ctrl.write_effect_block(&rows).expect("packet node present");
    assert_eq!(second, vec![vec![5u8, 6u8], vec![3u8, 4u8], vec![1u8, 2u8]]);
    let third = ctrl.write_effect_block(&rows).expect("packet node present");
    assert_eq!(third, rows);
}

#[test]
fn write_effect_block_needs_packet_node() {
    let support = caps(vec![AuraModeNum::Static]);
    let config = AuraConfig::create_default(&support);
    let mut ctrl = CtrlKbdLed::new(support, config, None, Some("b".to_owned())).unwrap();
    let rows = vec![vec![1u8]];
    assert_eq!(ctrl.write_effect_block(&rows), Err(RogError::NotSupported));
}

#[test]
fn controller_needs_brightness_node() {
    let support = caps(vec![AuraModeNum::Static]);
    let config = AuraConfig::create_default(&support);
    match CtrlKbdLed::new(support, config, Some("led".to_owned()), None) {
        Err(RogError::MissingFunction(_)) => {},
        _ => panic!("missing brightness node must be fatal"),
    }
}

#[test]
fn controller_needs_any_node() {
    let support = caps(vec![AuraModeNum::Static]);
    let config = AuraConfig::create_default(&support);
    match CtrlKbdLed::new(support, config, None, None) {
        Err(RogError::MissingFunction(_)) => {},
        _ => panic!("no node at all must be fatal"),
    }
}

#[test]
fn wake_plan_reapplies_brightness_and_mode() {
    let ctrl = controller(vec![AuraModeNum::Static]);
    let (code, packets) = ctrl.wake_plan();
    assert_eq!(code, b'2');
    let packets = packets.expect("stored effect for current mode");
    assert_eq!(
        packets[0],
        effect_bytes(&AuraEffect::default_with_mode(AuraModeNum::Static))
    );
}

#[test]
fn reload_plan_reapplies_stored_effect_and_power() {
    let mut ctrl = controller(vec![AuraModeNum::Static]);
    let plan = ctrl.reload_plan(b"");
    let save = plan.save.expect("stored effect for current mode");
    assert_eq!(
        save.packets[0],
        effect_bytes(&AuraEffect::default_with_mode(AuraModeNum::Static))
    );
    assert_eq!(plan.power[0], power_packet(&ctrl.config.power_states));
}

#[test]
fn find_led_node_picks_first_matching_product() {
    let products = asus_keyboard_products();
    let devices = vec![
        HidRawInfo { id_product: b"0b05".to_vec(), devnode: Some("/dev/hidraw0".to_owned()) },
        HidRawInfo { id_product: b"1866".to_vec(), devnode: None },
        HidRawInfo { id_product: b"1866".to_vec(), devnode: Some("/dev/hidraw2".to_owned()) },
        HidRawInfo { id_product: b"19b6".to_vec(), devnode: Some("/dev/hidraw3".to_owned()) },
    ];
    assert_eq!(find_led_node(&products, &devices), Ok(2));
}

#[test]
fn find_led_node_reports_missing_function() {
    let products = asus_keyboard_products();
    let devices = vec![HidRawInfo {
        id_product: b"0b05".to_vec(),
        devnode: Some("/dev/hidraw0".to_owned()),
    }];
    match find_led_node(&products, &devices) {
        Err(RogError::MissingFunction(_)) => {},
        _ => panic!("no matching device must be a missing function"),
    }
}

#[test]
fn gfx_vendor_names_parse_case_insensitively() {
    assert_eq!(GfxVendors::from_text(b"nvidia"), Ok(GfxVendors::Nvidia));
    assert_eq!(GfxVendors::from_text(b"NVIDIA"), Ok(GfxVendors::Nvidia));
    assert_eq!(GfxVendors::from_text(b"hybrid\n"), Ok(GfxVendors::Hybrid));
    assert_eq!(GfxVendors::from_text(b"Compute"), Ok(GfxVendors::Compute));
    assert_eq!(GfxVendors::from_text(b"integrated"), Ok(GfxVendors::Integrated));
    assert_eq!(GfxVendors::from_text(b"vesa"), Err(GraphicsError::ParseVendor));
    assert_eq!(GfxVendors::from_text(b"nvidia \n"), Err(GraphicsError::ParseVendor));
}

#[test]
fn gfx_actions_parse_and_render() {
    assert_eq!(GfxCtrlAction::from_text(b"reboot"), Ok(GfxCtrlAction::Reboot));
    assert_eq!(GfxCtrlAction::from_text(b"RestartX"), Ok(GfxCtrlAction::RestartX));
    assert_eq!(GfxCtrlAction::from_text(b"none"), Ok(GfxCtrlAction::NoAction));
    assert_eq!(
        GfxCtrlAction::from_text(b"none\n"),
        Err(GraphicsError::ParseVendor)
    );
    assert_eq!(GfxCtrlAction::from_text(b"later"), Err(GraphicsError::ParseVendor));
    assert_eq!(GfxCtrlAction::Reboot.to_text(), b"reboot".to_vec());
    assert_eq!(GfxCtrlAction::NoAction.to_text(), b"none".to_vec());
}

#[test]
fn gpu_mux_mode_raw_codec() {
    assert_eq!(GpuMuxMode::from_raw(0), GpuMuxMode::Discrete);
    assert_eq!(GpuMuxMode::from_raw(1), GpuMuxMode::Optimus);
    assert_eq!(GpuMuxMode::from_raw(77), GpuMuxMode::Optimus);
    assert_eq!(GpuMuxMode::Discrete.raw(), 0);
    assert_eq!(GpuMuxMode::Optimus.raw(), 1);
    assert_eq!(GpuMuxMode::Error.raw(), 254);
    assert_eq!(GpuMuxMode::NotSupported.raw(), 255);
}

#[test]
fn platform_keeps_its_syspath() {
    let p = AsusPlatform::from_syspath("/sys/devices/platform/asus-nb-wmi".to_owned());
    assert_eq!(p.syspath(), "/sys/devices/platform/asus-nb-wmi");
}

#[test]
fn settings_defaults_and_upgrades() {
    let c = Config::new();
    assert_eq!(c.bat_charge_limit, 100);
    assert!(c.disable_nvidia_powerd_on_battery);
    assert_eq!(c.file_name(), "asusd.ron");
    assert_eq!(Config::config_dir(), "/etc/asusd/");

    let old = Config472 {
        bat_charge_limit: 80,
        panel_od: true,
        mini_led_mode: true,
        disable_nvidia_powerd_on_battery: false,
        ac_command: "on-ac".to_owned(),
        bat_command: "on-bat".to_owned(),
        post_animation_sound: true,
    };
    let up = Config::upgrade_from_472(old);
    assert_eq!(up.bat_charge_limit, 80);
    assert!(up.panel_od);
    assert!(up.disable_nvidia_powerd_on_battery);
    assert_eq!(up.ac_command, "on-ac");
    assert!(up.nv_temp_target.is_none());

    let older = Config462 {
        bat_charge_limit: 60,
        panel_od: false,
        disable_nvidia_powerd_on_battery: false,
        ac_command: "x".to_owned(),
        bat_command: "y".to_owned(),
    };
    let up = Config::upgrade_from_462(older);
    assert_eq!(up.bat_charge_limit, 60);
    assert_eq!(up.ac_command, "");
    assert_eq!(up.bat_command, "");
}

#[test]
fn supported_functions_reports_capabilities() {
    let support = caps(vec![AuraModeNum::Static, AuraModeNum::Rainbow]);
    let s = asusd::aura::supported_functions(&support, true);
    assert!(s.brightness_set);
    assert_eq!(s.stock_led_modes, vec![AuraModeNum::Static, AuraModeNum::Rainbow]);
    assert!(!s.multizone_led_mode);
    assert!(!s.per_key_led_mode);
}

#[test]
fn error_messages_name_their_cause() {
    assert_eq!(RogError::NotSupported.message(), "not supported by this device");
    assert_eq!(RogError::ParseLed.message(), "brightness node held no digit");
}

#[test]
fn brightness_from_level_clamps_to_off() {
    assert_eq!(LedBrightness::from_level(4), LedBrightness::Off);
    assert_eq!(LedBrightness::from_level(9), LedBrightness::Off);
}

#[test]
fn toggle_mode_rereads_disk_before_lookup() {
    // The stored file has an effect for Breathe that differs from the
    // in-memory one; cycling must pick up the file's value.
    let support = caps(vec![AuraModeNum::Static, AuraModeNum::Breathe]);
    let mut stored = AuraConfig::create_default(&support);
    stored.set_builtin(AuraEffect {
        mode: AuraModeNum::Breathe,
        zone: AuraZone::Global,
        colour1: Colour(1, 2, 3),
        colour2: Colour(0, 0, 0),
        speed: Speed::High,
        direction: Direction::Left,
    });
    let disk = stored.to_bytes();
    let mut ctrl = controller(vec![AuraModeNum::Static, AuraModeNum::Breathe]);
    ctrl.config.current_mode = AuraModeNum::Static;
    match ctrl.toggle_mode(false, &disk) {
        ToggleOutcome::Applied(plan) => {
            let expected = stored.builtins.get(AuraModeNum::Breathe).unwrap();
            assert_eq!(plan.packets[0], effect_bytes(&expected));
        },
        _ => panic!("target mode has a stored effect"),
    }
    assert_eq!(ctrl.config.current_mode, AuraModeNum::Breathe);
    assert_eq!(ctrl.config.builtins, stored.builtins);
}

#[test]
fn update_config_rereads_disk_before_recording() {
    let support = caps(vec![AuraModeNum::Static]);
    let mut stored = AuraConfig::create_default(&support);
    stored.current_mode = AuraModeNum::Static;
    stored.brightness = LedBrightness::Low;
    let disk = stored.to_bytes();
    let mut ctrl = controller(vec![AuraModeNum::Static]);
    let r = ctrl.update_config(b'0', &disk).expect("digit accepted");
    assert!(r.is_some());
    // The rest of the configuration comes from the file; only the
    // observed brightness wins.
    assert_eq!(ctrl.config.brightness, LedBrightness::Off);
    assert_eq!(ctrl.config.builtins, stored.builtins);
}

#[test]
fn set_and_save_rereads_disk_before_storing() {
    // The stored file carries a different brightness; applying a mode
    // must pick the file's values up before storing the new effect.
    let support = caps(vec![AuraModeNum::Static, AuraModeNum::Breathe]);
    let mut stored = AuraConfig::create_default(&support);
    stored.brightness = LedBrightness::Low;
    let disk = stored.to_bytes();
    let mut ctrl = controller(vec![AuraModeNum::Static, AuraModeNum::Breathe]);
    let e = AuraEffect::default_with_mode(AuraModeNum::Breathe);
    let plan = ctrl.set_and_save(&e, &disk).expect("supported mode");
    assert_eq!(ctrl.config.brightness, LedBrightness::Low);
    assert_eq!(ctrl.config.current_mode, AuraModeNum::Breathe);
    assert_eq!(plan.persist, ctrl.config.to_bytes());
}

#[test]
fn error_message_keeps_display_wording() {
    assert_eq!(GraphicsError::ParseVendor.message(), "Could not parse vendor name");
    assert_eq!(GraphicsError::ParsePower.message(), "Could not parse dGPU power status");
}
