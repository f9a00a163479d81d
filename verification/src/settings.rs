//! The daemon's own settings file: current shape and the two older
//! shapes it still reads, with the upgrades between them.

use vstd::prelude::*;

verus! {

/// The daemon settings as persisted today.
#[derive(Debug, Clone, PartialEq)]
pub struct Config {
    /// Saved charge limit, restored on boot.
    pub bat_charge_limit: u8,
    pub panel_od: bool,
    pub mini_led_mode: bool,
    pub disable_nvidia_powerd_on_battery: bool,
    pub ac_command: String,
    pub bat_command: String,
    pub post_animation_sound: bool,
    pub ppt_pl1_spl: Option<u8>,
    pub ppt_pl2_sppt: Option<u8>,
    pub ppt_fppt: Option<u8>,
    pub ppt_apu_sppt: Option<u8>,
    pub ppt_platform_sppt: Option<u8>,
    pub nv_dynamic_boost: Option<u8>,
    pub nv_temp_target: Option<u8>,
}

impl Config {
    /// A fresh settings value: full charge limit allowed, the battery
    /// power saving for the discrete GPU switched on, everything else
    /// off or absent.
    pub fn new() -> (r: Config)
        ensures
            r.bat_charge_limit == 100,
            r.panel_od == false,
            r.mini_led_mode == false,
            r.disable_nvidia_powerd_on_battery == true,
            r.ac_command@ == Seq::<char>::empty(),
            r.bat_command@ == Seq::<char>::empty(),
            r.post_animation_sound == false,
            r.ppt_pl1_spl is None,
            r.ppt_pl2_sppt is None,
            r.ppt_fppt is None,
            r.ppt_apu_sppt is None,
            r.ppt_platform_sppt is None,
            r.nv_dynamic_boost is None,
            r.nv_temp_target is None,
    {
        Config {
            bat_charge_limit: 100,
            panel_od: false,
            mini_led_mode: false,
            disable_nvidia_powerd_on_battery: true,
            ac_command: String::new(),
            bat_command: String::new(),
            post_animation_sound: false,
            ppt_pl1_spl: None,
            ppt_pl2_sppt: None,
            ppt_fppt: None,
            ppt_apu_sppt: None,
            ppt_platform_sppt: None,
            nv_dynamic_boost: None,
            nv_temp_target: None,
        }
    }

    /// The file this settings value lives in.
    pub fn file_name(&self) -> (r: &'static str) {
        "asusd.ron"
    }

    /// The directory the daemon keeps its configuration files in.
    pub fn config_dir() -> (r: &'static str) {
        "/etc/asusd/"
    }
}

/// The settings shape one generation back, kept so an old file still
/// loads.
#[derive(Debug, Clone, PartialEq)]
pub struct Config472 {
    /// Saved charge limit, restored on boot.
    pub bat_charge_limit: u8,
    pub panel_od: bool,
    pub mini_led_mode: bool,
    pub disable_nvidia_powerd_on_battery: bool,
    pub ac_command: String,
    pub bat_command: String,
    pub post_animation_sound: bool,
}

/// The settings shape two generations back.
#[derive(Debug, Clone, PartialEq)]
pub struct Config462 {
    /// Saved charge limit, restored on boot.
    pub bat_charge_limit: u8,
    pub panel_od: bool,
    pub disable_nvidia_powerd_on_battery: bool,
    pub ac_command: String,
    pub bat_command: String,
}

impl Config {
    /// Upgrades a one-generation-old settings value: the carried fields
    /// move over, the battery power saving is switched on, and the new
    /// fields take their fresh values.
    pub fn upgrade_from_472(c: Config472) -> (r: Config)
        ensures
            r.bat_charge_limit == c.bat_charge_limit,
            r.panel_od == c.panel_od,
            r.mini_led_mode == false,
            r.disable_nvidia_powerd_on_battery == true,
            r.ac_command == c.ac_command,
            r.bat_command == c.bat_command,
            r.post_animation_sound == false,
            r.ppt_pl1_spl is None,
            r.ppt_pl2_sppt is None,
            r.ppt_fppt is None,
            r.ppt_apu_sppt is None,
            r.ppt_platform_sppt is None,
            r.nv_dynamic_boost is None,
            r.nv_temp_target is None,
    {
        Config {
            bat_charge_limit: c.bat_charge_limit,
            panel_od: c.panel_od,
            mini_led_mode: false,
            disable_nvidia_powerd_on_battery: true,
            ac_command: c.ac_command,
            bat_command: c.bat_command,
            post_animation_sound: false,
            ppt_pl1_spl: None,
            ppt_pl2_sppt: None,
            ppt_fppt: None,
            ppt_apu_sppt: None,
            ppt_platform_sppt: None,
            nv_dynamic_boost: None,
            nv_temp_target: None,
        }
    }

    /// Upgrades a two-generations-old settings value: only the charge
    /// limit and panel overdrive carry over; the commands reset.
    pub fn upgrade_from_462(c: Config462) -> (r: Config)
        ensures
            r.bat_charge_limit == c.bat_charge_limit,
            r.panel_od == c.panel_od,
            r.mini_led_mode == false,
            r.disable_nvidia_powerd_on_battery == true,
            r.ac_command@ == Seq::<char>::empty(),
            r.bat_command@ == Seq::<char>::empty(),
            r.post_animation_sound == false,
            r.ppt_pl1_spl is None,
            r.ppt_pl2_sppt is None,
            r.ppt_fppt is None,
            r.ppt_apu_sppt is None,
            r.ppt_platform_sppt is None,
            r.nv_dynamic_boost is None,
            r.nv_temp_target is None,
    {
        Config {
            bat_charge_limit: c.bat_charge_limit,
            panel_od: c.panel_od,
            mini_led_mode: false,
            disable_nvidia_powerd_on_battery: true,
            ac_command: String::new(),
            bat_command: String::new(),
            post_animation_sound: false,
            ppt_pl1_spl: None,
            ppt_pl2_sppt: None,
            ppt_fppt: None,
            ppt_apu_sppt: None,
            ppt_platform_sppt: None,
            nv_dynamic_boost: None,
            nv_temp_target: None,
        }
    }
}

} // verus!
