use tuxedo_control::battery_control::{parse_percent, parse_thresholds, BatteryControl};
use tuxedo_control::errors::{ControlError, KeyboardEffect};
use tuxedo_control::hardware_control::{
    apply_battery_settings, apply_fan_settings, apply_keyboard_settings, apply_profile, apply_screen_settings,
    find_keyboard_backlight_path, get_cpu_count, get_webcam_state, max_brightness, preview_keyboard_settings,
    set_amd_pstate_status, set_cpu_boost, set_cpu_frequency_limits, set_cpu_governor, set_energy_performance_preference,
    set_fan_auto, set_fan_speed, set_smt, set_tdp_profile, set_webcam_state, ProfileStep, RgbKeyboardControl,
    keyboard_mode_brightness, screen_backlight_candidates, ProfileRun,
};
use tuxedo_control::tuxedo_io::{HardwareInterface, IoError, ReadRequest, TuxedoIo, WriteRequest, MAGIC_READ_CL};
use tuxedo_control::types::{
    BatterySettings, FanCurve, FanSettings, KeyboardMode, KeyboardSettings, Profile, ScreenSettings,
};

fn pairs(ws: &[tuxedo_control::battery_control::SysfsWrite]) -> Vec<(String, String)> {
    ws.iter().map(|w| (w.path.clone(), w.content.clone())).collect()
}

#[test]
fn battery_control_prefers_bat0_and_refuses_without_charge_control() {
    let b = BatteryControl::new(true, true).unwrap();
    assert_eq!(b.attribute_path("charge_type"), "/sys/class/power_supply/BAT0/charge_type");
    let b = BatteryControl::new(false, true).unwrap();
    assert_eq!(b.attribute_path("capacity"), "/sys/class/power_supply/BAT1/capacity");
    assert_eq!(BatteryControl::new(false, false).err(), Some(ControlError::NoChargeControl));
    assert!(BatteryControl::is_available(false, true));
    assert!(!BatteryControl::is_available(false, false));
}

#[test]
fn battery_writes_check_their_values() {
    let b = BatteryControl::new(true, false).unwrap();
    assert_eq!(b.set_charge_type("Fast").err(), Some(ControlError::InvalidChargeType));
    let w = b.set_charge_type("Custom").unwrap();
    assert_eq!((w.path.as_str(), w.content.as_str()), ("/sys/class/power_supply/BAT0/charge_type", "Custom"));
    assert_eq!(b.set_charge_control_start_threshold(101).err(), Some(ControlError::ThresholdOutOfRange));
    let w = b.set_charge_control_end_threshold(80).unwrap();
    assert_eq!(w.content, "80");
}

#[test]
fn threshold_written_is_read_back() {
    let b = BatteryControl::new(true, false).unwrap();
    for t in 0..=100u8 {
        let w = b.set_charge_control_start_threshold(t).unwrap();
        assert_eq!(b.get_charge_control_start_threshold(&w.content), Ok(t));
    }
}

#[test]
fn battery_reads_trim_and_parse() {
    let b = BatteryControl::new(true, false).unwrap();
    assert_eq!(b.get_charge_type("Custom\n"), "Custom");
    assert_eq!(b.get_capacity(" 87\n"), Ok(87));
    assert_eq!(b.get_capacity("full"), Err(ControlError::InvalidNumber));
    assert_eq!(parse_percent("300"), Err(ControlError::InvalidNumber));
    assert_eq!(b.get_status("Charging\n"), "Charging");
    assert_eq!(b.get_manufacturer(" ACME "), "ACME");
    assert_eq!(b.get_model_name("X1\n"), "X1");
}

#[test]
fn available_thresholds_come_from_the_file_or_defaults() {
    let b = BatteryControl::new(true, false).unwrap();
    assert_eq!(b.get_available_start_thresholds(None), vec![40, 50, 60, 70, 80, 95]);
    assert_eq!(b.get_available_end_thresholds(None), vec![60, 70, 80, 90, 100]);
    assert_eq!(b.get_available_end_thresholds(Some("80 x 90 300 100\n")), vec![80, 90, 100]);
    assert_eq!(parse_thresholds(""), Vec::<u8>::new());
}

#[test]
fn battery_settings_write_type_then_thresholds() {
    let b = BatteryControl::new(true, false).unwrap();
    let on = BatterySettings { control_enabled: true, charge_start_threshold: 40, charge_end_threshold: 80 };
    let plan = apply_battery_settings(&on, Some(&b));
    assert!(plan.outcome.is_ok());
    assert_eq!(pairs(&plan.writes), vec![
        ("/sys/class/power_supply/BAT0/charge_type".to_string(), "Custom".to_string()),
        ("/sys/class/power_supply/BAT0/charge_control_start_threshold".to_string(), "40".to_string()),
        ("/sys/class/power_supply/BAT0/charge_control_end_threshold".to_string(), "80".to_string()),
    ]);
    let bad = BatterySettings { control_enabled: true, charge_start_threshold: 40, charge_end_threshold: 120 };
    let plan = apply_battery_settings(&bad, Some(&b));
    assert_eq!(plan.outcome, Err(ControlError::ThresholdOutOfRange));
    assert_eq!(plan.writes.len(), 2);
    let off = BatterySettings { control_enabled: false, charge_start_threshold: 40, charge_end_threshold: 80 };
    let plan = apply_battery_settings(&off, Some(&b));
    assert_eq!(pairs(&plan.writes), vec![("/sys/class/power_supply/BAT0/charge_type".to_string(), "Standard".to_string())]);
    assert!(apply_battery_settings(&on, None).writes.is_empty());
}

#[test]
fn profile_steps_follow_the_settings_order() {
    let mut p = Profile::default();
    let steps = apply_profile(&p);
    assert_eq!(steps.len(), 3);
    assert!(matches!(steps[0], ProfileStep::ApplyKeyboard));
    p.cpu_settings.governor = Some("powersave".to_string());
    p.cpu_settings.min_frequency = Some(400000);
    p.cpu_settings.boost = Some(false);
    let steps = apply_profile(&p);
    assert_eq!(steps.len(), 5);
    assert!(matches!(&steps[0], ProfileStep::SetGovernor(g) if g == "powersave"));
    assert!(matches!(steps[1], ProfileStep::SetBoost(false)));
    p.cpu_settings.max_frequency = Some(3000000);
    let steps = apply_profile(&p);
    assert!(matches!(steps[1], ProfileStep::SetFrequencyLimits(400000, 3000000)));
    assert!(matches!(steps[5], ProfileStep::ApplyFans));
}

#[test]
fn cpu_writes_cover_each_cpu() {
    assert_eq!(get_cpu_count("processor\t: 0\nmodel name : X\nprocessor\t: 1\n\nprocessor : 2\r\n"), 3);
    assert_eq!(get_cpu_count(""), 0);
    let ws = set_cpu_governor("performance", 2);
    assert_eq!(pairs(&ws), vec![
        ("/sys/devices/system/cpu/cpu0/cpufreq/scaling_governor".to_string(), "performance".to_string()),
        ("/sys/devices/system/cpu/cpu1/cpufreq/scaling_governor".to_string(), "performance".to_string()),
    ]);
    assert_eq!(set_cpu_frequency_limits(1, 2, false, 4).err(), Some(ControlError::FrequencyControlUnavailable));
    let ws = set_cpu_frequency_limits(400000, 4200000, true, 2).unwrap();
    assert_eq!(ws.len(), 4);
    assert_eq!(ws[3].path, "/sys/devices/system/cpu/cpu1/cpufreq/scaling_max_freq");
    assert_eq!(ws[2].content, "400000");
}

#[test]
fn boost_smt_pstate_and_epp_writes() {
    let w = set_cpu_boost(true, true, true).unwrap();
    assert_eq!((w.path.as_str(), w.content.as_str()), ("/sys/devices/system/cpu/cpufreq/boost", "1"));
    let w = set_cpu_boost(true, false, true).unwrap();
    assert_eq!((w.path.as_str(), w.content.as_str()), ("/sys/devices/system/cpu/intel_pstate/no_turbo", "0"));
    assert_eq!(set_cpu_boost(true, false, false).err(), Some(ControlError::BoostUnavailable));
    assert_eq!(set_smt(false, true).unwrap().content, "off");
    assert_eq!(set_smt(true, false).err(), Some(ControlError::SmtUnavailable));
    assert_eq!(set_amd_pstate_status(false, "active").err(), Some(ControlError::AmdPstateUnavailable));
    assert_eq!(set_amd_pstate_status(true, "fast").err(), Some(ControlError::InvalidAmdPstateStatus));
    assert_eq!(set_amd_pstate_status(true, "guided").unwrap().content, "guided");
    assert_eq!(set_energy_performance_preference("turbo", &vec![true]).err(), Some(ControlError::InvalidEnergyPerformancePreference));
    let ws = set_energy_performance_preference("power", &vec![true, false, true]).unwrap();
    assert_eq!(pairs(&ws), vec![
        ("/sys/devices/system/cpu/cpu0/cpufreq/energy_performance_preference".to_string(), "power".to_string()),
        ("/sys/devices/system/cpu/cpu2/cpufreq/energy_performance_preference".to_string(), "power".to_string()),
    ]);
}

#[test]
fn device_requests_through_the_control_functions() {
    let cl = TuxedoIo::new(HardwareInterface::Clevo, 2);
    assert_eq!(set_fan_speed(None, 0, 50, &vec![]), Err(ControlError::FanControlUnavailable));
    assert_eq!(set_fan_speed(Some(&cl), 0, 250, &vec![None, Some(0x10)]), Ok(WriteRequest::ClevoFanSpeed(255 | (0x10 << 8))));
    assert_eq!(set_fan_auto(Some(&cl), 1), Ok(WriteRequest::ClevoFanAuto(0xF)));
    assert_eq!(set_fan_auto(None, 1), Err(ControlError::FanControlUnavailable));
    assert_eq!(set_webcam_state(None, true), Err(ControlError::WebcamControlUnavailable));
    assert_eq!(get_webcam_state(None), Err(ControlError::WebcamStateUnavailable));
    assert_eq!(get_webcam_state(Some(&cl)), Ok(ReadRequest { magic: MAGIC_READ_CL, seq: 0x13, pointer_sized: false }));
    let uw = TuxedoIo::new(HardwareInterface::Uniwill, 2);
    assert_eq!(get_webcam_state(Some(&uw)), Err(ControlError::Device(IoError::WebcamUnsupported)));
    let profiles = uw.get_available_profiles(3);
    assert_eq!(set_tdp_profile(Some(&uw), &profiles, "Overboost"), Ok(WriteRequest::UniwillPerfProfile(3)));
    assert_eq!(set_tdp_profile(Some(&uw), &profiles, "Turbo"), Err(ControlError::TdpProfileNotFound));
    assert_eq!(set_tdp_profile(None, &profiles, "Overboost"), Err(ControlError::TdpProfilesUnavailable));
}

#[test]
fn fan_settings_plan() {
    let on = FanSettings { control_enabled: true, curves: vec![FanCurve { fan_id: 1, points: vec![(10, 20)] }] };
    assert!(apply_fan_settings(&on, false).is_none());
    let plan = apply_fan_settings(&on, true).unwrap();
    assert!(!plan.set_auto);
    let d = plan.daemon_settings.unwrap();
    assert_eq!(d.curves[0].points, vec![(10, 20)]);
    let off = FanSettings { control_enabled: false, curves: vec![] };
    let plan = apply_fan_settings(&off, true).unwrap();
    assert!(plan.set_auto);
    assert!(plan.daemon_settings.is_none());
}

#[test]
fn keyboard_backlight_is_the_first_candidate_present() {
    assert_eq!(find_keyboard_backlight_path(&vec![false, true, true, false]), Some("/sys/class/leds/tuxedo::kbd_backlight".to_string()));
    assert_eq!(find_keyboard_backlight_path(&vec![false; 4]), None);
    assert!(RgbKeyboardControl::is_available(&vec![false, false, false, true]));
    assert_eq!(RgbKeyboardControl::new(&vec![false; 4]).err(), Some(ControlError::KeyboardBacklightNotFound));
}

#[test]
fn keyboard_writes_scale_brightness() {
    let k = RgbKeyboardControl::new(&vec![true, false, false, false]).unwrap();
    assert_eq!(max_brightness(Some(" 200\n")), 200);
    assert_eq!(max_brightness(Some("bad")), 255);
    assert_eq!(max_brightness(None), 255);
    let w = k.set_brightness(50, 200);
    assert_eq!((w.path.as_str(), w.content.as_str()), ("/sys/class/leds/rgb:kbd_backlight/brightness", "100"));
    let w = k.set_color(true, 255, 0, 16).unwrap();
    assert_eq!(w.content, "255 0 16");
    assert_eq!(k.set_color(false, 1, 2, 3).err(), Some(ControlError::RgbControlUnavailable));
    assert_eq!(k.get_brightness("100\n", 200), Ok(50));
    assert_eq!(k.get_brightness("x", 200), Err(ControlError::InvalidNumber));
}

#[test]
fn keyboard_modes_write_name_colour_and_brightness() {
    let k = RgbKeyboardControl::new(&vec![true, false, false, false]).unwrap();
    let base = "/sys/class/leds/rgb:kbd_backlight";
    let plan = k.set_mode(&KeyboardMode::Breathe { r: 1, g: 2, b: 3, brightness: 100, speed: 5 }, true, true, 255);
    assert!(plan.outcome.is_ok());
    assert_eq!(pairs(&plan.writes), vec![
        (format!("{}/mode", base), "breathing".to_string()),
        (format!("{}/multi_intensity", base), "1 2 3".to_string()),
        (format!("{}/brightness", base), "255".to_string()),
    ]);
    let plan = k.set_mode(&KeyboardMode::Wave { brightness: 50, speed: 1 }, true, false, 255);
    assert_eq!(plan.outcome, Err(ControlError::ModeNotSupported(KeyboardEffect::Wave)));
    let plan = k.set_mode(&KeyboardMode::Tempo { brightness: 50, speed: 1 }, true, false, 255);
    assert_eq!(plan.outcome, Err(ControlError::ModeNotSupported(KeyboardEffect::Tempo)));
    assert!(plan.writes.is_empty());
    let plan = k.set_mode(&KeyboardMode::Flash { r: 1, g: 2, b: 3, brightness: 10, speed: 1 }, false, true, 255);
    assert_eq!(plan.outcome, Err(ControlError::RgbControlUnavailable));
    assert_eq!(pairs(&plan.writes), vec![(format!("{}/mode", base), "flash".to_string())]);
}

#[test]
fn keyboard_settings_skip_colour_without_its_file() {
    let settings = KeyboardSettings { control_enabled: true, mode: KeyboardMode::SingleColor { r: 9, g: 8, b: 7, brightness: 40 } };
    let plan = apply_keyboard_settings(&settings, &vec![false, true, false, false], false, false, Some("100"));
    assert!(plan.outcome.is_ok());
    assert_eq!(pairs(&plan.writes), vec![("/sys/class/leds/tuxedo::kbd_backlight/brightness".to_string(), "40".to_string())]);
    let plan = preview_keyboard_settings(&settings, &vec![false; 4], true, true, None);
    assert_eq!(plan.outcome, Err(ControlError::KeyboardBacklightNotFound));
    let off = KeyboardSettings { control_enabled: false, mode: settings.mode };
    let plan = apply_keyboard_settings(&off, &vec![false; 4], true, true, None);
    assert!(plan.outcome.is_ok() && plan.writes.is_empty());
}

#[test]
fn screen_brightness_goes_to_the_first_backlight() {
    let s = ScreenSettings { brightness: 30, system_control: false };
    let w = apply_screen_settings(&s, &vec![false, true, true], "1000\n").unwrap();
    assert_eq!((w.path.as_str(), w.content.as_str()), ("/sys/class/backlight/amdgpu_bl0/brightness", "300"));
    assert!(apply_screen_settings(&s, &vec![false; 3], "1000").is_none());
    let sys = ScreenSettings { brightness: 30, system_control: true };
    assert!(apply_screen_settings(&sys, &vec![true; 3], "1000").is_none());
}

#[test]
fn brightness_written_is_read_back() {
    let k = RgbKeyboardControl::new(&vec![true, false, false, false]).unwrap();
    for p in 0..=100u8 {
        let w = k.set_brightness(p, 300);
        assert_eq!(k.get_brightness(&w.content, 300), Ok(p));
        let w = k.set_brightness(p, 255);
        let back = k.get_brightness(&w.content, 255).unwrap();
        assert!(back <= p);
        assert!(w.content.parse::<u32>().unwrap() <= 255);
    }
}

#[test]
fn battery_path_is_the_first_with_charge_control() {
    assert_eq!(BatteryControl::find_battery_path(true, true).unwrap(), "/sys/class/power_supply/BAT0");
    assert_eq!(BatteryControl::find_battery_path(false, true).unwrap(), "/sys/class/power_supply/BAT1");
    assert!(matches!(BatteryControl::find_battery_path(false, false), Err(ControlError::NoChargeControl)));
}

#[test]
fn screen_candidates_and_mode_brightness() {
    assert_eq!(
        screen_backlight_candidates(),
        vec![
            "/sys/class/backlight/intel_backlight".to_string(),
            "/sys/class/backlight/amdgpu_bl0".to_string(),
            "/sys/class/backlight/acpi_video0".to_string(),
        ]
    );
    assert_eq!(keyboard_mode_brightness(&KeyboardMode::Wave { brightness: 70, speed: 10 }), 70);
    assert_eq!(keyboard_mode_brightness(&KeyboardMode::SingleColor { r: 1, g: 2, b: 3, brightness: 9 }), 9);
}

#[test]
fn profile_runs_stop_at_the_first_failure() {
    let mut p = Profile::default();
    p.cpu_settings.boost = Some(true);
    let mut run = ProfileRun::new(&p);
    assert!(matches!(run.next_step(), Some(ProfileStep::SetBoost(true))));
    run.step_done(true);
    assert!(matches!(run.next_step(), Some(ProfileStep::ApplyKeyboard)));
    run.step_done(false);
    assert!(run.next_step().is_none());
    assert!(!run.succeeded());
    let mut ok = ProfileRun::new(&Profile::default());
    let mut taken = 0;
    while ok.next_step().is_some() {
        ok.step_done(true);
        taken += 1;
    }
    assert_eq!(taken, 3);
    assert!(ok.succeeded());
}

#[test]
fn keyboard_brightness_reads_back_within_one() {
    let k = RgbKeyboardControl::new(&vec![true, false, false, false]).unwrap();
    let w = k.set_brightness(50, 255);
    assert_eq!(w.content, "127");
    assert_eq!(k.get_brightness(&w.content, 255), Ok(49));
    let w = k.set_brightness(73, 200);
    assert_eq!(k.get_brightness(&w.content, 200), Ok(73));
}
