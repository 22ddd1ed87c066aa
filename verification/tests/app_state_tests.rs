use tuxedo_control::app_state::{
    add_fan_curve_point, create_default_profile_for_reset, current_profile_index, ensure_fan_curves,
    extract_pci_ids, get_wifi_chip_name, normalize_profile_names, tray_event, update_fan_curve_point, Config,
    KeyboardShortcuts, Page, ShortcutOutcome, StatusMessage, TrayEvent,
};
use tuxedo_control::app_state::{edit_profile, keyboard_mode_for_index, keyboard_mode_index, ProfileEdit};
use tuxedo_control::app_state::{activate_profile, create_profile, delete_profile, reset_default_profile, ProfileNameError};
use tuxedo_control::app_state::{edit_settings, fill_shown_cpu_settings, fix_start_threshold, SettingsEdit};
use tuxedo_control::app_state::{fan_label, fan_speed_label, visible_sections, StatisticsSection};
use tuxedo_control::app_state::{delete_profile_at, remove_fan_curve_point, scheduler_for_index, scheduler_index, theme_for_index, theme_index};
use tuxedo_control::types::{AppConfig, BatterySettings, CpuCapabilities, FanCurve, FanSettings, FontSize, KeyboardMode, Profile, Theme};

fn config_with(names: &[&str], current: &str) -> AppConfig {
    let mut c = AppConfig::default();
    c.profiles = names
        .iter()
        .map(|n| {
            let mut p = Profile::default();
            p.name = n.to_string();
            p
        })
        .collect();
    c.current_profile = current.to_string();
    c
}

#[test]
fn default_profiles_are_renamed_standard() {
    let mut c = config_with(&["Default", "Gaming", "Default"], "Default");
    normalize_profile_names(&mut c);
    let names: Vec<&str> = c.profiles.iter().map(|p| p.name.as_str()).collect();
    assert_eq!(names, vec!["Standard", "Gaming", "Standard"]);
    assert_eq!(c.current_profile, "Standard");
    let mut d = config_with(&["Quiet"], "Quiet");
    normalize_profile_names(&mut d);
    assert_eq!(d.profiles[0].name, "Quiet");
    assert_eq!(d.current_profile, "Quiet");
}

#[test]
fn current_profile_is_found_by_name() {
    assert_eq!(current_profile_index(&config_with(&["A", "B", "B"], "B")), Some(1));
    assert_eq!(current_profile_index(&config_with(&["A"], "Z")), None);
    assert_eq!(current_profile_index(&AppConfig::default()), Some(0));
}

#[test]
fn reset_profiles() {
    let s = create_default_profile_for_reset(true);
    assert_eq!(s.name, "Standard");
    assert_eq!(s.cpu_settings.governor.as_deref(), Some("schedutil"));
    assert_eq!(s.cpu_settings.energy_performance_preference.as_deref(), Some("balance_performance"));
    assert_eq!(s.cpu_settings.amd_pstate_status.as_deref(), Some("active"));
    assert_eq!(s.cpu_settings.boost, Some(true));
    assert!(s.screen_settings.system_control);
    let o = create_default_profile_for_reset(false);
    assert_eq!(o.name, "Standard");
    assert_eq!(o.cpu_settings.governor, None);
}

#[test]
fn shortcuts_switch_page_and_toggle_help() {
    let mut k = KeyboardShortcuts::new();
    let mut page = Page::Tuning;
    assert!(!k.handle_shortcuts(false, false, true, false, &mut page).handled);
    assert_eq!(page, Page::Tuning);
    assert!(k.handle_shortcuts(true, false, true, false, &mut page).handled);
    assert_eq!(page, Page::Statistics);
    assert!(!k.show_help());
    assert!(k.handle_shortcuts(false, false, false, true, &mut page).handled);
    assert!(k.show_help());
    k.handle_shortcuts(false, false, false, true, &mut page);
    assert!(!k.show_help());
}

#[test]
fn ctrl_s_asks_for_a_save() {
    let mut k = KeyboardShortcuts::new();
    let mut page = Page::Profiles;
    let r = k.handle_shortcuts(true, true, false, false, &mut page);
    assert_eq!(r, ShortcutOutcome { handled: true, save: true });
    assert_eq!(page, Page::Profiles);
    let r = k.handle_shortcuts(false, true, false, false, &mut page);
    assert_eq!(r, ShortcutOutcome { handled: false, save: false });
}

#[test]
fn tray_events() {
    let ids = vec!["p0".to_string(), "p1".to_string()];
    assert_eq!(tray_event(true, Some("p1"), &ids), Some(TrayEvent::ShowWindow));
    assert_eq!(tray_event(false, Some("p1"), &ids), Some(TrayEvent::SwitchProfile(1)));
    assert_eq!(tray_event(false, Some("quit"), &ids), None);
    assert_eq!(tray_event(false, None, &ids), None);
}

#[test]
fn status_message_keeps_its_fields() {
    let m = StatusMessage::new("Configuration saved".to_string(), false, 1234);
    assert_eq!(m.text, "Configuration saved");
    assert!(!m.is_error);
    assert_eq!(m.shown_at, 1234);
}

#[test]
fn config_paths() {
    assert_eq!(Config::config_dir(Some("/home/tux")), Some("/home/tux/.config/tuxedo-control-center".to_string()));
    assert_eq!(Config::config_dir(Some("/root/")), Some("/root/.config/tuxedo-control-center".to_string()));
    assert_eq!(Config::config_dir(None), None);
    let c = Config::default_for_home(Some("/home/tux"));
    assert_eq!(c.config_path(), "/home/tux/.config/tuxedo-control-center/config.json");
    assert_eq!(c.data.current_profile, "Standard");
    let t = Config::default_for_home(None);
    assert_eq!(t.config_path(), "/tmp/tuxedo-control-center/config.json");
    let n = Config::new(AppConfig::default(), "/x/config.json".to_string());
    assert_eq!(n.config_path(), "/x/config.json");
}

#[test]
fn fan_curve_points_are_set_and_added() {
    let mut c = config_with(&["Gaming"], "Gaming");
    c.profiles[0].fan_settings.curves = vec![FanCurve { fan_id: 1, points: vec![(40, 20), (95, 60)] }];
    update_fan_curve_point(&mut c, "Gaming", 1, 0, 45, 25);
    assert_eq!(c.profiles[0].fan_settings.curves[0].points, vec![(45, 25), (95, 60)]);
    update_fan_curve_point(&mut c, "Gaming", 1, 9, 1, 1);
    assert_eq!(c.profiles[0].fan_settings.curves[0].points, vec![(45, 25), (95, 60)]);
    update_fan_curve_point(&mut c, "Gaming", 0, 3, 30, 35);
    assert_eq!(c.profiles[0].fan_settings.curves[1].fan_id, 0);
    assert_eq!(c.profiles[0].fan_settings.curves[1].points, vec![(30, 35)]);
    add_fan_curve_point(&mut c, "Gaming", 1);
    assert_eq!(c.profiles[0].fan_settings.curves[0].points, vec![(45, 25), (95, 60), (100, 50)]);
    add_fan_curve_point(&mut c, "Gaming", 0);
    assert_eq!(c.profiles[0].fan_settings.curves[1].points, vec![(30, 35), (40, 50)]);
    add_fan_curve_point(&mut c, "Gaming", 7);
    assert_eq!(c.profiles[0].fan_settings.curves[2].points, vec![(50, 50)]);
    add_fan_curve_point(&mut c, "Nobody", 7);
    assert_eq!(c.profiles[0].fan_settings.curves.len(), 3);
}

#[test]
fn fan_curves_are_added_up_to_the_fan_count() {
    let mut s = FanSettings { control_enabled: true, curves: vec![FanCurve { fan_id: 0, points: vec![(1, 1)] }] };
    ensure_fan_curves(&mut s, 3);
    assert_eq!(s.curves.len(), 3);
    assert_eq!(s.curves[0].points, vec![(1, 1)]);
    assert_eq!(s.curves[2].fan_id, 2);
    assert_eq!(s.curves[2].points, vec![(0, 0), (50, 50), (70, 75), (85, 100)]);
    let mut off = FanSettings { control_enabled: false, curves: vec![] };
    ensure_fan_curves(&mut off, 2);
    assert!(off.curves.is_empty());
}

#[test]
fn pci_ids_and_chip_names() {
    assert_eq!(
        extract_pci_ids("pci:v00008086d00002723sv00008086sd00000084bc02sc80i00"),
        Some(("00008086".to_string(), "00002723".to_string()))
    );
    assert_eq!(extract_pci_ids("usb:v1234p5678"), None);
    assert_eq!(get_wifi_chip_name(&("00008086".to_string(), "00002723".to_string())), "Intel Wi-Fi 6 AX200");
    assert_eq!(get_wifi_chip_name(&("000010EC".to_string(), "0000C822".to_string())), "Realtek RTL8822CE");
    assert_eq!(get_wifi_chip_name(&("00008086".to_string(), "0000FFFF".to_string())), "Intel WiFi (00008086:0000FFFF)");
    assert_eq!(get_wifi_chip_name(&("0000168C".to_string(), "0000003E".to_string())), "Qualcomm Atheros WiFi (0000168C:0000003E)");
    assert_eq!(get_wifi_chip_name(&("0000ABCD".to_string(), "1".to_string())), "Unknown WiFi (0000ABCD:1)");
}

#[test]
fn status_message_shows_for_five_seconds() {
    let m = StatusMessage::new("Profile reset to default settings (not saved)".to_string(), false, 10_000);
    assert!(m.is_visible(10_000));
    assert!(m.is_visible(14_999));
    assert!(!m.is_visible(15_000));
    assert!(m.is_visible(9_000));
}

#[test]
fn mode_list_positions_round_trip() {
    for i in 0..8u32 {
        assert_eq!(keyboard_mode_index(&keyboard_mode_for_index(i)), i);
    }
    assert_eq!(keyboard_mode_index(&keyboard_mode_for_index(42)), 0);
    assert!(matches!(keyboard_mode_for_index(4), KeyboardMode::Flash { r: 255, g: 255, b: 255, brightness: 50, speed: 50 }));
}

#[test]
fn tuning_edits_change_only_the_named_profile() {
    let mut c = config_with(&["A", "B"], "A");
    edit_profile(&mut c, "B", ProfileEdit::Governor("powersave".to_string()));
    assert_eq!(c.profiles[1].cpu_settings.governor.as_deref(), Some("powersave"));
    assert_eq!(c.profiles[0].cpu_settings.governor, None);
    edit_profile(&mut c, "B", ProfileEdit::MaxFrequency(3_000_000));
    assert_eq!(c.profiles[1].cpu_settings.max_frequency, Some(3_000_000));
    edit_profile(&mut c, "B", ProfileEdit::KeyboardModeIndex(2));
    edit_profile(&mut c, "B", ProfileEdit::KeyboardSpeed(80));
    edit_profile(&mut c, "B", ProfileEdit::KeyboardBrightness(20));
    edit_profile(&mut c, "B", ProfileEdit::KeyboardColor { r: 1, g: 2, b: 3, brightness: 4 });
    assert!(matches!(c.profiles[1].keyboard_settings.mode, KeyboardMode::Cycle { brightness: 20, speed: 80 }));
    edit_profile(&mut c, "A", ProfileEdit::KeyboardColor { r: 1, g: 2, b: 3, brightness: 4 });
    edit_profile(&mut c, "A", ProfileEdit::KeyboardSpeed(9));
    assert!(matches!(c.profiles[0].keyboard_settings.mode, KeyboardMode::SingleColor { r: 1, g: 2, b: 3, brightness: 4 }));
    edit_profile(&mut c, "A", ProfileEdit::ScreenBrightness(70));
    edit_profile(&mut c, "A", ProfileEdit::FanControl(true));
    assert_eq!(c.profiles[0].screen_settings.brightness, 70);
    assert!(c.profiles[0].fan_settings.control_enabled);
    edit_profile(&mut c, "Z", ProfileEdit::Boost(true));
    assert_eq!(c.profiles[0].cpu_settings.boost, None);
    assert_eq!(c.profiles[1].cpu_settings.boost, None);
}

#[test]
fn profiles_are_created_from_the_default_profile() {
    let mut c = config_with(&["Standard", "Quiet"], "Quiet");
    c.profiles[0].screen_settings.brightness = 70;
    c.profiles[1].is_default = false;
    assert_eq!(create_profile(&mut c, "Gaming"), Ok(()));
    assert_eq!(c.profiles.len(), 3);
    assert_eq!(c.profiles[2].name, "Gaming");
    assert!(!c.profiles[2].is_default);
    assert_eq!(c.profiles[2].screen_settings.brightness, 70);
    assert_eq!(c.current_profile, "Gaming");
    assert_eq!(create_profile(&mut c, "Quiet"), Err(ProfileNameError::Taken));
    assert_eq!(create_profile(&mut c, ""), Err(ProfileNameError::Empty));
    assert_eq!(c.profiles.len(), 3);
    assert_eq!(c.current_profile, "Gaming");
}

#[test]
fn profiles_without_a_default_start_from_default_settings() {
    let mut c = config_with(&["Quiet"], "Quiet");
    c.profiles[0].is_default = false;
    c.profiles[0].screen_settings.brightness = 10;
    assert_eq!(create_profile(&mut c, "New"), Ok(()));
    assert_eq!(c.profiles[1].screen_settings.brightness, 50);
    assert!(!c.profiles[1].is_default);
}

#[test]
fn deleting_removes_every_profile_of_the_name() {
    let mut c = config_with(&["A", "B", "A", "C"], "B");
    delete_profile(&mut c, "A");
    let names: Vec<&str> = c.profiles.iter().map(|p| p.name.as_str()).collect();
    assert_eq!(names, vec!["B", "C"]);
    assert_eq!(c.current_profile, "B");
    delete_profile(&mut c, "Z");
    assert_eq!(c.profiles.len(), 2);
}

#[test]
fn deleting_a_created_profile_restores_the_list() {
    let mut c = config_with(&["Standard", "Quiet"], "Quiet");
    assert_eq!(create_profile(&mut c, "Temp"), Ok(()));
    delete_profile(&mut c, "Temp");
    let names: Vec<&str> = c.profiles.iter().map(|p| p.name.as_str()).collect();
    assert_eq!(names, vec!["Standard", "Quiet"]);
}

#[test]
fn activating_and_resetting_profiles() {
    let mut c = config_with(&["Standard", "Quiet"], "Standard");
    activate_profile(&mut c, 1);
    assert_eq!(c.current_profile, "Quiet");
    activate_profile(&mut c, 5);
    assert_eq!(c.current_profile, "Quiet");
    c.profiles[0].screen_settings.brightness = 5;
    c.profiles[0].name = "Mine".to_string();
    let reset = reset_default_profile(&mut c).expect("a default profile");
    assert_eq!(reset.name, "Standard");
    assert_eq!(c.profiles[0].name, "Standard");
    assert_eq!(c.profiles[0].screen_settings.brightness, 50);
    assert!(c.profiles[0].is_default);
    let mut none = config_with(&["Quiet"], "Quiet");
    none.profiles[0].is_default = false;
    assert!(reset_default_profile(&mut none).is_none());
}

#[test]
fn settings_edits_change_one_setting() {
    let mut c = AppConfig::default();
    edit_settings(&mut c, SettingsEdit::Theme(Theme::Dark));
    assert_eq!(c.theme, Theme::Dark);
    edit_settings(&mut c, SettingsEdit::FontSize(FontSize::Large));
    assert_eq!(c.font_size, FontSize::Large);
    edit_settings(&mut c, SettingsEdit::ShowGpu(false));
    assert!(!c.statistics_sections.show_gpu);
    assert!(c.statistics_sections.show_cpu);
    edit_settings(&mut c, SettingsEdit::StoragePollRate(45_000));
    assert_eq!(c.statistics_sections.storage_poll_rate, 45_000);
    assert_eq!(c.statistics_sections.cpu_poll_rate, 1000);
    edit_settings(&mut c, SettingsEdit::ChargeEndThreshold(90));
    assert_eq!(c.battery_settings.charge_end_threshold, 90);
    assert_eq!(c.battery_settings.charge_start_threshold, 40);
    edit_settings(&mut c, SettingsEdit::FanDaemon(true));
    assert!(c.fan_daemon_enabled);
}

#[test]
fn start_threshold_is_kept_below_the_end() {
    let mut b = BatterySettings { control_enabled: true, charge_start_threshold: 85, charge_end_threshold: 80 };
    fix_start_threshold(&mut b, &vec![40, 50, 60, 70, 80, 90]);
    assert_eq!(b.charge_start_threshold, 70);
    assert_eq!(b.charge_end_threshold, 80);
    let mut ok = BatterySettings { control_enabled: true, charge_start_threshold: 50, charge_end_threshold: 80 };
    fix_start_threshold(&mut ok, &vec![40, 50]);
    assert_eq!(ok.charge_start_threshold, 50);
    let mut stuck = BatterySettings { control_enabled: true, charge_start_threshold: 60, charge_end_threshold: 40 };
    fix_start_threshold(&mut stuck, &vec![50, 60]);
    assert_eq!(stuck.charge_start_threshold, 60);
}

#[test]
fn shown_cpu_controls_fill_in_defaults() {
    let caps = CpuCapabilities {
        has_boost: true,
        has_cpuinfo_max_freq: true,
        has_cpuinfo_min_freq: true,
        has_scaling_driver: true,
        has_energy_performance_preference: true,
        has_scaling_governor: true,
        has_smt: false,
        has_scaling_min_freq: true,
        has_scaling_max_freq: true,
        has_available_governors: true,
        has_amd_pstate: true,
    };
    let mut s = Profile::default().cpu_settings;
    s.max_frequency = Some(3_000_000);
    fill_shown_cpu_settings(&mut s, &caps, true, false, 400_000, 4_800_000);
    assert_eq!(s.amd_pstate_status.as_deref(), Some("active"));
    assert_eq!(s.governor.as_deref(), Some("schedutil"));
    assert_eq!(s.energy_performance_preference, None);
    assert_eq!(s.min_frequency, Some(400_000));
    assert_eq!(s.max_frequency, Some(3_000_000));
    assert_eq!(s.boost, Some(true));
    assert_eq!(s.smt, None);
    s.governor = Some("powersave".to_string());
    fill_shown_cpu_settings(&mut s, &caps, true, true, 400_000, 4_800_000);
    assert_eq!(s.governor.as_deref(), Some("powersave"));
    assert_eq!(s.energy_performance_preference.as_deref(), Some("balance_performance"));
}

#[test]
fn statistics_sections_follow_their_switches() {
    let mut c = AppConfig::default();
    assert_eq!(
        visible_sections(&c.statistics_sections),
        vec![
            StatisticsSection::SystemInfo,
            StatisticsSection::Cpu,
            StatisticsSection::Gpu,
            StatisticsSection::Battery,
            StatisticsSection::Wifi,
            StatisticsSection::Storage,
            StatisticsSection::Fans,
        ]
    );
    c.statistics_sections.show_cpu = false;
    c.statistics_sections.show_storage = false;
    assert_eq!(
        visible_sections(&c.statistics_sections),
        vec![
            StatisticsSection::SystemInfo,
            StatisticsSection::Gpu,
            StatisticsSection::Battery,
            StatisticsSection::Wifi,
            StatisticsSection::Fans,
        ]
    );
}

#[test]
fn fan_speed_labels() {
    assert_eq!(fan_speed_label(2300, true), "2300 RPM");
    assert_eq!(fan_speed_label(45, false), "45%");
    assert_eq!(fan_speed_label(0, false), "0%");
}

#[test]
fn fan_curve_points_are_removed_down_to_two() {
    let mut c = config_with(&["Gaming"], "Gaming");
    c.profiles[0].fan_settings.curves = vec![FanCurve { fan_id: 1, points: vec![(40, 20), (70, 50), (95, 60)] }];
    remove_fan_curve_point(&mut c, "Gaming", 1, 1);
    assert_eq!(c.profiles[0].fan_settings.curves[0].points, vec![(40, 20), (95, 60)]);
    remove_fan_curve_point(&mut c, "Gaming", 1, 0);
    assert_eq!(c.profiles[0].fan_settings.curves[0].points, vec![(40, 20), (95, 60)]);
    remove_fan_curve_point(&mut c, "Gaming", 3, 0);
    assert_eq!(c.profiles[0].fan_settings.curves.len(), 1);
}

#[test]
fn theme_and_scheduler_lists() {
    assert_eq!(theme_index(Theme::Auto), 0);
    assert_eq!(theme_index(Theme::Light), 1);
    assert_eq!(theme_index(Theme::Dark), 2);
    assert_eq!(theme_for_index(2), Theme::Dark);
    assert_eq!(theme_for_index(1), Theme::Light);
    assert_eq!(theme_for_index(7), Theme::Auto);
    assert_eq!(scheduler_index("CFS"), 0);
    assert_eq!(scheduler_index("EEVDF"), 1);
    assert_eq!(scheduler_for_index(0), "CFS");
    assert_eq!(scheduler_for_index(1), "EEVDF");
}

#[test]
fn profiles_are_deleted_by_row_except_the_default() {
    let mut c = config_with(&["Standard", "Quiet", "Quiet"], "Quiet");
    c.profiles[1].is_default = false;
    c.profiles[2].is_default = false;
    assert_eq!(delete_profile_at(&mut c, 0), None);
    assert_eq!(delete_profile_at(&mut c, 2), Some("Quiet".to_string()));
    let names: Vec<&str> = c.profiles.iter().map(|p| p.name.as_str()).collect();
    assert_eq!(names, vec!["Standard", "Quiet"]);
    assert_eq!(delete_profile_at(&mut c, 5), None);
}

#[test]
fn fan_labels_with_temperatures() {
    assert_eq!(fan_label(2300, Some(61)), "2300 RPM - 61°C");
    assert_eq!(fan_label(200, Some(45)), "200% - 45°C");
    assert_eq!(fan_label(201, None), "201 RPM");
    assert_eq!(fan_label(35, None), "35%");
}
