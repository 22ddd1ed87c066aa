use tuxedo_control::hardware_detection::{
    get_system_info, gpu_name, gpu_status, gpu_type, parse_iw_channel, parse_iwconfig_channel, read_gpu_frequency,
    read_wifi_channel, read_wifi_signal,
};
use tuxedo_control::types::GpuType;
use tuxedo_control::hardware_detection::{
    block_device_path, cpu_frequency_from_files, is_listed_block_device, is_listed_mount, mount_sizes_gb,
    storage_model, storage_size_gb,
};
use tuxedo_control::errors::ControlError;
use tuxedo_control::hardware_detection::{
    battery_info_dir, calculate_median, capability_paths, detect_cpu_capabilities, get_amd_dgpu_count,
    get_battery_info, get_cpu_name, get_current_tdp_profile, get_fan_speeds, get_fan_temperatures,
    get_scheduler_info, get_tdp_info, get_tdp_profiles, is_amd_cpu, is_boost_enabled, is_smt_enabled,
    read_available_epp_options, read_available_governors, read_cpu_stats, read_frequency_limits, read_governor,
    read_hw_frequency_limits, read_scaling_driver, select_cpu_power_source, BatteryFiles, CpuStats,
};
use tuxedo_control::tuxedo_io::{HardwareInterface, IoError, TuxedoIo};
use tuxedo_control::hardware_detection::{read_amd_pstate_status, read_energy_performance_preference, reported_power_source};
use tuxedo_control::hardware_detection::{core_frequency, cpu_control_report, CpuControlFiles};
use tuxedo_control::types::CpuCapabilities;

#[test]
fn cpu_stats_sums() {
    let s = CpuStats { user: 1, nice: 2, system: 3, idle: 4, iowait: 5, irq: 6, softirq: 7 };
    assert_eq!(s.total(), 28);
    assert_eq!(s.work(), 19);
}

#[test]
fn proc_stat_lists_each_cpu() {
    let stat = "cpu  10 0 0 0 0 0 0 0\ncpu0 1 2 3 4 5 6 7 8\ncpu1 10 20 30 40 50 60 70\nintr 5\ncpu2 1 2 3\n";
    let m = read_cpu_stats(stat).unwrap();
    assert_eq!(m.len(), 2);
    assert_eq!(m[&0].idle, 4);
    assert_eq!(m[&1].softirq, 70);
    assert!(!m.contains_key(&2));
    assert_eq!(read_cpu_stats("cpu3 1 2 x 4 5 6 7").err(), Some(ControlError::InvalidNumber));
    let later = read_cpu_stats("cpu0 1 1 1 1 1 1 1\ncpu0 2 2 2 2 2 2 2\n").unwrap();
    assert_eq!(later[&0].user, 2);
}

#[test]
fn median_is_the_upper_middle() {
    assert_eq!(calculate_median(&vec![]), 0);
    assert_eq!(calculate_median(&vec![7]), 7);
    assert_eq!(calculate_median(&vec![3, 1, 2]), 2);
    assert_eq!(calculate_median(&vec![4, 1, 3, 2]), 3);
    assert_eq!(calculate_median(&vec![5, 5, 1, 9, 9]), 5);
}

#[test]
fn tdp_profiles_and_current_profile() {
    let cl = TuxedoIo::new(HardwareInterface::Clevo, 2);
    let uw = TuxedoIo::new(HardwareInterface::Uniwill, 2);
    assert!(get_tdp_profiles(None, Some(3)).is_empty());
    assert_eq!(get_tdp_profiles(Some(&cl), None), vec!["Power Saving", "Balanced", "Performance"]);
    assert!(get_tdp_profiles(Some(&uw), None).is_empty());
    assert_eq!(get_current_tdp_profile(Some(&uw), Some(2)), Ok("Power Saving".to_string()));
    assert_eq!(get_current_tdp_profile(Some(&uw), Some(1)), Err(ControlError::NoTdpProfiles));
    assert_eq!(get_current_tdp_profile(None, Some(2)), Err(ControlError::TdpProfilesUnavailable));
}

#[test]
fn fan_readings_stop_at_the_first_failure_and_keep_positive_values() {
    let uw = TuxedoIo::new(HardwareInterface::Uniwill, 2);
    assert_eq!(get_fan_speeds(Some(&uw), &vec![Some(30), Some(0)]), vec![(0, 30)]);
    assert_eq!(get_fan_speeds(Some(&uw), &vec![None, Some(40)]), vec![]);
    assert_eq!(get_fan_speeds(Some(&uw), &vec![Some(0), Some(40)]), vec![(1, 40)]);
    assert!(get_fan_speeds(None, &vec![]).is_empty());
    let cl = TuxedoIo::new(HardwareInterface::Clevo, 3);
    let t = get_fan_temperatures(Some(&cl), &vec![Some(45 << 16), Some(1 << 16), Some(50 << 16)]);
    assert_eq!(t, vec![(0, 45)]);
    let four = TuxedoIo::new(HardwareInterface::Uniwill, 4);
    assert_eq!(get_fan_temperatures(Some(&four), &vec![Some(41), Some(42), Some(43), Some(44)]), vec![(0, 41), (1, 42)]);
}

#[test]
fn tdp_info_needs_a_uniwill_device_and_three_reads() {
    let uw = TuxedoIo::new(HardwareInterface::Uniwill, 2);
    assert_eq!(get_tdp_info(Some(&uw), &vec![Some(25), Some(10), Some(45)]), Ok((25, 10, 45)));
    assert_eq!(get_tdp_info(Some(&uw), &vec![Some(25), None, Some(45)]), Err(ControlError::ReadFailed));
    let cl = TuxedoIo::new(HardwareInterface::Clevo, 2);
    assert_eq!(get_tdp_info(Some(&cl), &vec![Some(1), Some(1), Some(1)]), Err(ControlError::Device(IoError::TdpUnsupported)));
    assert_eq!(get_tdp_info(None, &vec![None, None, None]), Err(ControlError::TdpInfoUnavailable));
}

fn files() -> BatteryFiles {
    BatteryFiles {
        voltage_now: Some("12345678\n".to_string()),
        current_now: Some("-1500999\n".to_string()),
        capacity: Some("87\n".to_string()),
        charge_full: Some("4500000\n".to_string()),
        manufacturer: Some(" ACME\n".to_string()),
        model_name: Some("Cell 9\n".to_string()),
        charge_control_start_threshold: Some("40\n".to_string()),
        charge_control_end_threshold: None,
    }
}

#[test]
fn battery_info_converts_units() {
    let info = get_battery_info(true, false, &files()).unwrap();
    assert_eq!(info.voltage_mv, 12345);
    assert_eq!(info.current_ma, -1500);
    assert_eq!(info.charge_percent, 87);
    assert_eq!(info.capacity_mah, 4500);
    assert_eq!(info.manufacturer, "ACME");
    assert_eq!(info.model, "Cell 9");
    assert_eq!(info.charge_start_threshold, Some(40));
    assert_eq!(info.charge_end_threshold, None);
    assert_eq!(battery_info_dir(false, true), Ok("/sys/class/power_supply/BAT1".to_string()));
}

#[test]
fn battery_info_errors_come_in_file_order() {
    assert_eq!(get_battery_info(false, false, &files()).err(), Some(ControlError::NoBattery));
    let mut f = files();
    f.current_now = Some("abc".to_string());
    f.capacity = None;
    assert_eq!(get_battery_info(true, true, &f).err(), Some(ControlError::InvalidNumber));
    let mut f = files();
    f.model_name = None;
    assert_eq!(get_battery_info(true, true, &f).err(), Some(ControlError::ReadFailed));
    let mut f = files();
    f.charge_control_end_threshold = Some("300".to_string());
    assert_eq!(get_battery_info(true, false, &f).unwrap().charge_end_threshold, Some(44));
}

#[test]
fn capabilities_from_file_existence() {
    assert_eq!(capability_paths().len(), 13);
    let mut e = vec![false; 13];
    e[1] = true;
    e[5] = true;
    e[12] = true;
    let c = detect_cpu_capabilities(&e);
    assert!(c.has_boost && c.has_scaling_driver && c.has_amd_pstate);
    assert!(!c.has_smt && !c.has_cpuinfo_max_freq);
}

#[test]
fn cpuinfo_readers() {
    let info = "vendor_id\t: AuthenticAMD\nmodel name\t: AMD Ryzen 7 7840HS  \nvendor_id : GenuineIntel\n";
    assert!(is_amd_cpu(Some(info)));
    assert!(!is_amd_cpu(Some("vendor_id : GenuineIntel\nvendor_id : AuthenticAMD\n")));
    assert!(!is_amd_cpu(None));
    assert_eq!(get_cpu_name(info), Ok("AMD Ryzen 7 7840HS".to_string()));
    assert_eq!(get_cpu_name("model name\nmodel name: a:b\n"), Ok("a".to_string()));
    assert_eq!(get_cpu_name("flags : x\n"), Err(ControlError::CpuNameNotFound));
}

#[test]
fn scheduler_and_power_source() {
    let (s, all) = get_scheduler_info(Some("GENTLE_FAIR_SLEEPERS EEVDF_THING"));
    assert_eq!(s, "EEVDF");
    assert_eq!(all, vec!["CFS", "EEVDF"]);
    assert_eq!(get_scheduler_info(None).0, "CFS");
    let names: Vec<String> = vec!["RAPL".into(), "amdgpu".into(), "zenpower".into()];
    assert_eq!(select_cpu_power_source(&names, true, 0), Some(1));
    assert_eq!(select_cpu_power_source(&names, true, 1), Some(2));
    assert_eq!(select_cpu_power_source(&names, false, 0), Some(0));
    assert_eq!(select_cpu_power_source(&vec![], true, 0), None);
}

#[test]
fn amd_discrete_gpus_exclude_the_integrated_one() {
    let e = |n: &str, v: Option<&str>| (n.to_string(), v.map(|s| s.to_string()));
    let entries = vec![
        e("card0", Some("0x1002\n")),
        e("card1", Some("0x1002\n")),
        e("card1-eDP-1", Some("0x1002\n")),
        e("card2", Some("0x10de\n")),
        e("renderD128", Some("0x1002\n")),
    ];
    assert_eq!(get_amd_dgpu_count(&entries), 1);
    assert_eq!(get_amd_dgpu_count(&vec![e("card0", Some("0x1002"))]), 0);
}

#[test]
fn small_sysfs_readers() {
    assert_eq!(read_frequency_limits(Some("400000\n"), Some("x")), (Some(400000), None));
    assert_eq!(read_hw_frequency_limits(None, Some(" 4700000 ")), (400000, 4700000));
    assert!(is_boost_enabled(Some("1\n"), Some("1")));
    assert!(is_boost_enabled(None, Some("0\n")));
    assert!(!is_boost_enabled(None, None));
    assert!(is_smt_enabled(None));
    assert!(!is_smt_enabled(Some("off\n")));
    assert_eq!(read_governor(None), "not_available");
    assert_eq!(read_governor(Some("powersave\n")), "powersave");
    assert_eq!(read_scaling_driver(None), "unknown");
    assert_eq!(read_available_governors(Some("performance powersave\n")), vec!["performance", "powersave"]);
    assert!(read_available_governors(None).is_empty());
    assert_eq!(read_available_epp_options(None).len(), 4);
}

#[test]
fn system_and_gpu_identity() {
    let s = get_system_info(Some("InfinityBook Pro\n"), None, Some(" 1.07 "));
    assert_eq!(s.product_name, "InfinityBook Pro");
    assert_eq!(s.manufacturer, "Unknown");
    assert_eq!(s.bios_version, "1.07");
    assert_eq!(gpu_name(1, "0x10de\n"), "NVIDIA GPU 1");
    assert_eq!(gpu_name(0, "0x1002"), "AMD GPU 0");
    assert_eq!(gpu_name(12, "0x1234"), "GPU 12");
    assert_eq!(gpu_type(0), GpuType::Integrated);
    assert_eq!(gpu_type(2), GpuType::Discrete);
    assert_eq!(gpu_status(None), "unknown");
    assert_eq!(gpu_status(Some("active\n")), "active");
}

#[test]
fn gpu_frequency_from_the_current_clock_level() {
    let sclk = "0: 500Mhz\n1: 1200Mhz *\n2: 2400Mhz\n";
    assert_eq!(read_gpu_frequency(Some(sclk), Some("300")), Some(1200));
    assert_eq!(read_gpu_frequency(Some("0: 500Mhz\n"), Some(" 300\n")), Some(300));
    assert_eq!(read_gpu_frequency(Some("1: fastMhz *\n"), None), None);
    assert_eq!(read_gpu_frequency(None, None), None);
}

#[test]
fn wifi_signal_and_channel_parsers() {
    let wireless = "Inter-| sta-|   Quality        |\n face | tus | link level noise |\nwlp2s0: 0000   54.  -56.  -256        0      0      0\n";
    assert_eq!(read_wifi_signal(Some(wireless), "wlp2s0"), Some(-56));
    assert_eq!(read_wifi_signal(Some(wireless), "wlan1"), None);
    assert_eq!(read_wifi_signal(None, "wlp2s0"), None);
    let iw = "Interface wlp2s0\n\tifindex 3\n\tchannel 36 (5180 MHz), width: 80 MHz, center1: 5210 MHz\n";
    assert_eq!(parse_iw_channel(iw), (Some(36), Some(80)));
    assert_eq!(parse_iw_channel("\tchannel x, width: 20,\n"), (None, Some(20)));
    assert_eq!(parse_iw_channel("no info\n"), (None, None));
    let iwc = "wlan0  IEEE 802.11  ESSID:\"home\"\n  Mode:Managed  Frequency:2.437 GHz  Channel=6\n";
    assert_eq!(parse_iwconfig_channel(iwc), Some(6));
    assert_eq!(read_wifi_channel(None, Some(iwc)), (Some(6), None));
    assert_eq!(read_wifi_channel(Some(iw), Some(iwc)), (Some(36), Some(80)));
    assert_eq!(read_wifi_channel(None, None), (None, None));
}

#[test]
fn storage_and_mount_reports() {
    assert!(is_listed_block_device("nvme0n1"));
    assert!(!is_listed_block_device("loop3"));
    assert!(!is_listed_block_device("ram0"));
    assert_eq!(storage_model(None, " sda "), "sda");
    assert_eq!(storage_model(Some("Samsung SSD 980\n"), "nvme0n1"), "Samsung SSD 980");
    assert_eq!(storage_size_gb(Some("1953525168\n")), 1000);
    assert_eq!(storage_size_gb(Some("big")), 0);
    assert_eq!(storage_size_gb(None), 0);
    assert_eq!(block_device_path("nvme0n1"), "/dev/nvme0n1");
    assert!(is_listed_mount("/") && is_listed_mount("/home"));
    assert!(!is_listed_mount("/boot"));
    assert_eq!(mount_sizes_gb(500_000_000_000, 200_000_000_000), (500, 300));
    assert_eq!(cpu_frequency_from_files(Some("x"), Some(" 2400000\n")), Some(2400000));
    assert_eq!(cpu_frequency_from_files(Some("1800000"), Some("2400000")), Some(1800000));
    assert_eq!(cpu_frequency_from_files(None, None), None);
}

#[test]
fn pstate_and_preference_files_are_trimmed() {
    assert_eq!(read_amd_pstate_status(Some(" active\n")), Ok("active".to_string()));
    assert_eq!(read_amd_pstate_status(None), Err(ControlError::ReadFailed));
    assert_eq!(read_energy_performance_preference(Some("balance_power\n")), Some("balance_power".to_string()));
    assert_eq!(read_energy_performance_preference(None), None);
}

#[test]
fn reported_power_source_prefers_amdgpu_then_rapl() {
    let names = |v: &[&str]| v.iter().map(|s| s.to_string()).collect::<Vec<String>>();
    assert_eq!(reported_power_source(&names(&["RAPL", "zenpower", "amdgpu"])), Some(2));
    assert_eq!(reported_power_source(&names(&["zenpower", "RAPL"])), Some(1));
    assert_eq!(reported_power_source(&names(&["zenpower"])), None);
}

fn caps_all(v: bool) -> CpuCapabilities {
    CpuCapabilities {
        has_boost: v,
        has_cpuinfo_max_freq: v,
        has_cpuinfo_min_freq: v,
        has_scaling_driver: v,
        has_energy_performance_preference: v,
        has_scaling_governor: v,
        has_smt: v,
        has_scaling_min_freq: v,
        has_scaling_max_freq: v,
        has_available_governors: v,
        has_amd_pstate: v,
    }
}

fn some(s: &str) -> Option<String> {
    Some(s.to_string())
}

#[test]
fn cpu_controls_are_read_where_offered() {
    let files = CpuControlFiles {
        scaling_governor: some("powersave\n"),
        scaling_available_governors: some("performance powersave\n"),
        boost: None,
        no_turbo: some("0\n"),
        smt_control: some("off\n"),
        scaling_driver: None,
        amd_pstate_status: some("active\n"),
        scaling_min_freq: some("400000\n"),
        scaling_max_freq: some("x"),
        cpuinfo_min_freq: None,
        cpuinfo_max_freq: some("4800000\n"),
        energy_performance_preference: some("balance_power\n"),
        energy_performance_available_preferences: None,
    };
    let r = cpu_control_report(&caps_all(true), &files);
    assert_eq!(r.governor, "powersave");
    assert_eq!(r.available_governors, vec!["performance".to_string(), "powersave".to_string()]);
    assert!(r.boost_enabled);
    assert!(!r.smt_enabled);
    assert_eq!(r.scaling_driver, "unknown");
    assert_eq!(r.amd_pstate_status.as_deref(), Some("active"));
    assert_eq!((r.min_freq, r.max_freq), (Some(400000), None));
    assert_eq!((r.hw_min_freq, r.hw_max_freq), (400000, 4800000));
    assert_eq!(r.energy_performance_preference.as_deref(), Some("balance_power"));
    assert_eq!(r.available_epp_options.len(), 4);
    let none = cpu_control_report(&caps_all(false), &files);
    assert_eq!(none.governor, "not_available");
    assert_eq!(none.scaling_driver, "not_available");
    assert!(none.available_governors.is_empty());
    assert!(!none.boost_enabled);
    assert!(none.smt_enabled);
    assert_eq!(none.amd_pstate_status, None);
    assert_eq!((none.min_freq, none.max_freq), (None, None));
    assert_eq!((none.hw_min_freq, none.hw_max_freq), (400000, 5000000));
    assert_eq!(none.energy_performance_preference, None);
    assert!(none.available_epp_options.is_empty());
}

#[test]
fn core_frequency_falls_back_in_order() {
    assert_eq!(core_frequency(Some(1), Some(2)), 1);
    assert_eq!(core_frequency(None, Some(2)), 2);
    assert_eq!(core_frequency(None, None), 2000000);
}
