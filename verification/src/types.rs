use vstd::prelude::*;

verus! {

/// Identification of the machine, from the DMI tables.
#[derive(Debug, Clone)]
pub struct SystemInfo {
    pub product_name: String,
    pub manufacturer: String,
    pub bios_version: String,
}

/// Which CPU frequency and power controls the kernel exposes.
#[derive(Debug, Clone, Copy)]
pub struct CpuCapabilities {
    pub has_boost: bool,
    pub has_cpuinfo_max_freq: bool,
    pub has_cpuinfo_min_freq: bool,
    pub has_scaling_driver: bool,
    pub has_energy_performance_preference: bool,
    pub has_scaling_governor: bool,
    pub has_smt: bool,
    pub has_scaling_min_freq: bool,
    pub has_scaling_max_freq: bool,
    pub has_available_governors: bool,
    pub has_amd_pstate: bool,
}

/// Whether a GPU is built into the processor or a card of its own.
#[derive(Debug, Clone, Copy, PartialEq, Eq, Structural)]
pub enum GpuType {
    Integrated,
    Discrete,
}

/// A reading of the battery.
#[derive(Debug, Clone)]
pub struct BatteryInfo {
    pub voltage_mv: u64,
    pub current_ma: i64,
    pub charge_percent: u64,
    pub capacity_mah: u64,
    pub manufacturer: String,
    pub model: String,
    pub charge_start_threshold: Option<u8>,
    pub charge_end_threshold: Option<u8>,
}

/// A named set of hardware settings.
#[derive(Debug, Clone)]
pub struct Profile {
    pub name: String,
    pub is_default: bool,
    pub cpu_settings: CpuSettings,
    pub gpu_settings: GpuSettings,
    pub keyboard_settings: KeyboardSettings,
    pub screen_settings: ScreenSettings,
    pub fan_settings: FanSettings,
    pub auto_switch: AutoSwitchSettings,
}

/// CPU settings of a profile; `None` leaves a setting as it is.
#[derive(Debug, Clone)]
pub struct CpuSettings {
    pub governor: Option<String>,
    pub min_frequency: Option<u64>,
    pub max_frequency: Option<u64>,
    pub boost: Option<bool>,
    pub smt: Option<bool>,
    pub performance_profile: Option<String>,
    pub tdp_profile: Option<String>,
    pub energy_performance_preference: Option<String>,
    pub tdp: Option<u32>,
    pub amd_pstate_status: Option<String>,
}

/// GPU settings of a profile.
#[derive(Debug, Clone, Copy)]
pub struct GpuSettings {
    pub dgpu_tdp: Option<u32>,
}

/// Keyboard backlight settings of a profile.
#[derive(Debug, Clone, Copy)]
pub struct KeyboardSettings {
    pub control_enabled: bool,
    pub mode: KeyboardMode,
}

/// A keyboard backlight effect.
#[derive(Debug, Clone, Copy)]
pub enum KeyboardMode {
    SingleColor { r: u8, g: u8, b: u8, brightness: u8 },
    Breathe { r: u8, g: u8, b: u8, brightness: u8, speed: u8 },
    Cycle { brightness: u8, speed: u8 },
    Dance { brightness: u8, speed: u8 },
    Flash { r: u8, g: u8, b: u8, brightness: u8, speed: u8 },
    RandomColor { brightness: u8, speed: u8 },
    Tempo { brightness: u8, speed: u8 },
    Wave { brightness: u8, speed: u8 },
}

/// Screen settings of a profile.
#[derive(Debug, Clone, Copy)]
pub struct ScreenSettings {
    pub brightness: u8,
    pub system_control: bool,
}

/// Fan settings of a profile.
#[derive(Debug, Clone)]
pub struct FanSettings {
    pub control_enabled: bool,
    pub curves: Vec<FanCurve>,
}

/// Battery charge control settings.
#[derive(Debug, Clone, Copy)]
pub struct BatterySettings {
    pub control_enabled: bool,
    pub charge_start_threshold: u8,
    pub charge_end_threshold: u8,
}

/// A fan curve: `(temperature in °C, speed in %)` points for one fan.
#[derive(Debug, Clone)]
pub struct FanCurve {
    pub fan_id: u32,
    pub points: Vec<(u8, u8)>,
}

/// Applications whose start switches to a profile.
#[derive(Debug, Clone)]
pub struct AutoSwitchSettings {
    pub enabled: bool,
    pub app_names: Vec<String>,
}

/// The whole configuration of the control center.
#[derive(Debug, Clone)]
pub struct AppConfig {
    pub theme: Theme,
    pub start_minimized: bool,
    pub autostart: bool,
    pub fan_daemon_enabled: bool,
    pub app_monitoring_enabled: bool,
    pub cpu_scheduler: String,
    pub font_size: FontSize,
    pub statistics_sections: StatisticsSections,
    pub tuning_section_order: Vec<String>,
    pub profiles: Vec<Profile>,
    pub current_profile: String,
    pub battery_settings: BatterySettings,
}

/// Size of the interface's text.
#[derive(Debug, Clone, Copy, PartialEq, Eq, Structural)]
pub enum FontSize {
    Small,
    Medium,
    Large,
}

/// Colour scheme of the interface.
#[derive(Debug, Clone, Copy, PartialEq, Eq, Structural)]
pub enum Theme {
    Auto,
    Light,
    Dark,
}

/// Which statistics are shown, in which order, and how often they are polled (in ms).
#[derive(Debug, Clone)]
pub struct StatisticsSections {
    pub show_system_info: bool,
    pub show_cpu: bool,
    pub show_gpu: bool,
    pub show_battery: bool,
    pub show_wifi: bool,
    pub show_storage: bool,
    pub show_fans: bool,
    pub section_order: Vec<String>,
    pub cpu_poll_rate: u64,
    pub gpu_poll_rate: u64,
    pub battery_poll_rate: u64,
    pub wifi_poll_rate: u64,
    pub storage_poll_rate: u64,
    pub fans_poll_rate: u64,
}

/// The views of a list of strings.
pub open spec fn string_views(v: Seq<String>) -> Seq<Seq<char>> {
    v.map_values(|s: String| s@)
}

/// The default keyboard mode: white at half brightness.
pub open spec fn default_keyboard_mode() -> KeyboardMode {
    KeyboardMode::SingleColor { r: 255, g: 255, b: 255, brightness: 50 }
}

/// The settings of the default profile, but for its name and its lists.
pub open spec fn is_default_profile(p: Profile) -> bool {
    &&& p.name@ == "Standard"@
    &&& p.is_default
    &&& is_default_cpu_settings(p.cpu_settings)
    &&& p.gpu_settings.dgpu_tdp is None
    &&& !p.keyboard_settings.control_enabled
    &&& p.keyboard_settings.mode == default_keyboard_mode()
    &&& p.screen_settings.brightness == 50
    &&& p.screen_settings.system_control
    &&& !p.fan_settings.control_enabled
    &&& p.fan_settings.curves@.len() == 0
    &&& !p.auto_switch.enabled
    &&& p.auto_switch.app_names@.len() == 0
}

/// CPU settings that change nothing.
pub open spec fn is_default_cpu_settings(c: CpuSettings) -> bool {
    &&& c.governor is None
    &&& c.min_frequency is None
    &&& c.max_frequency is None
    &&& c.boost is None
    &&& c.smt is None
    &&& c.performance_profile is None
    &&& c.tdp_profile is None
    &&& c.energy_performance_preference is None
    &&& c.tdp is None
    &&& c.amd_pstate_status is None
}

impl Default for CpuSettings {
    fn default() -> (r: Self)
        ensures
            is_default_cpu_settings(r),
    {
        CpuSettings {
            governor: None,
            min_frequency: None,
            max_frequency: None,
            boost: None,
            smt: None,
            performance_profile: None,
            tdp_profile: None,
            energy_performance_preference: None,
            tdp: None,
            amd_pstate_status: None,
        }
    }
}

impl Default for GpuSettings {
    fn default() -> (r: Self)
        ensures
            r.dgpu_tdp is None,
    {
        GpuSettings { dgpu_tdp: None }
    }
}

impl Default for KeyboardSettings {
    fn default() -> (r: Self)
        ensures
            !r.control_enabled,
            r.mode == default_keyboard_mode(),
    {
        KeyboardSettings {
            control_enabled: false,
            mode: KeyboardMode::SingleColor { r: 255, g: 255, b: 255, brightness: 50 },
        }
    }
}

impl Default for ScreenSettings {
    fn default() -> (r: Self)
        ensures
            r.brightness == 50,
            r.system_control,
    {
        ScreenSettings { brightness: 50, system_control: true }
    }
}

impl Default for FanSettings {
    fn default() -> (r: Self)
        ensures
            !r.control_enabled,
            r.curves@.len() == 0,
    {
        FanSettings { control_enabled: false, curves: Vec::new() }
    }
}

impl Default for AutoSwitchSettings {
    fn default() -> (r: Self)
        ensures
            !r.enabled,
            r.app_names@.len() == 0,
    {
        AutoSwitchSettings { enabled: false, app_names: Vec::new() }
    }
}

impl Default for BatterySettings {
    fn default() -> (r: Self)
        ensures
            !r.control_enabled,
            r.charge_start_threshold == 40,
            r.charge_end_threshold == 80,
    {
        BatterySettings { control_enabled: false, charge_start_threshold: 40, charge_end_threshold: 80 }
    }
}

impl Default for Profile {
    fn default() -> (r: Self)
        ensures
            is_default_profile(r),
    {
        Profile {
            name: String::from_str("Standard"),
            is_default: true,
            cpu_settings: CpuSettings::default(),
            gpu_settings: GpuSettings::default(),
            keyboard_settings: KeyboardSettings::default(),
            screen_settings: ScreenSettings::default(),
            fan_settings: FanSettings::default(),
            auto_switch: AutoSwitchSettings::default(),
        }
    }
}

/// The default statistics: every section shown, in the order system, CPU, GPU, battery,
/// Wi-Fi, storage, fans; CPU and fans polled every second, the GPU every 2 s, battery and
/// Wi-Fi every 5 s, storage every 30 s.
pub open spec fn is_default_sections(r: StatisticsSections) -> bool {
    &&& r.show_system_info && r.show_cpu && r.show_gpu && r.show_battery
    &&& r.show_wifi && r.show_storage && r.show_fans
    &&& string_views(r.section_order@) == seq![
        "SystemInfo"@,
        "CPU"@,
        "GPU"@,
        "Battery"@,
        "WiFi"@,
        "Storage"@,
        "Fans"@,
    ]
    &&& r.cpu_poll_rate == 1000
    &&& r.gpu_poll_rate == 2000
    &&& r.battery_poll_rate == 5000
    &&& r.wifi_poll_rate == 5000
    &&& r.storage_poll_rate == 30000
    &&& r.fans_poll_rate == 1000
}

impl Default for StatisticsSections {
    fn default() -> (r: Self)
        ensures
            is_default_sections(r),
    {
        let section_order = vec![
            String::from_str("SystemInfo"),
            String::from_str("CPU"),
            String::from_str("GPU"),
            String::from_str("Battery"),
            String::from_str("WiFi"),
            String::from_str("Storage"),
            String::from_str("Fans"),
        ];
        assert(string_views(section_order@) =~= seq![
            "SystemInfo"@,
            "CPU"@,
            "GPU"@,
            "Battery"@,
            "WiFi"@,
            "Storage"@,
            "Fans"@,
        ]);
        StatisticsSections {
            show_system_info: true,
            show_cpu: true,
            show_gpu: true,
            show_battery: true,
            show_wifi: true,
            show_storage: true,
            show_fans: true,
            section_order,
            cpu_poll_rate: 1000,
            gpu_poll_rate: 2000,
            battery_poll_rate: 5000,
            wifi_poll_rate: 5000,
            storage_poll_rate: 30000,
            fans_poll_rate: 1000,
        }
    }
}

impl Default for AppConfig {
    fn default() -> (r: Self)
        ensures
            r.theme == Theme::Auto,
            !r.start_minimized,
            !r.autostart,
            r.fan_daemon_enabled,
            r.app_monitoring_enabled,
            r.cpu_scheduler@ == "CFS"@,
            r.font_size == FontSize::Medium,
            string_views(r.tuning_section_order@) == seq![
                "Keyboard"@,
                "CPU"@,
                "GPU"@,
                "Screen"@,
                "Fans"@,
            ],
            r.profiles@.len() == 1,
            is_default_profile(r.profiles@[0]),
            r.current_profile@ == "Standard"@,
            !r.battery_settings.control_enabled,
            r.battery_settings.charge_start_threshold == 40,
            r.battery_settings.charge_end_threshold == 80,
            is_default_sections(r.statistics_sections),
    {
        let tuning_section_order = vec![
            String::from_str("Keyboard"),
            String::from_str("CPU"),
            String::from_str("GPU"),
            String::from_str("Screen"),
            String::from_str("Fans"),
        ];
        assert(string_views(tuning_section_order@) =~= seq![
            "Keyboard"@,
            "CPU"@,
            "GPU"@,
            "Screen"@,
            "Fans"@,
        ]);
        AppConfig {
            theme: Theme::Auto,
            start_minimized: false,
            autostart: false,
            fan_daemon_enabled: true,
            app_monitoring_enabled: true,
            cpu_scheduler: String::from_str("CFS"),
            font_size: FontSize::Medium,
            statistics_sections: StatisticsSections::default(),
            tuning_section_order,
            profiles: vec![Profile::default()],
            current_profile: String::from_str("Standard"),
            battery_settings: BatterySettings::default(),
        }
    }
}

} // verus!
