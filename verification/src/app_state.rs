use vstd::prelude::*;
use crate::types::{
    AppConfig, AutoSwitchSettings, CpuSettings, FanCurve, FanSettings, GpuSettings, KeyboardMode,
    KeyboardSettings, Profile, ScreenSettings, string_views, is_default_profile, BatterySettings, FontSize,
    StatisticsSections, Theme, CpuCapabilities,
};
use crate::hardware_control::{first_position, position_of, copy_fan_settings};
use crate::text::{decimal, decimal_string};

verus! {

/// The pages of the main window.
#[derive(Debug, Clone, Copy, PartialEq, Eq, Structural)]
pub enum Page {
    Statistics,
    Profiles,
    Tuning,
    Settings,
}

/// A message shown in the status bar, with the time it was shown (in ms on the caller's
/// monotonic clock).
#[derive(Debug, Clone)]
pub struct StatusMessage {
    pub text: String,
    pub is_error: bool,
    pub shown_at: u64,
}

impl StatusMessage {
    /// The message `text`, an error or not, shown at `now`.
    pub fn new(text: String, is_error: bool, now: u64) -> (r: Self)
        ensures
            r.text@ == text@,
            r.is_error == is_error,
            r.shown_at == now,
    {
        StatusMessage { text, is_error, shown_at: now }
    }

    /// Whether the message is still shown at `now` (ms on the same clock): for less than
    /// 5 seconds after it was shown, the time elapsed counting as 0 when `now` is earlier.
    pub fn is_visible(&self, now: u64) -> (r: bool)
        ensures
            r == (now <= self.shown_at || now - self.shown_at < 5000),
    {
        now <= self.shown_at || now - self.shown_at < 5000
    }
}

/// Keyboard shortcuts of the main window and whether their help is shown.
pub struct KeyboardShortcuts {
    show_help: bool,
}

impl KeyboardShortcuts {
    /// Whether the help window is shown.
    pub closed spec fn help_shown(&self) -> bool {
        self.show_help
    }

    /// Shortcuts with the help hidden.
    pub fn new() -> (r: Self)
        ensures
            !r.help_shown(),
    {
        KeyboardShortcuts { show_help: false }
    }

    /// Whether the help window is shown.
    pub fn show_help(&self) -> (r: bool)
        ensures
            r == self.help_shown(),
    {
        self.show_help
    }

    /// Handles the keys of one frame: Ctrl+S (`command` held and `s` pressed) asks for the
    /// configuration to be saved, Ctrl+1 (`num1`) shows the statistics page, F1 shows or
    /// hides the help. Ctrl+S leaves the page as it is.
    pub fn handle_shortcuts(&mut self, command: bool, s: bool, num1: bool, f1: bool, page: &mut Page) -> (r:
        ShortcutOutcome)
        ensures
            r.save == (command && s),
            r.handled == ((command && s) || (command && num1) || f1),
            command && num1 ==> *final(page) == Page::Statistics,
            !(command && num1) ==> *final(page) == *old(page),
            final(self).help_shown() == (old(self).help_shown() != f1),
    {
        let mut handled = false;
        let mut save = false;
        if command && s {
            save = true;
            handled = true;
        }
        if command && num1 {
            *page = Page::Statistics;
            handled = true;
        }
        if f1 {
            self.show_help = !self.show_help;
            handled = true;
        }
        ShortcutOutcome { handled, save }
    }
}

/// What the keys of one frame asked for.
#[derive(Debug, Clone, Copy, PartialEq, Eq, Structural)]
pub struct ShortcutOutcome {
    /// A shortcut was handled.
    pub handled: bool,
    /// The configuration is to be saved.
    pub save: bool,
}

/// What the tray icon asks of the window.
#[derive(Debug, Clone, Copy, PartialEq, Eq, Structural)]
pub enum TrayEvent {
    ShowWindow,
    HideWindow,
    SwitchProfile(usize),
    ShowStatistics,
    Quit,
}

/// The tray event of one poll: showing the window when the icon was clicked with the left
/// button, released; else switching to the profile whose menu item (by id, in menu order)
/// was chosen; else nothing.
pub fn tray_event(left_click_released: bool, menu_event_id: Option<&str>, profile_item_ids: &Vec<String>) -> (r:
    Option<TrayEvent>)
    ensures
        left_click_released ==> r == Some(TrayEvent::ShowWindow),
        !left_click_released ==> r == match menu_event_id {
            Some(id) => match first_position(string_views(profile_item_ids@), id@) {
                Some(i) => Some(TrayEvent::SwitchProfile(i as usize)),
                None => None,
            },
            None => None,
        },
{
    if left_click_released {
        return Some(TrayEvent::ShowWindow);
    }
    match menu_event_id {
        Some(id) => match position_of(profile_item_ids, id) {
            Some(i) => Some(TrayEvent::SwitchProfile(i)),
            None => None,
        },
        None => None,
    }
}

/// The settings a profile is reset to: for the Standard profile, schedutil with boost,
/// SMT, balance_performance and active AMD P-state, the keyboard and fans left alone and
/// the screen left to the system; for any other, the default profile.
pub open spec fn is_reset_profile(p: Profile, is_standard: bool) -> bool {
    if is_standard {
        &&& p.name@ == "Standard"@
        &&& p.is_default
        &&& p.cpu_settings.governor matches Some(g) && g@ == "schedutil"@
        &&& p.cpu_settings.min_frequency is None
        &&& p.cpu_settings.max_frequency is None
        &&& p.cpu_settings.boost == Some(true)
        &&& p.cpu_settings.smt == Some(true)
        &&& p.cpu_settings.performance_profile is None
        &&& p.cpu_settings.tdp_profile is None
        &&& p.cpu_settings.energy_performance_preference matches Some(e) && e@ == "balance_performance"@
        &&& p.cpu_settings.tdp is None
        &&& p.cpu_settings.amd_pstate_status matches Some(s) && s@ == "active"@
        &&& p.gpu_settings.dgpu_tdp is None
        &&& !p.keyboard_settings.control_enabled
        &&& p.keyboard_settings.mode == crate::types::default_keyboard_mode()
        &&& p.screen_settings.brightness == 50
        &&& p.screen_settings.system_control
        &&& !p.fan_settings.control_enabled
        &&& p.fan_settings.curves@.len() == 0
        &&& !p.auto_switch.enabled
        &&& p.auto_switch.app_names@.len() == 0
    } else {
        is_default_profile(p)
    }
}

/// The profile that "Reset to Default" puts in place (see `is_reset_profile`).
pub fn create_default_profile_for_reset(is_standard: bool) -> (r: Profile)
    ensures
        is_reset_profile(r, is_standard),
{
    if is_standard {
        Profile {
            name: String::from_str("Standard"),
            is_default: true,
            cpu_settings: CpuSettings {
                governor: Some(String::from_str("schedutil")),
                min_frequency: None,
                max_frequency: None,
                boost: Some(true),
                smt: Some(true),
                performance_profile: None,
                tdp_profile: None,
                energy_performance_preference: Some(String::from_str("balance_performance")),
                tdp: None,
                amd_pstate_status: Some(String::from_str("active")),
            },
            gpu_settings: GpuSettings { dgpu_tdp: None },
            keyboard_settings: KeyboardSettings {
                control_enabled: false,
                mode: KeyboardMode::SingleColor { r: 255, g: 255, b: 255, brightness: 50 },
            },
            screen_settings: ScreenSettings { brightness: 50, system_control: true },
            fan_settings: FanSettings { control_enabled: false, curves: Vec::new() },
            auto_switch: AutoSwitchSettings { enabled: false, app_names: Vec::new() },
        }
    } else {
        Profile::default()
    }
}

/// The names of the profiles.
pub open spec fn profile_names(profiles: Seq<Profile>) -> Seq<Seq<char>> {
    profiles.map_values(|p: Profile| p.name@)
}

/// The position of the current profile: the first profile named as the configuration's
/// current profile.
pub fn current_profile_index(config: &AppConfig) -> (r: Option<usize>)
    ensures
        r == match first_position(profile_names(config.profiles@), config.current_profile@) {
            Some(i) => Some(i as usize),
            None => None::<usize>,
        },
        r matches Some(i) ==> i < config.profiles@.len(),
{
    let ghost names = profile_names(config.profiles@);
    for i in 0..config.profiles.len()
        invariant
            names == profile_names(config.profiles@),
            forall|j: int| 0 <= j < i ==> names[j] != config.current_profile@,
    {
        if config.profiles[i].name == config.current_profile {
            proof {
                assert(names[i as int] == config.current_profile@);
                let k = choose|k: int|
                    0 <= k < names.len() && names[k] == config.current_profile@ && forall|j: int|
                        0 <= j < k ==> names[j] != config.current_profile@;
                assert(0 <= i < names.len() && names[i as int] == config.current_profile@ && forall|j: int|
                    0 <= j < i ==> names[j] != config.current_profile@);
                if k < i {
                    assert(names[k] != config.current_profile@);
                }
                if k > i {
                    assert(names[i as int] != config.current_profile@);
                }
            }
            return Some(i);
        }
    }
    proof {
        assert(!(exists|i: int| 0 <= i < names.len() && names[i] == config.current_profile@));
    }
    None
}

/// A profile name as configurations are loaded: "Default" becomes "Standard".
pub open spec fn renamed(name: Seq<char>) -> Seq<char> {
    if name == "Default"@ {
        "Standard"@
    } else {
        name
    }
}

/// `b` is `a` but perhaps for its name.
pub open spec fn same_but_name(a: Profile, b: Profile) -> bool {
    &&& a.is_default == b.is_default
    &&& a.cpu_settings == b.cpu_settings
    &&& a.gpu_settings == b.gpu_settings
    &&& a.keyboard_settings == b.keyboard_settings
    &&& a.screen_settings == b.screen_settings
    &&& a.fan_settings == b.fan_settings
    &&& a.auto_switch == b.auto_switch
}

/// `b` is `a` but perhaps for its profiles and current profile.
pub open spec fn same_but_profiles(a: AppConfig, b: AppConfig) -> bool {
    &&& a.theme == b.theme
    &&& a.start_minimized == b.start_minimized
    &&& a.autostart == b.autostart
    &&& a.fan_daemon_enabled == b.fan_daemon_enabled
    &&& a.app_monitoring_enabled == b.app_monitoring_enabled
    &&& a.cpu_scheduler == b.cpu_scheduler
    &&& a.font_size == b.font_size
    &&& a.statistics_sections == b.statistics_sections
    &&& a.tuning_section_order == b.tuning_section_order
    &&& a.battery_settings == b.battery_settings
}

fn rename_default(name: &String) -> (r: Option<String>)
    ensures
        name@ == "Default"@ ==> (r matches Some(s) && s@ == "Standard"@),
        name@ != "Default"@ ==> r is None,
{
    let d = String::from_str("Default");
    if *name == d {
        Some(String::from_str("Standard"))
    } else {
        None
    }
}

/// Renames, as a loaded configuration is, the profiles named "Default" and a current
/// profile of that name to "Standard"; nothing else changes.
pub fn normalize_profile_names(config: &mut AppConfig)
    ensures
        final(config).profiles@.len() == old(config).profiles@.len(),
        forall|i: int|
            0 <= i < old(config).profiles@.len() ==> (#[trigger] final(config).profiles@[i]).name@ == renamed(
                old(config).profiles@[i].name@,
            ) && same_but_name(old(config).profiles@[i], final(config).profiles@[i]),
        final(config).current_profile@ == renamed(old(config).current_profile@),
        same_but_profiles(*old(config), *final(config)),
{
    let n = config.profiles.len();
    let ghost start = *config;
    for i in 0..n
        invariant
            n == config.profiles@.len(),
            n == start.profiles@.len(),
            same_but_profiles(start, *config),
            config.current_profile == start.current_profile,
            forall|j: int|
                0 <= j < i ==> (#[trigger] config.profiles@[j]).name@ == renamed(start.profiles@[j].name@)
                    && same_but_name(start.profiles@[j], config.profiles@[j]),
            forall|j: int| i <= j < n ==> #[trigger] config.profiles@[j] == start.profiles@[j],
    {
        match rename_default(&config.profiles[i].name) {
            Some(new_name) => {
                let mut p = config.profiles.remove(i);
                p.name = new_name;
                config.profiles.insert(i, p);
            },
            None => {},
        }
    }
    match rename_default(&config.current_profile) {
        Some(new_name) => {
            config.current_profile = new_name;
        },
        None => {},
    }
}

/// After renaming, no profile and no current profile is named "Default", other names are
/// kept, and renaming again changes nothing.
pub proof fn lemma_no_default_after_renaming(name: Seq<char>)
    ensures
        renamed(name) != "Default"@,
        name != "Default"@ ==> renamed(name) == name,
        renamed(renamed(name)) == renamed(name),
{
    reveal_strlit("Default");
    reveal_strlit("Standard");
    if name == "Default"@ {
        assert("Standard"@[1] != "Default"@[1]);
    }
}

/// Where a path relative to `base` is, as `Path::join` gives it.
pub open spec fn join_path(base: Seq<char>, rel: Seq<char>) -> Seq<char> {
    if base.len() == 0 {
        rel
    } else if base.last() == '/' {
        base + rel
    } else {
        base + "/"@ + rel
    }
}

fn join(base: &str, rel: &str) -> (r: String)
    ensures
        r@ == join_path(base@, rel@),
{
    let v = crate::text::chars_of(base);
    if v.len() == 0 {
        return String::from_str(rel);
    }
    let mut r = String::from_str(base);
    if v[v.len() - 1] != '/' {
        r.append("/");
    }
    r.append(rel);
    r
}

/// The configuration directory under the home directory `home` (the `HOME` variable,
/// `None` when it is not set).
pub open spec fn config_dir_of(home: Option<Seq<char>>) -> Option<Seq<char>> {
    match home {
        Some(h) => Some(join_path(h, ".config/tuxedo-control-center"@)),
        None => None,
    }
}

/// The view of an optional string slice.
pub open spec fn opt_str(o: Option<&str>) -> Option<Seq<char>> {
    match o {
        Some(c) => Some(c@),
        None => None,
    }
}

/// The configuration of the control center and the file it is kept in.
pub struct Config {
    pub data: AppConfig,
    config_path: String,
}

impl Config {
    /// The file the configuration is kept in.
    pub closed spec fn path(&self) -> Seq<char> {
        self.config_path@
    }

    /// The configuration itself.
    pub closed spec fn contents(&self) -> AppConfig {
        self.data
    }

    /// The configuration `data`, kept in `config_path`.
    pub fn new(data: AppConfig, config_path: String) -> (r: Self)
        ensures
            r.contents() == data,
            r.path() == config_path@,
    {
        Config { data, config_path }
    }

    /// The file the configuration is kept in.
    pub fn config_path(&self) -> (r: &str)
        ensures
            r@ == self.path(),
    {
        self.config_path.as_str()
    }

    /// The configuration directory under `home` (the `HOME` variable, `None` when unset).
    pub fn config_dir(home: Option<&str>) -> (r: Option<String>)
        ensures
            match config_dir_of(opt_str(home)) {
                Some(d) => r matches Some(s) && s@ == d,
                None => r is None,
            },
    {
        match home {
            Some(h) => Some(join(h, ".config/tuxedo-control-center")),
            None => None,
        }
    }

    /// The default configuration, kept in `config.json` of the configuration directory, or
    /// of `/tmp/tuxedo-control-center` when `HOME` is unset.
    pub fn default_for_home(home: Option<&str>) -> (r: Self)
        ensures
            r.path() == join_path(
                match config_dir_of(opt_str(home)) {
                    Some(d) => d,
                    None => "/tmp/tuxedo-control-center"@,
                },
                "config.json"@,
            ),
            r.contents().profiles@.len() == 1,
            is_default_profile(r.contents().profiles@[0]),
            r.contents().current_profile@ == "Standard"@,
    {
        let dir = match Config::config_dir(home) {
            Some(d) => d,
            None => String::from_str("/tmp/tuxedo-control-center"),
        };
        let config_path = join(dir.as_str(), "config.json");
        Config { data: AppConfig::default(), config_path }
    }
}


/// The view of a fan curve: its fan and its points.
pub open spec fn curve_views(cs: Seq<FanCurve>) -> Seq<(u32, Seq<(u8, u8)>)> {
    cs.map_values(|c: FanCurve| (c.fan_id, c.points@))
}

/// The first curve of fan `fan` from position `from` on.
pub open spec fn first_curve_from(cs: Seq<(u32, Seq<(u8, u8)>)>, fan: u32, from: int) -> Option<int>
    decreases cs.len() - from,
{
    if from < 0 || from >= cs.len() {
        None
    } else if cs[from].0 == fan {
        Some(from)
    } else {
        first_curve_from(cs, fan, from + 1)
    }
}

/// The first curve of fan `fan`.
pub open spec fn first_curve_of(cs: Seq<(u32, Seq<(u8, u8)>)>, fan: u32) -> Option<int> {
    first_curve_from(cs, fan, 0)
}

/// The curves after setting point `idx` of fan `fan`'s first curve to `(temp, speed)`:
/// unchanged when that curve has no such point; a new curve of that one point when the fan
/// has no curve.
pub open spec fn point_set_curves(cs: Seq<(u32, Seq<(u8, u8)>)>, fan: u32, idx: int, temp: u8, speed: u8) -> Seq<
    (u32, Seq<(u8, u8)>),
> {
    match first_curve_of(cs, fan) {
        Some(j) => if 0 <= idx < cs[j].1.len() {
            cs.update(j, (fan, cs[j].1.update(idx, (temp, speed))))
        } else {
            cs
        },
        None => cs.push((fan, seq![(temp, speed)])),
    }
}

/// The temperature of the point added after `pts`: 10 °C above the last point's, at most
/// 100, or 50 for a curve without points.
pub open spec fn next_point_temp(pts: Seq<(u8, u8)>) -> int {
    if pts.len() == 0 {
        50
    } else if pts.last().0 + 10 > 100 {
        100
    } else {
        pts.last().0 + 10
    }
}

/// The curves after adding a point at 50 % to fan `fan`'s first curve (see
/// `next_point_temp`), or a curve of the point (50 °C, 50 %) when the fan has no curve.
pub open spec fn point_added_curves(cs: Seq<(u32, Seq<(u8, u8)>)>, fan: u32) -> Seq<(u32, Seq<(u8, u8)>)> {
    match first_curve_of(cs, fan) {
        Some(j) => cs.update(j, (fan, cs[j].1.push((next_point_temp(cs[j].1) as u8, 50u8)))),
        None => cs.push((fan, seq![(50u8, 50u8)])),
    }
}

/// `cs` with point `idx` removed from the first curve of fan `fan`, when that curve has
/// more than two points and such a point; unchanged otherwise.
pub open spec fn point_removed_curves(cs: Seq<(u32, Seq<(u8, u8)>)>, fan: u32, idx: int) -> Seq<
    (u32, Seq<(u8, u8)>),
> {
    match first_curve_of(cs, fan) {
        Some(j) => if cs[j].1.len() > 2 && 0 <= idx < cs[j].1.len() {
            cs.update(j, (fan, cs[j].1.remove(idx)))
        } else {
            cs
        },
        None => cs,
    }
}

/// `b` is `a` with its fan curves replaced by `curves`.
pub open spec fn profile_curves_replaced(a: Profile, b: Profile, curves: Seq<(u32, Seq<(u8, u8)>)>) -> bool {
    &&& a.name == b.name
    &&& a.is_default == b.is_default
    &&& a.cpu_settings == b.cpu_settings
    &&& a.gpu_settings == b.gpu_settings
    &&& a.keyboard_settings == b.keyboard_settings
    &&& a.screen_settings == b.screen_settings
    &&& a.auto_switch == b.auto_switch
    &&& a.fan_settings.control_enabled == b.fan_settings.control_enabled
    &&& curve_views(b.fan_settings.curves@) == curves
}

/// `new` is `old` with the curves of the first profile named `name` changed by `edit`;
/// unchanged when no profile has that name.
pub open spec fn curves_edited(
    old: AppConfig,
    new: AppConfig,
    name: Seq<char>,
    edit: spec_fn(Seq<(u32, Seq<(u8, u8)>)>) -> Seq<(u32, Seq<(u8, u8)>)>,
) -> bool {
    &&& same_but_profiles(old, new)
    &&& new.current_profile == old.current_profile
    &&& new.profiles@.len() == old.profiles@.len()
    &&& match first_position(profile_names(old.profiles@), name) {
        None => new.profiles@ == old.profiles@,
        Some(i) => {
            &&& forall|j: int| 0 <= j < old.profiles@.len() && j != i ==> #[trigger] new.profiles@[j] == old.profiles@[j]
            &&& profile_curves_replaced(
                old.profiles@[i],
                new.profiles@[i],
                edit(curve_views(old.profiles@[i].fan_settings.curves@)),
            )
        },
    }
}

/// The position of the first profile named `name`.
pub fn profile_position(profiles: &Vec<Profile>, name: &str) -> (r: Option<usize>)
    ensures
        r matches Some(i) ==> i < profiles@.len() && first_position(profile_names(profiles@), name@) == Some(i as int),
        r is None ==> first_position(profile_names(profiles@), name@) is None,
{
    let ghost names = profile_names(profiles@);
    let target = String::from_str(name);
    for i in 0..profiles.len()
        invariant
            names == profile_names(profiles@),
            target@ == name@,
            forall|j: int| 0 <= j < i ==> names[j] != name@,
    {
        if profiles[i].name == target {
            proof {
                assert(names[i as int] == name@);
                let k = choose|k: int|
                    0 <= k < names.len() && names[k] == name@ && forall|j: int| 0 <= j < k ==> names[j] != name@;
                assert(0 <= i < names.len() && names[i as int] == name@ && forall|j: int|
                    0 <= j < i ==> names[j] != name@);
                if k < i {
                    assert(names[k] != name@);
                }
                if k > i {
                    assert(names[i as int] != name@);
                }
            }
            return Some(i);
        }
    }
    proof {
        assert(!(exists|i: int| 0 <= i < names.len() && names[i] == name@));
    }
    None
}

/// The position of the first curve of fan `fan`.
fn curve_position(curves: &Vec<FanCurve>, fan: u32) -> (r: Option<usize>)
    ensures
        r matches Some(i) ==> i < curves@.len() && first_curve_of(curve_views(curves@), fan) == Some(i as int),
        r is None ==> first_curve_of(curve_views(curves@), fan) is None,
{
    let ghost cs = curve_views(curves@);
    for i in 0..curves.len()
        invariant
            cs == curve_views(curves@),
            first_curve_of(cs, fan) == first_curve_from(cs, fan, i as int),
    {
        if curves[i].fan_id == fan {
            assert(cs[i as int].0 == fan);
            return Some(i);
        }
    }
    None
}

proof fn lemma_first_curve_from(cs: Seq<(u32, Seq<(u8, u8)>)>, fan: u32, from: int)
    requires
        0 <= from,
    ensures
        first_curve_from(cs, fan, from) matches Some(j) ==> from <= j < cs.len() && cs[j].0 == fan,
    decreases cs.len() - from,
{
    if from < cs.len() && cs[from].0 != fan {
        lemma_first_curve_from(cs, fan, from + 1);
    }
}

proof fn lemma_first_curve_of(cs: Seq<(u32, Seq<(u8, u8)>)>, fan: u32)
    ensures
        first_curve_of(cs, fan) matches Some(j) ==> 0 <= j < cs.len() && cs[j].0 == fan,
{
    lemma_first_curve_from(cs, fan, 0);
}

proof fn lemma_curve_views_update(s: Seq<FanCurve>, j: int, c: FanCurve)
    requires
        0 <= j < s.len(),
    ensures
        curve_views(s.update(j, c)) == curve_views(s).update(j, (c.fan_id, c.points@)),
{
    assert(curve_views(s.update(j, c)) =~= curve_views(s).update(j, (c.fan_id, c.points@)));
}

proof fn lemma_curve_views_push(s: Seq<FanCurve>, c: FanCurve)
    ensures
        curve_views(s.push(c)) == curve_views(s).push((c.fan_id, c.points@)),
{
    assert(curve_views(s.push(c)) =~= curve_views(s).push((c.fan_id, c.points@)));
}

fn one_point_curve(fan: u32, temp: u8, speed: u8) -> (c: FanCurve)
    ensures
        c.fan_id == fan,
        c.points@ == seq![(temp, speed)],
{
    let mut points: Vec<(u8, u8)> = Vec::new();
    points.push((temp, speed));
    assert(points@ =~= seq![(temp, speed)]);
    FanCurve { fan_id: fan, points }
}

fn set_curve_point(curves: &mut Vec<FanCurve>, fan: u32, idx: usize, temp: u8, speed: u8)
    ensures
        curve_views(final(curves)@) == point_set_curves(curve_views(old(curves)@), fan, idx as int, temp, speed),
{
    let ghost old_curves = curves@;
    let ghost cs = curve_views(curves@);
    proof {
        lemma_first_curve_of(cs, fan);
    }
    match curve_position(curves, fan) {
        Some(j) => {
            assert(cs[j as int] == (old_curves[j as int].fan_id, old_curves[j as int].points@));
            if idx < curves[j].points.len() {
                let mut c = curves.remove(j);
                c.points.set(idx, (temp, speed));
                let ghost new_c = c;
                curves.insert(j, c);
                assert(curves@ =~= old_curves.update(j as int, new_c));
                proof {
                    lemma_curve_views_update(old_curves, j as int, new_c);
                    assert(new_c.points@ == cs[j as int].1.update(idx as int, (temp, speed)));
                    assert(new_c.fan_id == fan);
                    assert(curve_views(curves@) == point_set_curves(cs, fan, idx as int, temp, speed));
                }
            }
        },
        None => {
            let c = one_point_curve(fan, temp, speed);
            let ghost new_c = c;
            curves.push(c);
            proof {
                lemma_curve_views_push(old_curves, new_c);
            }
        },
    }
}

fn remove_curve_point(curves: &mut Vec<FanCurve>, fan: u32, idx: usize)
    ensures
        curve_views(final(curves)@) == point_removed_curves(curve_views(old(curves)@), fan, idx as int),
{
    let ghost old_curves = curves@;
    let ghost cs = curve_views(curves@);
    proof {
        lemma_first_curve_of(cs, fan);
    }
    match curve_position(curves, fan) {
        Some(j) => {
            assert(cs[j as int] == (old_curves[j as int].fan_id, old_curves[j as int].points@));
            if curves[j].points.len() > 2 && idx < curves[j].points.len() {
                let mut c = curves.remove(j);
                c.points.remove(idx);
                let ghost new_c = c;
                curves.insert(j, c);
                assert(curves@ =~= old_curves.update(j as int, new_c));
                proof {
                    lemma_curve_views_update(old_curves, j as int, new_c);
                    assert(new_c.points@ == cs[j as int].1.remove(idx as int));
                    assert(new_c.fan_id == fan);
                }
            }
        },
        None => {},
    }
}

fn add_curve_point(curves: &mut Vec<FanCurve>, fan: u32)
    ensures
        curve_views(final(curves)@) == point_added_curves(curve_views(old(curves)@), fan),
{
    let ghost old_curves = curves@;
    let ghost cs = curve_views(curves@);
    proof {
        lemma_first_curve_of(cs, fan);
    }
    match curve_position(curves, fan) {
        Some(j) => {
            assert(cs[j as int] == (old_curves[j as int].fan_id, old_curves[j as int].points@));
            let mut c = curves.remove(j);
            let n = c.points.len();
            let t: u8 = if n == 0 {
                50
            } else if c.points[n - 1].0 > 90 {
                100
            } else {
                c.points[n - 1].0 + 10
            };
            assert(t == next_point_temp(cs[j as int].1));
            c.points.push((t, 50));
            let ghost new_c = c;
            curves.insert(j, c);
            assert(curves@ =~= old_curves.update(j as int, new_c));
            proof {
                lemma_curve_views_update(old_curves, j as int, new_c);
            }
        },
        None => {
            let c = one_point_curve(fan, 50, 50);
            let ghost new_c = c;
            curves.push(c);
            proof {
                lemma_curve_views_push(old_curves, new_c);
            }
        },
    }
}

/// Sets point `point_idx` of fan `fan_id`'s curve in the profile named `profile_name` to
/// `(temp, speed)` (see `point_set_curves`); nothing changes when no profile has the name.
pub fn update_fan_curve_point(
    config: &mut AppConfig,
    profile_name: &str,
    fan_id: u32,
    point_idx: usize,
    temp: u8,
    speed: u8,
)
    ensures
        curves_edited(
            *old(config),
            *final(config),
            profile_name@,
            |cs: Seq<(u32, Seq<(u8, u8)>)>| point_set_curves(cs, fan_id, point_idx as int, temp, speed),
        ),
{
    let ghost start = *config;
    match profile_position(&config.profiles, profile_name) {
        Some(i) => {
            let mut p = config.profiles.remove(i);
            assert(p == start.profiles@[i as int]);
            set_curve_point(&mut p.fan_settings.curves, fan_id, point_idx, temp, speed);
            let ghost new_p = p;
            config.profiles.insert(i, p);
            assert(config.profiles@ =~= start.profiles@.update(i as int, new_p));
            assert(forall|j: int| 0 <= j < start.profiles@.len() && j != i ==> #[trigger] config.profiles@[j] == start.profiles@[j]);
            assert(config.profiles@[i as int] == new_p);
            assert(same_but_profiles(start, *config));
        },
        None => {},
    }
}

/// Removes point `point_idx` from the curve of fan `fan_id` of the first profile named
/// `profile_name`, when that curve keeps at least two points (see
/// `point_removed_curves`); nothing changes when no profile has the name.
pub fn remove_fan_curve_point(config: &mut AppConfig, profile_name: &str, fan_id: u32, point_idx: usize)
    ensures
        curves_edited(
            *old(config),
            *final(config),
            profile_name@,
            |cs: Seq<(u32, Seq<(u8, u8)>)>| point_removed_curves(cs, fan_id, point_idx as int),
        ),
{
    let ghost start = *config;
    match profile_position(&config.profiles, profile_name) {
        Some(i) => {
            let mut p = config.profiles.remove(i);
            assert(p == start.profiles@[i as int]);
            remove_curve_point(&mut p.fan_settings.curves, fan_id, point_idx);
            let ghost new_p = p;
            config.profiles.insert(i, p);
            assert(config.profiles@ =~= start.profiles@.update(i as int, new_p));
            assert(forall|j: int| 0 <= j < start.profiles@.len() && j != i ==> #[trigger] config.profiles@[j] == start.profiles@[j]);
            assert(config.profiles@[i as int] == new_p);
            assert(same_but_profiles(start, *config));
        },
        None => {},
    }
}

/// Adds a point at 50 % to fan `fan_id`'s curve in the profile named `profile_name` (see
/// `point_added_curves`); nothing changes when no profile has the name.
pub fn add_fan_curve_point(config: &mut AppConfig, profile_name: &str, fan_id: u32)
    ensures
        curves_edited(
            *old(config),
            *final(config),
            profile_name@,
            |cs: Seq<(u32, Seq<(u8, u8)>)>| point_added_curves(cs, fan_id),
        ),
{
    let ghost start = *config;
    match profile_position(&config.profiles, profile_name) {
        Some(i) => {
            let mut p = config.profiles.remove(i);
            assert(p == start.profiles@[i as int]);
            add_curve_point(&mut p.fan_settings.curves, fan_id);
            let ghost new_p = p;
            config.profiles.insert(i, p);
            assert(config.profiles@ =~= start.profiles@.update(i as int, new_p));
            assert(forall|j: int| 0 <= j < start.profiles@.len() && j != i ==> #[trigger] config.profiles@[j] == start.profiles@[j]);
            assert(config.profiles@[i as int] == new_p);
            assert(same_but_profiles(start, *config));
        },
        None => {},
    }
}

/// When fan control is on, adds a curve with the default points for each fan up to
/// `fan_count` that has none yet, numbered by position; else changes nothing.
pub fn ensure_fan_curves(settings: &mut FanSettings, fan_count: usize)
    requires
        fan_count <= u32::MAX,
    ensures
        final(settings).control_enabled == old(settings).control_enabled,
        !old(settings).control_enabled ==> final(settings).curves@ == old(settings).curves@,
        old(settings).control_enabled ==> {
            &&& final(settings).curves@.len() == if old(settings).curves@.len() < fan_count {
                fan_count as int
            } else {
                old(settings).curves@.len() as int
            }
            &&& forall|i: int| 0 <= i < old(settings).curves@.len() ==> #[trigger] final(settings).curves@[i]
                == old(settings).curves@[i]
            &&& forall|i: int|
                old(settings).curves@.len() <= i < final(settings).curves@.len() ==> (
                #[trigger] final(settings).curves@[i]).fan_id == i && final(settings).curves@[i].points@
                    == crate::fan_curve::default_curve_points()
        },
{
    if !settings.control_enabled {
        return;
    }
    let ghost start = settings.curves@;
    while settings.curves.len() < fan_count
        invariant
            fan_count <= u32::MAX,
            settings.control_enabled,
            settings.curves@.len() >= start.len(),
            settings.curves@.len() <= if start.len() < fan_count {
                fan_count as int
            } else {
                start.len() as int
            },
            forall|i: int| 0 <= i < start.len() ==> #[trigger] settings.curves@[i] == start[i],
            forall|i: int|
                start.len() <= i < settings.curves@.len() ==> (#[trigger] settings.curves@[i]).fan_id == i
                    && settings.curves@[i].points@ == crate::fan_curve::default_curve_points(),
        decreases fan_count - settings.curves.len(),
    {
        let fan_id = settings.curves.len() as u32;
        settings.curves.push(FanCurve { fan_id, points: crate::fan_curve::default_points() });
    }
}


/// `s` without all its leading repetitions of `p`, as `trim_start_matches(p)` gives it.
pub open spec fn strip_all_prefix(s: Seq<char>, p: Seq<char>) -> Seq<char>
    decreases s.len(),
{
    if p.len() > 0 && p.len() <= s.len() && s.subrange(0, p.len() as int) == p {
        strip_all_prefix(s.subrange(p.len() as int, s.len() as int), p)
    } else {
        s
    }
}

/// The vendor and device ids of a PCI modalias (`pci:v<vendor>d<device>sv...`): the text
/// before the first `d` without its leading "pci:v", and the text after it up to the next
/// `d` or `s`; none without a `d`.
pub open spec fn pci_ids(modalias: Seq<char>) -> Option<(Seq<char>, Seq<char>)> {
    let d = crate::text::char_pos(modalias, 'd');
    if d >= modalias.len() {
        None
    } else {
        let rest = modalias.subrange(d + 1, modalias.len() as int);
        Some(
            (
                strip_all_prefix(modalias.subrange(0, d), "pci:v"@),
                crate::text::before_char(crate::text::before_char(rest, 'd'), 's'),
            ),
        )
    }
}

/// The vendor and device ids of a PCI modalias (see `pci_ids`).
pub fn extract_pci_ids(modalias: &str) -> (r: Option<(String, String)>)
    ensures
        match pci_ids(modalias@) {
            Some((v, d)) => r matches Some((rv, rd)) && rv@ == v && rd@ == d,
            None => r is None,
        },
{
    let v = crate::text::chars_of(modalias);
    let n = v.len();
    assert(v@.subrange(0, n as int) =~= v@);
    let d = crate::text::find_char(&v, 0, n, 'd');
    proof {
        crate::text::lemma_char_pos_bounds(v@, 'd');
    }
    if d == n {
        return None;
    }
    let prefix = crate::text::chars_of("pci:v");
    proof {
        reveal_strlit("pci:v");
    }
    assert(prefix.len() == 5);
    let mut i: usize = 0;
    while i < d && crate::text::starts_with(&v, i, d, &prefix)
        invariant
            i <= d < n,
            n == v.len(),
            prefix@ == "pci:v"@,
            prefix.len() == 5,
            strip_all_prefix(v@.subrange(0, d as int), "pci:v"@) == strip_all_prefix(
                v@.subrange(i as int, d as int),
                "pci:v"@,
            ),
        decreases d - i,
    {
        let ghost t = v@.subrange(i as int, d as int);
        assert(t.subrange(0, 5) =~= v@.subrange(i as int, i + 5));
        assert(t.subrange(5, t.len() as int) =~= v@.subrange(i + 5, d as int));
        i = i + prefix.len();
    }
    proof {
        let t = v@.subrange(i as int, d as int);
        if 5 <= t.len() {
            assert(t.subrange(0, 5) =~= v@.subrange(i as int, i + 5));
        }
    }
    let e1 = crate::text::find_char(&v, d + 1, n, 'd');
    let e2 = crate::text::find_char(&v, d + 1, e1, 's');
    proof {
        let rest = v@.subrange(d + 1, n as int);
        assert(rest =~= v@.subrange(d + 1, n as int));
        assert(crate::text::before_char(rest, 'd') =~= v@.subrange(d + 1, e1 as int));
        assert(crate::text::before_char(v@.subrange(d + 1, e1 as int), 's') =~= v@.subrange(d + 1, e2 as int));
    }
    Some((crate::text::string_of(&v, i, d), crate::text::string_of(&v, d + 1, e2)))
}

/// The name of a Wi-Fi chip by its PCI vendor and device ids: the known Intel and Realtek
/// chips by name, else the maker (Intel, Realtek, Broadcom, Qualcomm Atheros or Unknown)
/// followed by "WiFi (vendor:device)".
pub open spec fn chip_label(vendor: Seq<char>, device: Seq<char>) -> Seq<char> {
    let ids = " WiFi ("@ + vendor + ":"@ + device + ")"@;
    if vendor == "00008086"@ {
        if device == "00002723"@ {
            "Intel Wi-Fi 6 AX200"@
        } else if device == "000024FD"@ {
            "Intel Wi-Fi 6 AX210"@
        } else if device == "00002725"@ || device == "000051F0"@ {
            "Intel Wi-Fi 6E AX211"@
        } else if device == "00007AF0"@ {
            "Intel Wi-Fi 7 BE200"@
        } else {
            "Intel"@ + ids
        }
    } else if vendor == "000010EC"@ {
        if device == "0000C821"@ {
            "Realtek RTL8821CE"@
        } else if device == "0000C822"@ {
            "Realtek RTL8822CE"@
        } else if device == "0000B822"@ {
            "Realtek RTL8822BE"@
        } else {
            "Realtek"@ + ids
        }
    } else if vendor == "000014E4"@ {
        "Broadcom"@ + ids
    } else if vendor == "0000168C"@ {
        "Qualcomm Atheros"@ + ids
    } else {
        "Unknown"@ + ids
    }
}

fn labelled(maker: &str, vendor: &str, device: &str) -> (r: String)
    ensures
        r@ == maker@ + (" WiFi ("@ + vendor@ + ":"@ + device@ + ")"@),
{
    let mut r = String::from_str(maker);
    r.append(" WiFi (");
    r.append(vendor);
    r.append(":");
    r.append(device);
    r.append(")");
    assert(r@ =~= maker@ + (" WiFi ("@ + vendor@ + ":"@ + device@ + ")"@));
    r
}

/// The name of a Wi-Fi chip by its PCI vendor and device ids (see `chip_label`).
pub fn get_wifi_chip_name(vendor_device: &(String, String)) -> (r: String)
    ensures
        r@ == chip_label(vendor_device.0@, vendor_device.1@),
{
    let vendor = vendor_device.0.as_str();
    let device = vendor_device.1.as_str();
    let eq = |a: &str, b: &str| -> (r: bool)
        ensures
            r == (a@ == b@),
        { crate::battery_control::str_equal(a, b) };
    if eq(vendor, "00008086") {
        if eq(device, "00002723") {
            String::from_str("Intel Wi-Fi 6 AX200")
        } else if eq(device, "000024FD") {
            String::from_str("Intel Wi-Fi 6 AX210")
        } else if eq(device, "00002725") || eq(device, "000051F0") {
            String::from_str("Intel Wi-Fi 6E AX211")
        } else if eq(device, "00007AF0") {
            String::from_str("Intel Wi-Fi 7 BE200")
        } else {
            labelled("Intel", vendor, device)
        }
    } else if eq(vendor, "000010EC") {
        if eq(device, "0000C821") {
            String::from_str("Realtek RTL8821CE")
        } else if eq(device, "0000C822") {
            String::from_str("Realtek RTL8822CE")
        } else if eq(device, "0000B822") {
            String::from_str("Realtek RTL8822BE")
        } else {
            labelled("Realtek", vendor, device)
        }
    } else if eq(vendor, "000014E4") {
        labelled("Broadcom", vendor, device)
    } else if eq(vendor, "0000168C") {
        labelled("Qualcomm Atheros", vendor, device)
    } else {
        labelled("Unknown", vendor, device)
    }
}


/// Setting a point of a fan's curve and reading that point back gives what was set; the
/// fan's curve stays where it was and keeps its length, and the other curves are unchanged.
pub proof fn lemma_point_set_reads_back(
    cs: Seq<(u32, Seq<(u8, u8)>)>,
    fan: u32,
    idx: int,
    temp: u8,
    speed: u8,
    j: int,
)
    requires
        first_curve_of(cs, fan) == Some(j),
        0 <= idx < cs[j].1.len(),
    ensures
        point_set_curves(cs, fan, idx, temp, speed)[j].1[idx] == (temp, speed),
        point_set_curves(cs, fan, idx, temp, speed)[j].1.len() == cs[j].1.len(),
        point_set_curves(cs, fan, idx, temp, speed).len() == cs.len(),
        first_curve_of(point_set_curves(cs, fan, idx, temp, speed), fan) == Some(j),
        forall|k: int| 0 <= k < cs.len() && k != j ==> #[trigger] point_set_curves(cs, fan, idx, temp, speed)[k] == cs[k],
{
    lemma_first_curve_of(cs, fan);
    let r = point_set_curves(cs, fan, idx, temp, speed);
    assert(r == cs.update(j, (fan, cs[j].1.update(idx, (temp, speed)))));
    lemma_first_curve_same(cs, r, fan, 0);
}

proof fn lemma_first_curve_same(a: Seq<(u32, Seq<(u8, u8)>)>, b: Seq<(u32, Seq<(u8, u8)>)>, fan: u32, from: int)
    requires
        0 <= from,
        a.len() == b.len(),
        forall|k: int| 0 <= k < a.len() ==> (#[trigger] a[k]).0 == b[k].0,
    ensures
        first_curve_from(a, fan, from) == first_curve_from(b, fan, from),
    decreases a.len() - from,
{
    if from < a.len() {
        lemma_first_curve_same(a, b, fan, from + 1);
    }
}


/// The position of a keyboard mode in the mode list of the tuning page: single colour,
/// breathe, cycle, dance, flash, random colour, tempo, wave.
pub open spec fn mode_index(mode: KeyboardMode) -> u32 {
    match mode {
        KeyboardMode::SingleColor { .. } => 0,
        KeyboardMode::Breathe { .. } => 1,
        KeyboardMode::Cycle { .. } => 2,
        KeyboardMode::Dance { .. } => 3,
        KeyboardMode::Flash { .. } => 4,
        KeyboardMode::RandomColor { .. } => 5,
        KeyboardMode::Tempo { .. } => 6,
        KeyboardMode::Wave { .. } => 7,
    }
}

/// The mode chosen at position `idx` of the mode list, with white, half brightness and half
/// speed; single colour for a position past the list.
pub open spec fn mode_for_index(idx: u32) -> KeyboardMode {
    if idx == 1 {
        KeyboardMode::Breathe { r: 255, g: 255, b: 255, brightness: 50, speed: 50 }
    } else if idx == 2 {
        KeyboardMode::Cycle { brightness: 50, speed: 50 }
    } else if idx == 3 {
        KeyboardMode::Dance { brightness: 50, speed: 50 }
    } else if idx == 4 {
        KeyboardMode::Flash { r: 255, g: 255, b: 255, brightness: 50, speed: 50 }
    } else if idx == 5 {
        KeyboardMode::RandomColor { brightness: 50, speed: 50 }
    } else if idx == 6 {
        KeyboardMode::Tempo { brightness: 50, speed: 50 }
    } else if idx == 7 {
        KeyboardMode::Wave { brightness: 50, speed: 50 }
    } else {
        KeyboardMode::SingleColor { r: 255, g: 255, b: 255, brightness: 50 }
    }
}

/// The position of a keyboard mode in the mode list (see `mode_index`).
pub fn keyboard_mode_index(mode: &KeyboardMode) -> (r: u32)
    ensures
        r == mode_index(*mode),
{
    match mode {
        KeyboardMode::SingleColor { .. } => 0,
        KeyboardMode::Breathe { .. } => 1,
        KeyboardMode::Cycle { .. } => 2,
        KeyboardMode::Dance { .. } => 3,
        KeyboardMode::Flash { .. } => 4,
        KeyboardMode::RandomColor { .. } => 5,
        KeyboardMode::Tempo { .. } => 6,
        KeyboardMode::Wave { .. } => 7,
    }
}

/// The mode chosen at a position of the mode list (see `mode_for_index`).
pub fn keyboard_mode_for_index(idx: u32) -> (r: KeyboardMode)
    ensures
        r == mode_for_index(idx),
{
    match idx {
        1 => KeyboardMode::Breathe { r: 255, g: 255, b: 255, brightness: 50, speed: 50 },
        2 => KeyboardMode::Cycle { brightness: 50, speed: 50 },
        3 => KeyboardMode::Dance { brightness: 50, speed: 50 },
        4 => KeyboardMode::Flash { r: 255, g: 255, b: 255, brightness: 50, speed: 50 },
        5 => KeyboardMode::RandomColor { brightness: 50, speed: 50 },
        6 => KeyboardMode::Tempo { brightness: 50, speed: 50 },
        7 => KeyboardMode::Wave { brightness: 50, speed: 50 },
        _ => KeyboardMode::SingleColor { r: 255, g: 255, b: 255, brightness: 50 },
    }
}

/// Choosing a position of the mode list gives a mode shown at that position.
pub proof fn lemma_mode_index_round_trip(idx: u32)
    requires
        idx < 8,
    ensures
        mode_index(mode_for_index(idx)) == idx,
{
}

/// A change that the tuning page makes to a profile.
#[derive(Debug, Clone)]
pub enum ProfileEdit {
    TdpProfile(String),
    AmdPstateStatus(String),
    EnergyPerformancePreference(String),
    Governor(String),
    MinFrequency(u64),
    MaxFrequency(u64),
    Boost(bool),
    Smt(bool),
    KeyboardControl(bool),
    /// The mode at this position of the mode list.
    KeyboardModeIndex(u32),
    /// Colour and brightness, for the modes that have a colour.
    KeyboardColor { r: u8, g: u8, b: u8, brightness: u8 },
    /// Brightness, for the modes without a colour.
    KeyboardBrightness(u8),
    /// Speed, for the modes that have one.
    KeyboardSpeed(u8),
    ScreenSystemControl(bool),
    ScreenBrightness(u8),
    FanControl(bool),
}

/// A keyboard mode after a colour change: the colour modes take the colour and
/// brightness, the others stay as they are.
pub open spec fn with_color(mode: KeyboardMode, r: u8, g: u8, b: u8, brightness: u8) -> KeyboardMode {
    match mode {
        KeyboardMode::SingleColor { .. } => KeyboardMode::SingleColor { r, g, b, brightness },
        KeyboardMode::Breathe { speed, .. } => KeyboardMode::Breathe { r, g, b, brightness, speed },
        KeyboardMode::Flash { speed, .. } => KeyboardMode::Flash { r, g, b, brightness, speed },
        _ => mode,
    }
}

/// A keyboard mode after a brightness change for the modes without a colour; the colour
/// modes stay as they are.
pub open spec fn with_effect_brightness(mode: KeyboardMode, v: u8) -> KeyboardMode {
    match mode {
        KeyboardMode::Cycle { speed, .. } => KeyboardMode::Cycle { brightness: v, speed },
        KeyboardMode::Dance { speed, .. } => KeyboardMode::Dance { brightness: v, speed },
        KeyboardMode::RandomColor { speed, .. } => KeyboardMode::RandomColor { brightness: v, speed },
        KeyboardMode::Tempo { speed, .. } => KeyboardMode::Tempo { brightness: v, speed },
        KeyboardMode::Wave { speed, .. } => KeyboardMode::Wave { brightness: v, speed },
        _ => mode,
    }
}

/// A keyboard mode after a speed change: every mode but single colour takes the speed.
pub open spec fn with_speed(mode: KeyboardMode, v: u8) -> KeyboardMode {
    match mode {
        KeyboardMode::SingleColor { .. } => mode,
        KeyboardMode::Breathe { r, g, b, brightness, .. } => KeyboardMode::Breathe { r, g, b, brightness, speed: v },
        KeyboardMode::Cycle { brightness, .. } => KeyboardMode::Cycle { brightness, speed: v },
        KeyboardMode::Dance { brightness, .. } => KeyboardMode::Dance { brightness, speed: v },
        KeyboardMode::Flash { r, g, b, brightness, .. } => KeyboardMode::Flash { r, g, b, brightness, speed: v },
        KeyboardMode::RandomColor { brightness, .. } => KeyboardMode::RandomColor { brightness, speed: v },
        KeyboardMode::Tempo { brightness, .. } => KeyboardMode::Tempo { brightness, speed: v },
        KeyboardMode::Wave { brightness, .. } => KeyboardMode::Wave { brightness, speed: v },
    }
}

/// `b` is `a` with the edit made: the CPU setting set, the keyboard control or mode
/// changed, the screen or fan setting set; everything else as it was.
pub open spec fn is_edited_profile(a: Profile, b: Profile, e: ProfileEdit) -> bool {
    &&& b.name == a.name
    &&& b.is_default == a.is_default
    &&& b.gpu_settings == a.gpu_settings
    &&& b.auto_switch == a.auto_switch
    &&& b.fan_settings.curves == a.fan_settings.curves
    &&& match e {
        ProfileEdit::TdpProfile(v) => b.cpu_settings == (CpuSettings { tdp_profile: Some(v), ..a.cpu_settings }),
        ProfileEdit::AmdPstateStatus(v) => b.cpu_settings == (CpuSettings { amd_pstate_status: Some(v), ..a.cpu_settings }),
        ProfileEdit::EnergyPerformancePreference(v) => b.cpu_settings == (CpuSettings {
            energy_performance_preference: Some(v),
            ..a.cpu_settings
        }),
        ProfileEdit::Governor(v) => b.cpu_settings == (CpuSettings { governor: Some(v), ..a.cpu_settings }),
        ProfileEdit::MinFrequency(v) => b.cpu_settings == (CpuSettings { min_frequency: Some(v), ..a.cpu_settings }),
        ProfileEdit::MaxFrequency(v) => b.cpu_settings == (CpuSettings { max_frequency: Some(v), ..a.cpu_settings }),
        ProfileEdit::Boost(v) => b.cpu_settings == (CpuSettings { boost: Some(v), ..a.cpu_settings }),
        ProfileEdit::Smt(v) => b.cpu_settings == (CpuSettings { smt: Some(v), ..a.cpu_settings }),
        _ => b.cpu_settings == a.cpu_settings,
    }
    &&& match e {
        ProfileEdit::KeyboardControl(v) => b.keyboard_settings == (KeyboardSettings {
            control_enabled: v,
            ..a.keyboard_settings
        }),
        ProfileEdit::KeyboardModeIndex(i) => b.keyboard_settings == (KeyboardSettings {
            mode: mode_for_index(i),
            ..a.keyboard_settings
        }),
        ProfileEdit::KeyboardColor { r, g, b: blue, brightness } => b.keyboard_settings == (KeyboardSettings {
            mode: with_color(a.keyboard_settings.mode, r, g, blue, brightness),
            ..a.keyboard_settings
        }),
        ProfileEdit::KeyboardBrightness(v) => b.keyboard_settings == (KeyboardSettings {
            mode: with_effect_brightness(a.keyboard_settings.mode, v),
            ..a.keyboard_settings
        }),
        ProfileEdit::KeyboardSpeed(v) => b.keyboard_settings == (KeyboardSettings {
            mode: with_speed(a.keyboard_settings.mode, v),
            ..a.keyboard_settings
        }),
        _ => b.keyboard_settings == a.keyboard_settings,
    }
    &&& match e {
        ProfileEdit::ScreenSystemControl(v) => b.screen_settings == (ScreenSettings {
            system_control: v,
            ..a.screen_settings
        }),
        ProfileEdit::ScreenBrightness(v) => b.screen_settings == (ScreenSettings { brightness: v, ..a.screen_settings }),
        _ => b.screen_settings == a.screen_settings,
    }
    &&& match e {
        ProfileEdit::FanControl(v) => b.fan_settings.control_enabled == v,
        _ => b.fan_settings.control_enabled == a.fan_settings.control_enabled,
    }
}

/// Makes the edit on `p` (see `is_edited_profile`).
pub fn apply_profile_edit(p: &mut Profile, e: ProfileEdit)
    ensures
        is_edited_profile(*old(p), *final(p), e),
{
    match e {
        ProfileEdit::TdpProfile(v) => p.cpu_settings.tdp_profile = Some(v),
        ProfileEdit::AmdPstateStatus(v) => p.cpu_settings.amd_pstate_status = Some(v),
        ProfileEdit::EnergyPerformancePreference(v) => p.cpu_settings.energy_performance_preference = Some(v),
        ProfileEdit::Governor(v) => p.cpu_settings.governor = Some(v),
        ProfileEdit::MinFrequency(v) => p.cpu_settings.min_frequency = Some(v),
        ProfileEdit::MaxFrequency(v) => p.cpu_settings.max_frequency = Some(v),
        ProfileEdit::Boost(v) => p.cpu_settings.boost = Some(v),
        ProfileEdit::Smt(v) => p.cpu_settings.smt = Some(v),
        ProfileEdit::KeyboardControl(v) => p.keyboard_settings.control_enabled = v,
        ProfileEdit::KeyboardModeIndex(i) => p.keyboard_settings.mode = keyboard_mode_for_index(i),
        ProfileEdit::KeyboardColor { r, g, b, brightness } => {
            p.keyboard_settings.mode = match p.keyboard_settings.mode {
                KeyboardMode::SingleColor { .. } => KeyboardMode::SingleColor { r, g, b, brightness },
                KeyboardMode::Breathe { speed, .. } => KeyboardMode::Breathe { r, g, b, brightness, speed },
                KeyboardMode::Flash { speed, .. } => KeyboardMode::Flash { r, g, b, brightness, speed },
                other => other,
            };
        },
        ProfileEdit::KeyboardBrightness(v) => {
            p.keyboard_settings.mode = match p.keyboard_settings.mode {
                KeyboardMode::Cycle { speed, .. } => KeyboardMode::Cycle { brightness: v, speed },
                KeyboardMode::Dance { speed, .. } => KeyboardMode::Dance { brightness: v, speed },
                KeyboardMode::RandomColor { speed, .. } => KeyboardMode::RandomColor { brightness: v, speed },
                KeyboardMode::Tempo { speed, .. } => KeyboardMode::Tempo { brightness: v, speed },
                KeyboardMode::Wave { speed, .. } => KeyboardMode::Wave { brightness: v, speed },
                other => other,
            };
        },
        ProfileEdit::KeyboardSpeed(v) => {
            p.keyboard_settings.mode = match p.keyboard_settings.mode {
                KeyboardMode::SingleColor { r, g, b, brightness } => KeyboardMode::SingleColor { r, g, b, brightness },
                KeyboardMode::Breathe { r, g, b, brightness, .. } => KeyboardMode::Breathe { r, g, b, brightness, speed: v },
                KeyboardMode::Cycle { brightness, .. } => KeyboardMode::Cycle { brightness, speed: v },
                KeyboardMode::Dance { brightness, .. } => KeyboardMode::Dance { brightness, speed: v },
                KeyboardMode::Flash { r, g, b, brightness, .. } => KeyboardMode::Flash { r, g, b, brightness, speed: v },
                KeyboardMode::RandomColor { brightness, .. } => KeyboardMode::RandomColor { brightness, speed: v },
                KeyboardMode::Tempo { brightness, .. } => KeyboardMode::Tempo { brightness, speed: v },
                KeyboardMode::Wave { brightness, .. } => KeyboardMode::Wave { brightness, speed: v },
            };
        },
        ProfileEdit::ScreenSystemControl(v) => p.screen_settings.system_control = v,
        ProfileEdit::ScreenBrightness(v) => p.screen_settings.brightness = v,
        ProfileEdit::FanControl(v) => p.fan_settings.control_enabled = v,
    }
}

/// Makes the edit on the first profile named `profile_name` (see `is_edited_profile`);
/// nothing changes when no profile has the name.
pub fn edit_profile(config: &mut AppConfig, profile_name: &str, e: ProfileEdit)
    ensures
        same_but_profiles(*old(config), *final(config)),
        final(config).current_profile == old(config).current_profile,
        final(config).profiles@.len() == old(config).profiles@.len(),
        match first_position(profile_names(old(config).profiles@), profile_name@) {
            None => final(config).profiles@ == old(config).profiles@,
            Some(i) => {
                &&& forall|j: int|
                    0 <= j < old(config).profiles@.len() && j != i ==> #[trigger] final(config).profiles@[j]
                        == old(config).profiles@[j]
                &&& is_edited_profile(old(config).profiles@[i], final(config).profiles@[i], e)
            },
        },
{
    let ghost start = *config;
    match profile_position(&config.profiles, profile_name) {
        Some(i) => {
            let mut p = config.profiles.remove(i);
            assert(p == start.profiles@[i as int]);
            apply_profile_edit(&mut p, e);
            let ghost new_p = p;
            config.profiles.insert(i, p);
            assert(config.profiles@ =~= start.profiles@.update(i as int, new_p));
        },
        None => {},
    }
}

/// The position of the first default profile, if there is one.
pub open spec fn first_default(profiles: Seq<Profile>) -> Option<int> {
    if exists|i: int| 0 <= i < profiles.len() && profiles[i].is_default {
        Some(
            choose|i: int|
                0 <= i < profiles.len() && profiles[i].is_default && forall|j: int|
                    0 <= j < i ==> !profiles[j].is_default,
        )
    } else {
        None
    }
}

/// The position of the first default profile.
pub fn default_profile_index(profiles: &Vec<Profile>) -> (r: Option<usize>)
    ensures
        r matches Some(i) ==> i < profiles@.len() && first_default(profiles@) == Some(i as int),
        r is None ==> first_default(profiles@) is None,
{
    for i in 0..profiles.len()
        invariant
            forall|j: int| 0 <= j < i ==> !(#[trigger] profiles@[j]).is_default,
    {
        if profiles[i].is_default {
            proof {
                let k = choose|k: int|
                    0 <= k < profiles@.len() && profiles@[k].is_default && forall|j: int|
                        0 <= j < k ==> !profiles@[j].is_default;
                assert(0 <= i < profiles@.len() && profiles@[i as int].is_default && forall|j: int|
                    0 <= j < i ==> !profiles@[j].is_default);
                if k < i {
                    assert(!profiles@[k].is_default);
                }
                if k > i {
                    assert(!profiles@[i as int].is_default);
                }
            }
            return Some(i);
        }
    }
    None
}

/// `a` and `b` hold the same settings, whatever their names and default marks.
pub open spec fn same_settings(a: Profile, b: Profile) -> bool {
    &&& a.cpu_settings == b.cpu_settings
    &&& a.gpu_settings == b.gpu_settings
    &&& a.keyboard_settings == b.keyboard_settings
    &&& a.screen_settings == b.screen_settings
    &&& a.fan_settings.control_enabled == b.fan_settings.control_enabled
    &&& curve_views(a.fan_settings.curves@) == curve_views(b.fan_settings.curves@)
    &&& a.auto_switch.enabled == b.auto_switch.enabled
    &&& a.auto_switch.app_names@ == b.auto_switch.app_names@
}

fn copy_text(o: &Option<String>) -> (r: Option<String>)
    ensures
        r == *o,
{
    match o {
        Some(s) => Some(s.clone()),
        None => None,
    }
}

fn copy_cpu_settings(c: &CpuSettings) -> (r: CpuSettings)
    ensures
        r == *c,
{
    CpuSettings {
        governor: copy_text(&c.governor),
        min_frequency: c.min_frequency,
        max_frequency: c.max_frequency,
        boost: c.boost,
        smt: c.smt,
        performance_profile: copy_text(&c.performance_profile),
        tdp_profile: copy_text(&c.tdp_profile),
        energy_performance_preference: copy_text(&c.energy_performance_preference),
        tdp: c.tdp,
        amd_pstate_status: copy_text(&c.amd_pstate_status),
    }
}

fn copy_names(v: &Vec<String>) -> (r: Vec<String>)
    ensures
        r@ == v@,
{
    let mut r: Vec<String> = Vec::new();
    for i in 0..v.len()
        invariant
            r@ == v@.take(i as int),
    {
        r.push(v[i].clone());
        assert(r@ =~= v@.take(i + 1));
    }
    assert(r@ =~= v@);
    r
}

/// A profile named `name`, default or not as `is_default` says, with the settings of `p`.
pub fn copy_profile(p: &Profile, name: String, is_default: bool) -> (r: Profile)
    ensures
        r.name == name,
        r.is_default == is_default,
        same_settings(r, *p),
{
    let fan_settings = copy_fan_settings(&p.fan_settings);
    assert(curve_views(fan_settings.curves@) =~= curve_views(p.fan_settings.curves@));
    Profile {
        name,
        is_default,
        cpu_settings: copy_cpu_settings(&p.cpu_settings),
        gpu_settings: p.gpu_settings,
        keyboard_settings: p.keyboard_settings,
        screen_settings: p.screen_settings,
        fan_settings,
        auto_switch: AutoSwitchSettings {
            enabled: p.auto_switch.enabled,
            app_names: copy_names(&p.auto_switch.app_names),
        },
    }
}

/// Why a new profile is refused.
#[derive(Debug, Clone, Copy, PartialEq, Eq, Structural)]
pub enum ProfileNameError {
    /// The name is empty.
    Empty,
    /// A profile of that name exists already.
    Taken,
}

/// The settings of the default profile, whatever its name and default mark.
pub open spec fn has_default_settings(p: Profile) -> bool {
    &&& crate::types::is_default_cpu_settings(p.cpu_settings)
    &&& p.gpu_settings.dgpu_tdp is None
    &&& !p.keyboard_settings.control_enabled
    &&& p.keyboard_settings.mode == crate::types::default_keyboard_mode()
    &&& p.screen_settings.brightness == 50
    &&& p.screen_settings.system_control
    &&& !p.fan_settings.control_enabled
    &&& p.fan_settings.curves@.len() == 0
    &&& !p.auto_switch.enabled
    &&& p.auto_switch.app_names@.len() == 0
}

/// A new profile of a configuration whose profiles are `profiles`: named `name`, not the
/// default, with the settings of the first default profile, or the default settings when
/// there is no default profile.
pub open spec fn is_new_profile(p: Profile, profiles: Seq<Profile>, name: Seq<char>) -> bool {
    &&& p.name@ == name
    &&& !p.is_default
    &&& match first_default(profiles) {
        Some(i) => same_settings(p, profiles[i]),
        None => has_default_settings(p),
    }
}

/// The profile that `create_profile` adds (see `is_new_profile`).
pub fn new_profile_for(profiles: &Vec<Profile>, name: &str) -> (r: Profile)
    ensures
        is_new_profile(r, profiles@, name@),
{
    match default_profile_index(profiles) {
        Some(i) => copy_profile(&profiles[i], String::from_str(name), false),
        None => {
            let mut p = Profile::default();
            p.name = String::from_str(name);
            p.is_default = false;
            p
        },
    }
}

/// Creates a profile named `name` from the default profile (see `is_new_profile`), adds it
/// last and makes it the current profile. An empty name, or one that a profile has
/// already, is refused and changes nothing.
pub fn create_profile(config: &mut AppConfig, name: &str) -> (r: Result<(), ProfileNameError>)
    ensures
        name@.len() == 0 ==> r == Err::<(), ProfileNameError>(ProfileNameError::Empty),
        name@.len() > 0 && first_position(profile_names(old(config).profiles@), name@) is Some ==> r == Err::<
            (),
            ProfileNameError,
        >(ProfileNameError::Taken),
        name@.len() > 0 && first_position(profile_names(old(config).profiles@), name@) is None ==> r is Ok,
        r is Err ==> *final(config) == *old(config),
        r is Ok ==> {
            &&& same_but_profiles(*old(config), *final(config))
            &&& final(config).current_profile@ == name@
            &&& final(config).profiles@.len() == old(config).profiles@.len() + 1
            &&& final(config).profiles@.take(old(config).profiles@.len() as int) == old(config).profiles@
            &&& is_new_profile(final(config).profiles@.last(), old(config).profiles@, name@)
        },
{
    if name.is_empty() {
        return Err(ProfileNameError::Empty);
    }
    match profile_position(&config.profiles, name) {
        Some(_) => {
            return Err(ProfileNameError::Taken);
        },
        None => {},
    }
    let ghost start = *config;
    let new_profile = new_profile_for(&config.profiles, name);
    config.profiles.push(new_profile);
    config.current_profile = String::from_str(name);
    assert(config.profiles@.take(start.profiles@.len() as int) =~= start.profiles@);
    Ok(())
}

/// The profiles that are not named `name`.
pub open spec fn profiles_without(profiles: Seq<Profile>, name: Seq<char>) -> Seq<Profile> {
    profiles.filter(|p: Profile| p.name@ != name)
}

/// Removes every profile named `name`, keeping the others in their order; nothing else
/// changes.
pub fn delete_profile(config: &mut AppConfig, name: &str)
    ensures
        final(config).profiles@ == profiles_without(old(config).profiles@, name@),
        final(config).current_profile == old(config).current_profile,
        same_but_profiles(*old(config), *final(config)),
{
    let ghost start = *config;
    let ghost keep = |p: Profile| p.name@ != name@;
    let target = String::from_str(name);
    let mut rest: Vec<Profile> = Vec::new();
    std::mem::swap(&mut rest, &mut config.profiles);
    let mut kept: Vec<Profile> = Vec::new();
    let n = rest.len();
    let mut k: usize = 0;
    while rest.len() > 0
        invariant
            target@ == name@,
            keep == (|p: Profile| p.name@ != name@),
            k + rest@.len() == n,
            n == start.profiles@.len(),
            rest@ == start.profiles@.skip(k as int),
            kept@ == start.profiles@.take(k as int).filter(keep),
            same_but_profiles(start, *config),
            config.current_profile == start.current_profile,
        decreases rest@.len(),
    {
        let p = rest.remove(0);
        proof {
            let prev = start.profiles@.take(k as int);
            let next = start.profiles@.take(k + 1);
            assert(next.drop_last() =~= prev);
            assert(next.last() == p);
            assert(next.filter(keep) == (if keep(p) {
                prev.filter(keep).push(p)
            } else {
                prev.filter(keep)
            })) by {
                reveal(Seq::filter);
            }
        }
        if !(p.name == target) {
            kept.push(p);
        }
        k = k + 1;
        assert(rest@ =~= start.profiles@.skip(k as int));
    }
    assert(start.profiles@.take(n as int) =~= start.profiles@);
    config.profiles = kept;
}

/// Removes the profile at `index` when there is one and it is not the default profile,
/// keeping the others in their order, and returns its name; else changes nothing and
/// returns nothing.
pub fn delete_profile_at(config: &mut AppConfig, index: usize) -> (r: Option<String>)
    ensures
        final(config).current_profile == old(config).current_profile,
        same_but_profiles(*old(config), *final(config)),
        index < old(config).profiles@.len() && !old(config).profiles@[index as int].is_default ==> {
            &&& final(config).profiles@ == old(config).profiles@.remove(index as int)
            &&& r matches Some(n) && n == old(config).profiles@[index as int].name
        },
        !(index < old(config).profiles@.len() && !old(config).profiles@[index as int].is_default) ==> {
            &&& final(config).profiles@ == old(config).profiles@
            &&& r is None
        },
{
    if index < config.profiles.len() && !config.profiles[index].is_default {
        let p = config.profiles.remove(index);
        Some(p.name)
    } else {
        None
    }
}

/// Makes the profile at `index` the current one; nothing changes for an index past the
/// last profile.
pub fn activate_profile(config: &mut AppConfig, index: usize)
    ensures
        same_but_profiles(*old(config), *final(config)),
        final(config).profiles == old(config).profiles,
        index < old(config).profiles@.len() ==> final(config).current_profile@
            == old(config).profiles@[index as int].name@,
        index >= old(config).profiles@.len() ==> final(config).current_profile == old(
            config,
        ).current_profile,
{
    if index < config.profiles.len() {
        config.current_profile = config.profiles[index].name.clone();
    }
}

/// Puts the default settings back into the first default profile, which stays the default
/// profile and is named as the default profile is; returns a copy of it to be applied.
/// Without a default profile nothing changes and nothing is returned.
pub fn reset_default_profile(config: &mut AppConfig) -> (r: Option<Profile>)
    ensures
        same_but_profiles(*old(config), *final(config)),
        final(config).current_profile == old(config).current_profile,
        final(config).profiles@.len() == old(config).profiles@.len(),
        match first_default(old(config).profiles@) {
            None => r is None && final(config).profiles@ == old(config).profiles@,
            Some(i) => {
                &&& r matches Some(p) && is_default_profile(p)
                &&& is_default_profile(final(config).profiles@[i])
                &&& forall|j: int|
                    0 <= j < old(config).profiles@.len() && j != i ==> #[trigger] final(config).profiles@[j]
                        == old(config).profiles@[j]
            },
        },
{
    match default_profile_index(&config.profiles) {
        Some(i) => {
            let ghost start = *config;
            let _ = config.profiles.remove(i);
            let fresh = Profile::default();
            let ghost fresh_view = fresh;
            config.profiles.insert(i, fresh);
            assert(config.profiles@ =~= start.profiles@.update(i as int, fresh_view));
            Some(Profile::default())
        },
        None => None,
    }
}

/// Without a profile named `name`, removing the profiles of that name keeps every profile.
pub proof fn lemma_without_absent_name(profiles: Seq<Profile>, name: Seq<char>)
    requires
        first_position(profile_names(profiles), name) is None,
    ensures
        profiles_without(profiles, name) == profiles,
    decreases profiles.len(),
{
    reveal(Seq::filter);
    if profiles.len() > 0 {
        let rest = profiles.drop_last();
        assert(profile_names(profiles)[profiles.len() - 1] == profiles.last().name@);
        assert forall|i: int| 0 <= i < rest.len() implies profile_names(rest)[i] != name by {
            assert(profile_names(profiles)[i] == profile_names(rest)[i]);
        }
        lemma_without_absent_name(rest, name);
        assert(profiles_without(profiles, name) == profiles_without(rest, name).push(profiles.last()));
        assert(rest.push(profiles.last()) =~= profiles);
    }
}

/// Deleting a profile that was just created gives back the profiles there were before.
pub proof fn lemma_delete_undoes_create(profiles: Seq<Profile>, created: Profile, name: Seq<char>)
    requires
        first_position(profile_names(profiles), name) is None,
        created.name@ == name,
    ensures
        profiles_without(profiles.push(created), name) == profiles,
{
    let all = profiles.push(created);
    assert(all.drop_last() =~= profiles);
    assert(profiles_without(all, name) == profiles_without(profiles, name)) by {
        reveal(Seq::filter);
    }
    lemma_without_absent_name(profiles, name);
}

/// A change made on the settings page.
#[derive(Debug, Clone, Copy, PartialEq, Eq, Structural)]
pub enum SettingsEdit {
    Theme(Theme),
    FontSize(FontSize),
    StartMinimized(bool),
    Autostart(bool),
    FanDaemon(bool),
    AppMonitoring(bool),
    ShowSystemInfo(bool),
    ShowCpu(bool),
    ShowGpu(bool),
    ShowBattery(bool),
    ShowWifi(bool),
    ShowStorage(bool),
    ShowFans(bool),
    /// Polling rates, in ms.
    CpuPollRate(u64),
    GpuPollRate(u64),
    BatteryPollRate(u64),
    WifiPollRate(u64),
    StoragePollRate(u64),
    FansPollRate(u64),
    BatteryControl(bool),
    ChargeStartThreshold(u8),
    ChargeEndThreshold(u8),
}

/// The statistics settings `s` with the edit `e` made, when `e` is one of them.
pub open spec fn edited_sections(s: StatisticsSections, e: SettingsEdit) -> StatisticsSections {
    match e {
        SettingsEdit::ShowSystemInfo(v) => StatisticsSections { show_system_info: v, ..s },
        SettingsEdit::ShowCpu(v) => StatisticsSections { show_cpu: v, ..s },
        SettingsEdit::ShowGpu(v) => StatisticsSections { show_gpu: v, ..s },
        SettingsEdit::ShowBattery(v) => StatisticsSections { show_battery: v, ..s },
        SettingsEdit::ShowWifi(v) => StatisticsSections { show_wifi: v, ..s },
        SettingsEdit::ShowStorage(v) => StatisticsSections { show_storage: v, ..s },
        SettingsEdit::ShowFans(v) => StatisticsSections { show_fans: v, ..s },
        SettingsEdit::CpuPollRate(v) => StatisticsSections { cpu_poll_rate: v, ..s },
        SettingsEdit::GpuPollRate(v) => StatisticsSections { gpu_poll_rate: v, ..s },
        SettingsEdit::BatteryPollRate(v) => StatisticsSections { battery_poll_rate: v, ..s },
        SettingsEdit::WifiPollRate(v) => StatisticsSections { wifi_poll_rate: v, ..s },
        SettingsEdit::StoragePollRate(v) => StatisticsSections { storage_poll_rate: v, ..s },
        SettingsEdit::FansPollRate(v) => StatisticsSections { fans_poll_rate: v, ..s },
        _ => s,
    }
}

/// The battery settings `b` with the edit `e` made, when `e` is one of them.
pub open spec fn edited_battery(b: BatterySettings, e: SettingsEdit) -> BatterySettings {
    match e {
        SettingsEdit::BatteryControl(v) => BatterySettings { control_enabled: v, ..b },
        SettingsEdit::ChargeStartThreshold(v) => BatterySettings { charge_start_threshold: v, ..b },
        SettingsEdit::ChargeEndThreshold(v) => BatterySettings { charge_end_threshold: v, ..b },
        _ => b,
    }
}

/// The configuration `a` with the edit `e` made: the one setting that `e` names takes its
/// value.
pub open spec fn edited_config(a: AppConfig, e: SettingsEdit) -> AppConfig {
    match e {
        SettingsEdit::Theme(v) => AppConfig { theme: v, ..a },
        SettingsEdit::FontSize(v) => AppConfig { font_size: v, ..a },
        SettingsEdit::StartMinimized(v) => AppConfig { start_minimized: v, ..a },
        SettingsEdit::Autostart(v) => AppConfig { autostart: v, ..a },
        SettingsEdit::FanDaemon(v) => AppConfig { fan_daemon_enabled: v, ..a },
        SettingsEdit::AppMonitoring(v) => AppConfig { app_monitoring_enabled: v, ..a },
        SettingsEdit::BatteryControl(_)
        | SettingsEdit::ChargeStartThreshold(_)
        | SettingsEdit::ChargeEndThreshold(_) => AppConfig {
            battery_settings: edited_battery(a.battery_settings, e),
            ..a
        },
        _ => AppConfig { statistics_sections: edited_sections(a.statistics_sections, e), ..a },
    }
}

fn edit_sections(s: &mut StatisticsSections, e: SettingsEdit)
    ensures
        *final(s) == edited_sections(*old(s), e),
{
    match e {
        SettingsEdit::ShowSystemInfo(v) => s.show_system_info = v,
        SettingsEdit::ShowCpu(v) => s.show_cpu = v,
        SettingsEdit::ShowGpu(v) => s.show_gpu = v,
        SettingsEdit::ShowBattery(v) => s.show_battery = v,
        SettingsEdit::ShowWifi(v) => s.show_wifi = v,
        SettingsEdit::ShowStorage(v) => s.show_storage = v,
        SettingsEdit::ShowFans(v) => s.show_fans = v,
        SettingsEdit::CpuPollRate(v) => s.cpu_poll_rate = v,
        SettingsEdit::GpuPollRate(v) => s.gpu_poll_rate = v,
        SettingsEdit::BatteryPollRate(v) => s.battery_poll_rate = v,
        SettingsEdit::WifiPollRate(v) => s.wifi_poll_rate = v,
        SettingsEdit::StoragePollRate(v) => s.storage_poll_rate = v,
        SettingsEdit::FansPollRate(v) => s.fans_poll_rate = v,
        _ => {},
    }
}

/// Makes the edit `e` on the configuration (see `edited_config`).
pub fn edit_settings(config: &mut AppConfig, e: SettingsEdit)
    ensures
        *final(config) == edited_config(*old(config), e),
{
    match e {
        SettingsEdit::Theme(v) => config.theme = v,
        SettingsEdit::FontSize(v) => config.font_size = v,
        SettingsEdit::StartMinimized(v) => config.start_minimized = v,
        SettingsEdit::Autostart(v) => config.autostart = v,
        SettingsEdit::FanDaemon(v) => config.fan_daemon_enabled = v,
        SettingsEdit::AppMonitoring(v) => config.app_monitoring_enabled = v,
        SettingsEdit::BatteryControl(v) => config.battery_settings.control_enabled = v,
        SettingsEdit::ChargeStartThreshold(v) => config.battery_settings.charge_start_threshold = v,
        SettingsEdit::ChargeEndThreshold(v) => config.battery_settings.charge_end_threshold = v,
        _ => edit_sections(&mut config.statistics_sections, e),
    }
}

/// The last of `thresholds` that is below `end`, if one is.
pub open spec fn last_below(thresholds: Seq<u8>, end: u8) -> Option<u8>
    decreases thresholds.len(),
{
    if thresholds.len() == 0 {
        None
    } else if thresholds.last() < end {
        Some(thresholds.last())
    } else {
        last_below(thresholds.drop_last(), end)
    }
}

/// A profile just created is found as the current profile: the first profile with its
/// name is the one added last.
pub proof fn lemma_created_profile_is_current(profiles: Seq<Profile>, created: Profile, name: Seq<char>)
    requires
        first_position(profile_names(profiles), name) is None,
        created.name@ == name,
    ensures
        first_position(profile_names(profiles.push(created)), name) == Some(profiles.len() as int),
{
    let all = profile_names(profiles.push(created));
    let n = profiles.len() as int;
    assert(all[n] == name);
    assert forall|j: int| 0 <= j < n implies all[j] != name by {
        assert(all[j] == profile_names(profiles)[j]);
    }
    let k = choose|k: int| 0 <= k < all.len() && all[k] == name && forall|j: int| 0 <= j < k ==> all[j] != name;
    assert(0 <= n < all.len() && all[n] == name && forall|j: int| 0 <= j < n ==> all[j] != name);
    if k < n {
        assert(all[k] != name);
    }
}

/// The threshold `last_below` finds is one of the thresholds and is below `end`.
pub proof fn lemma_last_below(thresholds: Seq<u8>, end: u8)
    ensures
        last_below(thresholds, end) matches Some(t) ==> t < end && thresholds.contains(t),
    decreases thresholds.len(),
{
    if thresholds.len() > 0 {
        if thresholds.last() >= end {
            lemma_last_below(thresholds.drop_last(), end);
            if last_below(thresholds, end) is Some {
                let t = last_below(thresholds, end)->0;
                let k = choose|k: int| 0 <= k < thresholds.drop_last().len() && thresholds.drop_last()[k] == t;
                assert(thresholds[k] == t);
            }
        } else {
            assert(thresholds[thresholds.len() - 1] == thresholds.last());
        }
    }
}

/// Keeps the start threshold below the end threshold: when it is not, it becomes the last
/// available start threshold below the end threshold, and stays as it is when none is.
pub fn fix_start_threshold(settings: &mut BatterySettings, available_starts: &Vec<u8>)
    ensures
        final(settings).control_enabled == old(settings).control_enabled,
        final(settings).charge_end_threshold == old(settings).charge_end_threshold,
        final(settings).charge_start_threshold == if old(settings).charge_start_threshold
            < old(settings).charge_end_threshold {
            old(settings).charge_start_threshold
        } else {
            match last_below(available_starts@, old(settings).charge_end_threshold) {
                Some(t) => t,
                None => old(settings).charge_start_threshold,
            }
        },
        old(settings).charge_start_threshold < old(settings).charge_end_threshold || last_below(
            available_starts@,
            old(settings).charge_end_threshold,
        ) is Some ==> final(settings).charge_start_threshold < final(settings).charge_end_threshold,
{
    proof {
        lemma_last_below(available_starts@, settings.charge_end_threshold);
    }
    if settings.charge_start_threshold >= settings.charge_end_threshold {
        let end = settings.charge_end_threshold;
        let mut i = available_starts.len();
        assert(available_starts@.take(i as int) =~= available_starts@);
        while i > 0
            invariant
                i <= available_starts@.len(),
                *settings == *old(settings),
                end == old(settings).charge_end_threshold,
                old(settings).charge_start_threshold >= end,
                last_below(available_starts@, end) == last_below(available_starts@.take(i as int), end),
            decreases i,
        {
            let t = available_starts[i - 1];
            let ghost prefix = available_starts@.take(i as int);
            assert(prefix.drop_last() =~= available_starts@.take(i - 1));
            if t < end {
                assert(prefix.last() == t);
                settings.charge_start_threshold = t;
                return;
            }
            i = i - 1;
        }
    }
}

/// `o` when it holds a value, else `Some(fallback)`.
pub open spec fn or_text(o: Option<String>, fallback: Seq<char>) -> Option<Seq<char>> {
    match o {
        Some(s) => Some(s@),
        None => Some(fallback),
    }
}

/// The view of an optional string.
pub open spec fn text_view(o: Option<String>) -> Option<Seq<char>> {
    match o {
        Some(s) => Some(s@),
        None => None,
    }
}

fn text_or(o: &Option<String>, fallback: &str) -> (r: Option<String>)
    ensures
        text_view(r) == or_text(*o, fallback@),
{
    match o {
        Some(s) => Some(s.clone()),
        None => Some(String::from_str(fallback)),
    }
}

/// What the CPU tuning page puts into the profile it shows: each control that the CPU
/// offers takes the profile's value, or else its default (the AMD P-state "active", the
/// governor "schedutil", the preference "balance_performance", the hardware frequency
/// limits, boost and SMT on). The governor and the preference are shown only when the CPU
/// lists choices for them (`governors_listed`, `epp_listed`). Other settings stay.
pub fn fill_shown_cpu_settings(
    settings: &mut CpuSettings,
    caps: &CpuCapabilities,
    governors_listed: bool,
    epp_listed: bool,
    hw_min_freq: u64,
    hw_max_freq: u64,
)
    ensures
        text_view(final(settings).amd_pstate_status) == if caps.has_amd_pstate {
            or_text(old(settings).amd_pstate_status, "active"@)
        } else {
            text_view(old(settings).amd_pstate_status)
        },
        text_view(final(settings).governor) == if caps.has_scaling_governor && governors_listed {
            or_text(old(settings).governor, "schedutil"@)
        } else {
            text_view(old(settings).governor)
        },
        text_view(final(settings).energy_performance_preference) == if caps.has_energy_performance_preference
            && epp_listed {
            or_text(old(settings).energy_performance_preference, "balance_performance"@)
        } else {
            text_view(old(settings).energy_performance_preference)
        },
        final(settings).min_frequency == if caps.has_scaling_min_freq && caps.has_scaling_max_freq {
            Some(
                match old(settings).min_frequency {
                    Some(f) => f,
                    None => hw_min_freq,
                },
            )
        } else {
            old(settings).min_frequency
        },
        final(settings).max_frequency == if caps.has_scaling_min_freq && caps.has_scaling_max_freq {
            Some(
                match old(settings).max_frequency {
                    Some(f) => f,
                    None => hw_max_freq,
                },
            )
        } else {
            old(settings).max_frequency
        },
        final(settings).boost == if caps.has_boost {
            Some(
                match old(settings).boost {
                    Some(b) => b,
                    None => true,
                },
            )
        } else {
            old(settings).boost
        },
        final(settings).smt == if caps.has_smt {
            Some(
                match old(settings).smt {
                    Some(b) => b,
                    None => true,
                },
            )
        } else {
            old(settings).smt
        },
        final(settings).performance_profile == old(settings).performance_profile,
        final(settings).tdp_profile == old(settings).tdp_profile,
        final(settings).tdp == old(settings).tdp,
{
    if caps.has_amd_pstate {
        settings.amd_pstate_status = text_or(&settings.amd_pstate_status, "active");
    }
    if caps.has_scaling_governor && governors_listed {
        settings.governor = text_or(&settings.governor, "schedutil");
    }
    if caps.has_energy_performance_preference && epp_listed {
        settings.energy_performance_preference = text_or(
            &settings.energy_performance_preference,
            "balance_performance",
        );
    }
    if caps.has_scaling_min_freq && caps.has_scaling_max_freq {
        settings.min_frequency = Some(
            match settings.min_frequency {
                Some(f) => f,
                None => hw_min_freq,
            },
        );
        settings.max_frequency = Some(
            match settings.max_frequency {
                Some(f) => f,
                None => hw_max_freq,
            },
        );
    }
    if caps.has_boost {
        settings.boost = Some(
            match settings.boost {
                Some(b) => b,
                None => true,
            },
        );
    }
    if caps.has_smt {
        settings.smt = Some(
            match settings.smt {
                Some(b) => b,
                None => true,
            },
        );
    }
}

/// The sections of the statistics page, in the order they are shown.
#[derive(Debug, Clone, Copy, PartialEq, Eq, Structural)]
pub enum StatisticsSection {
    SystemInfo,
    Cpu,
    Gpu,
    Battery,
    Wifi,
    Storage,
    Fans,
}

/// `seq![x]` when `shown`, else nothing.
pub open spec fn if_shown(shown: bool, x: StatisticsSection) -> Seq<StatisticsSection> {
    if shown {
        seq![x]
    } else {
        Seq::empty()
    }
}

/// The sections the statistics page shows: system information, CPU, GPU, battery, Wi-Fi,
/// storage and fans, in that order, each only when it is switched on.
pub open spec fn shown_sections(s: StatisticsSections) -> Seq<StatisticsSection> {
    if_shown(s.show_system_info, StatisticsSection::SystemInfo) + if_shown(s.show_cpu, StatisticsSection::Cpu)
        + if_shown(s.show_gpu, StatisticsSection::Gpu) + if_shown(s.show_battery, StatisticsSection::Battery)
        + if_shown(s.show_wifi, StatisticsSection::Wifi) + if_shown(s.show_storage, StatisticsSection::Storage)
        + if_shown(s.show_fans, StatisticsSection::Fans)
}

fn push_if(v: &mut Vec<StatisticsSection>, shown: bool, x: StatisticsSection)
    ensures
        final(v)@ == old(v)@ + if_shown(shown, x),
{
    if shown {
        v.push(x);
    }
    assert(v@ =~= old(v)@ + if_shown(shown, x));
}

/// The sections the statistics page shows (see `shown_sections`).
pub fn visible_sections(s: &StatisticsSections) -> (r: Vec<StatisticsSection>)
    ensures
        r@ == shown_sections(*s),
{
    let mut v: Vec<StatisticsSection> = Vec::new();
    push_if(&mut v, s.show_system_info, StatisticsSection::SystemInfo);
    push_if(&mut v, s.show_cpu, StatisticsSection::Cpu);
    push_if(&mut v, s.show_gpu, StatisticsSection::Gpu);
    push_if(&mut v, s.show_battery, StatisticsSection::Battery);
    push_if(&mut v, s.show_wifi, StatisticsSection::Wifi);
    push_if(&mut v, s.show_storage, StatisticsSection::Storage);
    push_if(&mut v, s.show_fans, StatisticsSection::Fans);
    assert(v@ =~= shown_sections(*s));
    v
}

/// How a fan's speed reads: the value and " RPM" when it is a speed, else the value and
/// "%".
pub open spec fn fan_speed_text(value: u32, is_rpm: bool) -> Seq<char> {
    decimal(value as nat) + if is_rpm {
        " RPM"@
    } else {
        "%"@
    }
}

/// The label of a fan's speed (see `fan_speed_text`).
pub fn fan_speed_label(value: u32, is_rpm: bool) -> (r: String)
    ensures
        r@ == fan_speed_text(value, is_rpm),
{
    let mut s = decimal_string(value as u64);
    if is_rpm {
        s.append(" RPM");
    } else {
        s.append("%");
    }
    s
}

/// The position of a theme in the settings page's theme list: Auto, Light, Dark.
pub open spec fn theme_position(theme: Theme) -> u32 {
    match theme {
        Theme::Auto => 0,
        Theme::Light => 1,
        Theme::Dark => 2,
    }
}

/// The theme chosen at position `idx` of the theme list; Auto past the list.
pub open spec fn theme_at(idx: u32) -> Theme {
    if idx == 1 {
        Theme::Light
    } else if idx == 2 {
        Theme::Dark
    } else {
        Theme::Auto
    }
}

/// The position of `theme` in the theme list (see `theme_position`).
pub fn theme_index(theme: Theme) -> (r: u32)
    ensures
        r == theme_position(theme),
{
    match theme {
        Theme::Auto => 0,
        Theme::Light => 1,
        Theme::Dark => 2,
    }
}

/// The theme chosen at position `idx` of the theme list (see `theme_at`).
pub fn theme_for_index(idx: u32) -> (r: Theme)
    ensures
        r == theme_at(idx),
{
    if idx == 1 {
        Theme::Light
    } else if idx == 2 {
        Theme::Dark
    } else {
        Theme::Auto
    }
}

/// A theme shown in the list and chosen again is the same theme, and a position of the
/// list chosen is shown at that position.
pub proof fn lemma_theme_index_round_trip(theme: Theme, idx: u32)
    ensures
        theme_at(theme_position(theme)) == theme,
        idx < 3 ==> theme_position(theme_at(idx)) == idx,
{
}

/// The position of the CPU scheduler `name` in the scheduler list: 0 for "CFS", else 1
/// (EEVDF).
pub open spec fn scheduler_position(name: Seq<char>) -> u32 {
    if name == "CFS"@ {
        0
    } else {
        1
    }
}

/// The CPU scheduler chosen at position `idx` of the scheduler list: "CFS" at 0, else
/// "EEVDF".
pub open spec fn scheduler_at(idx: u32) -> Seq<char> {
    if idx == 0 {
        "CFS"@
    } else {
        "EEVDF"@
    }
}

/// The position of the CPU scheduler `name` in the scheduler list (see
/// `scheduler_position`).
pub fn scheduler_index(name: &str) -> (r: u32)
    ensures
        r == scheduler_position(name@),
{
    if crate::battery_control::str_equal(name, "CFS") {
        0
    } else {
        1
    }
}

/// The CPU scheduler chosen at position `idx` of the scheduler list (see `scheduler_at`).
pub fn scheduler_for_index(idx: u32) -> (r: String)
    ensures
        r@ == scheduler_at(idx),
{
    if idx == 0 {
        String::from_str("CFS")
    } else {
        String::from_str("EEVDF")
    }
}

/// A position of the scheduler list chosen is shown at that position, and the scheduler
/// at a position, chosen again, is the same.
pub proof fn lemma_scheduler_index_round_trip(idx: u32)
    ensures
        idx < 2 ==> scheduler_position(scheduler_at(idx)) == idx,
        scheduler_at(scheduler_position(scheduler_at(idx))) == scheduler_at(idx),
{
    reveal_strlit("CFS");
    reveal_strlit("EEVDF");
    assert("CFS"@ != "EEVDF"@) by {
        assert("CFS"@[0] != "EEVDF"@[0]);
    }
}

/// How a fan reads on the statistics page when only its speed value is known: a value
/// above 200 is taken for a speed in RPM, any other for a percentage (see
/// `fan_speed_text`), followed by " - " and the temperature in °C when it was read.
pub open spec fn fan_text(value: u32, temp: Option<u32>) -> Seq<char> {
    fan_speed_text(value, value > 200) + match temp {
        Some(t) => " - "@ + decimal(t as nat) + "°C"@,
        None => Seq::empty(),
    }
}

/// The label of a fan on the statistics page (see `fan_text`).
pub fn fan_label(value: u32, temp: Option<u32>) -> (r: String)
    ensures
        r@ == fan_text(value, temp),
{
    let mut s = fan_speed_label(value, value > 200);
    match temp {
        Some(t) => {
            s.append(" - ");
            let ts = decimal_string(t as u64);
            s.append(ts.as_str());
            s.append("°C");
        },
        None => {},
    }
    assert(s@ =~= fan_text(value, temp));
    s
}

} // verus!
