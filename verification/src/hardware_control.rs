use vstd::prelude::*;
use crate::errors::{ControlError, KeyboardEffect};
use crate::types::{
    BatterySettings, FanCurve, FanSettings, KeyboardMode, KeyboardSettings, Profile, ScreenSettings,
};
use crate::battery_control::{BatteryControl, SysfsWrite, battery_dir, str_equal};
use crate::tuxedo_io::{TuxedoIo, WriteRequest, ReadRequest, IoError, HardwareInterface};
use crate::fan_curve::copy_curve;
use crate::text::{decimal, decimal_string};

verus! {

/// A step of applying a profile, in the order the steps are taken.
#[derive(Debug)]
pub enum ProfileStep {
    SetGovernor(String),
    SetTdpProfile(String),
    SetAmdPstateStatus(String),
    SetEnergyPerformancePreference(String),
    SetFrequencyLimits(u64, u64),
    SetBoost(bool),
    SetSmt(bool),
    /// Apply the profile's keyboard settings.
    ApplyKeyboard,
    /// Apply the profile's screen settings.
    ApplyScreen,
    /// Apply the profile's fan settings.
    ApplyFans,
}

/// The governor step of a profile, if it sets a governor.
pub open spec fn governor_step(c: crate::types::CpuSettings) -> Seq<ProfileStep> {
    match c.governor {
        Some(v) => seq![ProfileStep::SetGovernor(v)],
        None => Seq::empty(),
    }
}

/// The TDP profile step of a profile, if it sets a TDP profile.
pub open spec fn tdp_step(c: crate::types::CpuSettings) -> Seq<ProfileStep> {
    match c.tdp_profile {
        Some(v) => seq![ProfileStep::SetTdpProfile(v)],
        None => Seq::empty(),
    }
}

/// The AMD P-state step of a profile, if it sets a status.
pub open spec fn pstate_step(c: crate::types::CpuSettings) -> Seq<ProfileStep> {
    match c.amd_pstate_status {
        Some(v) => seq![ProfileStep::SetAmdPstateStatus(v)],
        None => Seq::empty(),
    }
}

/// The energy performance preference step of a profile, if it sets one.
pub open spec fn epp_step(c: crate::types::CpuSettings) -> Seq<ProfileStep> {
    match c.energy_performance_preference {
        Some(v) => seq![ProfileStep::SetEnergyPerformancePreference(v)],
        None => Seq::empty(),
    }
}

/// The frequency step of a profile, if it sets both limits.
pub open spec fn frequency_step(c: crate::types::CpuSettings) -> Seq<ProfileStep> {
    match (c.min_frequency, c.max_frequency) {
        (Some(min), Some(max)) => seq![ProfileStep::SetFrequencyLimits(min, max)],
        _ => Seq::empty(),
    }
}

/// The boost step of a profile, if it sets boost.
pub open spec fn boost_step(c: crate::types::CpuSettings) -> Seq<ProfileStep> {
    match c.boost {
        Some(b) => seq![ProfileStep::SetBoost(b)],
        None => Seq::empty(),
    }
}

/// The SMT step of a profile, if it sets SMT.
pub open spec fn smt_step(c: crate::types::CpuSettings) -> Seq<ProfileStep> {
    match c.smt {
        Some(b) => seq![ProfileStep::SetSmt(b)],
        None => Seq::empty(),
    }
}

/// The steps of applying `p`: governor, TDP profile, AMD P-state status, energy
/// performance preference, frequency limits (when both are set), boost and SMT, each when
/// the profile sets it; then keyboard, screen and fans.
pub open spec fn profile_steps(p: Profile) -> Seq<ProfileStep> {
    let c = p.cpu_settings;
    governor_step(c) + tdp_step(c) + pstate_step(c) + epp_step(c) + frequency_step(c) + boost_step(c)
        + smt_step(c) + seq![ProfileStep::ApplyKeyboard, ProfileStep::ApplyScreen, ProfileStep::ApplyFans]
}

fn push_steps_of(r: &mut Vec<ProfileStep>, steps: Vec<ProfileStep>)
    ensures
        final(r)@ == old(r)@ + steps@,
{
    let mut steps = steps;
    r.append(&mut steps);
}

fn cpu_string_steps(c: &crate::types::CpuSettings) -> (r: Vec<ProfileStep>)
    ensures
        r@ == governor_step(*c) + tdp_step(*c) + pstate_step(*c) + epp_step(*c),
{
    let mut r: Vec<ProfileStep> = Vec::new();
    if let Some(g) = &c.governor {
        r.push(ProfileStep::SetGovernor(g.clone()));
    }
    let ghost r1 = r@;
    assert(r1 =~= governor_step(*c));
    if let Some(t) = &c.tdp_profile {
        r.push(ProfileStep::SetTdpProfile(t.clone()));
    }
    let ghost r2 = r@;
    assert(r2 =~= r1 + tdp_step(*c));
    if let Some(s) = &c.amd_pstate_status {
        r.push(ProfileStep::SetAmdPstateStatus(s.clone()));
    }
    let ghost r3 = r@;
    assert(r3 =~= r2 + pstate_step(*c));
    if let Some(e) = &c.energy_performance_preference {
        r.push(ProfileStep::SetEnergyPerformancePreference(e.clone()));
    }
    assert(r@ =~= r3 + epp_step(*c));
    r
}

fn cpu_value_steps(c: &crate::types::CpuSettings) -> (r: Vec<ProfileStep>)
    ensures
        r@ == frequency_step(*c) + boost_step(*c) + smt_step(*c),
{
    let mut r: Vec<ProfileStep> = Vec::new();
    match (c.min_frequency, c.max_frequency) {
        (Some(min), Some(max)) => r.push(ProfileStep::SetFrequencyLimits(min, max)),
        _ => {},
    }
    let ghost r1 = r@;
    assert(r1 =~= frequency_step(*c));
    if let Some(b) = c.boost {
        r.push(ProfileStep::SetBoost(b));
    }
    let ghost r2 = r@;
    assert(r2 =~= r1 + boost_step(*c));
    if let Some(s) = c.smt {
        r.push(ProfileStep::SetSmt(s));
    }
    assert(r@ =~= r2 + smt_step(*c));
    r
}

/// The steps of applying a profile, in order; they stop at the first that fails.
pub fn apply_profile(profile: &Profile) -> (r: Vec<ProfileStep>)
    ensures
        r@ == profile_steps(*profile),
{
    let c = &profile.cpu_settings;
    let mut r = cpu_string_steps(c);
    let ghost a = r@;
    let v = cpu_value_steps(c);
    let ghost b = v@;
    push_steps_of(&mut r, v);
    let ghost ab = r@;
    r.push(ProfileStep::ApplyKeyboard);
    r.push(ProfileStep::ApplyScreen);
    r.push(ProfileStep::ApplyFans);
    proof {
        let tail = seq![ProfileStep::ApplyKeyboard, ProfileStep::ApplyScreen, ProfileStep::ApplyFans];
        assert(r@ =~= ab + tail);
        let g = governor_step(*c);
        let t = tdp_step(*c);
        let p = pstate_step(*c);
        let e = epp_step(*c);
        let f = frequency_step(*c);
        let bo = boost_step(*c);
        let sm = smt_step(*c);
        assert(g + t + p + e + f + bo + sm + tail =~= (g + t + p + e) + (f + bo + sm) + tail);
    }
    r
}

fn copy_step(step: &ProfileStep) -> (r: ProfileStep)
    ensures
        r == *step,
{
    match step {
        ProfileStep::SetGovernor(g) => ProfileStep::SetGovernor(g.clone()),
        ProfileStep::SetTdpProfile(t) => ProfileStep::SetTdpProfile(t.clone()),
        ProfileStep::SetAmdPstateStatus(s) => ProfileStep::SetAmdPstateStatus(s.clone()),
        ProfileStep::SetEnergyPerformancePreference(e) => ProfileStep::SetEnergyPerformancePreference(e.clone()),
        ProfileStep::SetFrequencyLimits(min, max) => ProfileStep::SetFrequencyLimits(*min, *max),
        ProfileStep::SetBoost(b) => ProfileStep::SetBoost(*b),
        ProfileStep::SetSmt(b) => ProfileStep::SetSmt(*b),
        ProfileStep::ApplyKeyboard => ProfileStep::ApplyKeyboard,
        ProfileStep::ApplyScreen => ProfileStep::ApplyScreen,
        ProfileStep::ApplyFans => ProfileStep::ApplyFans,
    }
}

/// A profile being applied: its steps are taken in order, and the first step that fails
/// ends the run; the steps already taken stay applied.
pub struct ProfileRun {
    steps: Vec<ProfileStep>,
    done: usize,
    failed: bool,
}

impl ProfileRun {
    /// The steps of the run.
    pub closed spec fn steps(&self) -> Seq<ProfileStep> {
        self.steps@
    }

    /// How many steps have succeeded.
    pub closed spec fn done(&self) -> int {
        self.done as int
    }

    /// Whether a step has failed.
    pub closed spec fn failed(&self) -> bool {
        self.failed
    }

    #[verifier::type_invariant]
    spec fn counts_within_steps(&self) -> bool {
        self.done <= self.steps@.len()
    }

    /// The run of the steps of `profile` (see `apply_profile`), none taken yet.
    pub fn new(profile: &Profile) -> (r: Self)
        ensures
            r.steps() == profile_steps(*profile),
            r.done() == 0,
            !r.failed(),
    {
        ProfileRun { steps: apply_profile(profile), done: 0, failed: false }
    }

    /// The step to take next: the first step not taken yet; none once a step has failed or
    /// every step has succeeded.
    pub fn next_step(&self) -> (r: Option<ProfileStep>)
        ensures
            self.failed() || self.done() >= self.steps().len() ==> r is None,
            !self.failed() && self.done() < self.steps().len() ==> r == Some(self.steps()[self.done()]),
    {
        proof {
            use_type_invariant(self);
        }
        if self.failed || self.done >= self.steps.len() {
            None
        } else {
            Some(copy_step(&self.steps[self.done]))
        }
    }

    /// Records how the step handed out by `next_step` went: a success moves on to the
    /// next step, a failure ends the run. Once the run has ended nothing changes.
    pub fn step_done(&mut self, succeeded: bool)
        ensures
            final(self).steps() == old(self).steps(),
            !old(self).failed() && old(self).done() < old(self).steps().len() ==> {
                &&& succeeded ==> final(self).done() == old(self).done() + 1 && !final(self).failed()
                &&& !succeeded ==> final(self).done() == old(self).done() && final(self).failed()
            },
            old(self).failed() || old(self).done() >= old(self).steps().len() ==> final(self).done()
                == old(self).done() && final(self).failed() == old(self).failed(),
    {
        proof {
            use_type_invariant(&*self);
        }
        if !self.failed && self.done < self.steps.len() {
            if succeeded {
                self.done = self.done + 1;
            } else {
                self.failed = true;
            }
        }
    }

    /// Whether every step has succeeded.
    pub fn succeeded(&self) -> (r: bool)
        ensures
            r == (!self.failed() && self.done() == self.steps().len()),
    {
        proof {
            use_type_invariant(self);
        }
        !self.failed && self.done == self.steps.len()
    }
}

/// Whether `status` is a status the AMD P-state driver takes: passive, active or guided.
pub open spec fn valid_amd_pstate_status(status: Seq<char>) -> bool {
    status == "passive"@ || status == "active"@ || status == "guided"@
}

/// The file of the AMD P-state status.
pub open spec fn amd_pstate_status_path() -> Seq<char> {
    "/sys/devices/system/cpu/amd_pstate/status"@
}

/// The write that sets the AMD P-state status: refused when the driver is absent, then
/// when the status is not passive, active or guided.
pub fn set_amd_pstate_status(driver_present: bool, status: &str) -> (r: Result<SysfsWrite, ControlError>)
    ensures
        !driver_present ==> (r matches Err(e) && e == ControlError::AmdPstateUnavailable),
        driver_present && !valid_amd_pstate_status(status@) ==> (r matches Err(e) && e
            == ControlError::InvalidAmdPstateStatus),
        driver_present && valid_amd_pstate_status(status@) ==> (r matches Ok(w) && w.path@
            == amd_pstate_status_path() && w.content@ == status@),
{
    if !driver_present {
        return Err(ControlError::AmdPstateUnavailable);
    }
    if !str_equal(status, "passive") && !str_equal(status, "active") && !str_equal(status, "guided") {
        return Err(ControlError::InvalidAmdPstateStatus);
    }
    Ok(SysfsWrite {
        path: String::from_str("/sys/devices/system/cpu/amd_pstate/status"),
        content: String::from_str(status),
    })
}

/// Whether `epp` is an energy performance preference the kernel takes.
pub open spec fn valid_epp(epp: Seq<char>) -> bool {
    ||| epp == "performance"@
    ||| epp == "balance_performance"@
    ||| epp == "balance_power"@
    ||| epp == "power"@
    ||| epp == "default"@
    ||| epp == "balance-performance"@
    ||| epp == "balance-power"@
}

/// Whether `epp` is an energy performance preference the kernel takes.
pub fn is_valid_epp(epp: &str) -> (r: bool)
    ensures
        r == valid_epp(epp@),
{
    str_equal(epp, "performance") || str_equal(epp, "balance_performance") || str_equal(
        epp,
        "balance_power",
    ) || str_equal(epp, "power") || str_equal(epp, "default") || str_equal(epp, "balance-performance")
        || str_equal(epp, "balance-power")
}

/// The path of file `leaf` of the cpufreq directory of CPU `cpu`.
pub open spec fn cpufreq_path(cpu: nat, leaf: Seq<char>) -> Seq<char> {
    "/sys/devices/system/cpu/cpu"@ + decimal(cpu) + "/cpufreq/"@ + leaf
}

/// The path of file `leaf` of the cpufreq directory of CPU `cpu`.
pub fn cpufreq_file(cpu: u32, leaf: &str) -> (r: String)
    ensures
        r@ == cpufreq_path(cpu as nat, leaf@),
{
    let mut p = String::from_str("/sys/devices/system/cpu/cpu");
    let n = decimal_string(cpu as u64);
    p.append(n.as_str());
    p.append("/cpufreq/");
    p.append(leaf);
    p
}

/// The paths of the energy performance preference files of the CPUs among the first `n`
/// whose file exists (`file_exists[i]` for CPU `i`).
pub open spec fn epp_paths(file_exists: Seq<bool>, n: int) -> Seq<Seq<char>>
    decreases n,
{
    if n <= 0 {
        Seq::empty()
    } else if file_exists[n - 1] {
        epp_paths(file_exists, n - 1).push(cpufreq_path((n - 1) as nat, "energy_performance_preference"@))
    } else {
        epp_paths(file_exists, n - 1)
    }
}

/// The paths of a list of writes.
pub open spec fn write_paths(ws: Seq<SysfsWrite>) -> Seq<Seq<char>> {
    ws.map_values(|w: SysfsWrite| w.path@)
}

/// The writes that set the energy performance preference of every CPU whose file exists
/// (`file_exists[i]` for CPU `i`), refused for a preference the kernel does not take.
pub fn set_energy_performance_preference(epp: &str, file_exists: &Vec<bool>) -> (r: Result<
    Vec<SysfsWrite>,
    ControlError,
>)
    requires
        file_exists.len() <= u32::MAX,
    ensures
        !valid_epp(epp@) ==> (r matches Err(e) && e == ControlError::InvalidEnergyPerformancePreference),
        valid_epp(epp@) ==> (r matches Ok(ws) && write_paths(ws@) == epp_paths(file_exists@, file_exists@.len() as int)
            && forall|k: int| 0 <= k < ws@.len() ==> (#[trigger] ws@[k]).content@ == epp@),
{
    if !is_valid_epp(epp) {
        return Err(ControlError::InvalidEnergyPerformancePreference);
    }
    let mut ws: Vec<SysfsWrite> = Vec::new();
    let n = file_exists.len();
    for i in 0..n
        invariant
            n == file_exists.len(),
            n <= u32::MAX,
            write_paths(ws@) == epp_paths(file_exists@, i as int),
            forall|k: int| 0 <= k < ws@.len() ==> (#[trigger] ws@[k]).content@ == epp@,
    {
        if file_exists[i] {
            let path = cpufreq_file(i as u32, "energy_performance_preference");
            let ghost old_ws = ws@;
            ws.push(SysfsWrite { path, content: String::from_str(epp) });
            assert(write_paths(ws@) =~= write_paths(old_ws).push(cpufreq_path(i as nat, "energy_performance_preference"@)));
        }
    }
    Ok(ws)
}

/// A device error as a control error.
pub open spec fn device_error<T>(r: Result<T, IoError>) -> Result<T, ControlError> {
    match r {
        Ok(v) => Ok(v),
        Err(e) => Err(ControlError::Device(e)),
    }
}

fn lift<T>(r: Result<T, IoError>) -> (out: Result<T, ControlError>)
    ensures
        out == device_error(r),
{
    match r {
        Ok(v) => Ok(v),
        Err(e) => Err(ControlError::Device(e)),
    }
}

/// The write that sets fan `fan_id` to `speed_percent` held at 100, on the device `io`
/// (`None` when `/dev/tuxedo_io` is absent), given the fan speed words read before (see
/// `TuxedoIo::current_speed_requests`).
pub fn set_fan_speed(io: Option<&TuxedoIo>, fan_id: u32, speed_percent: u32, current: &Vec<Option<i32>>) -> (r:
    Result<WriteRequest, ControlError>)
    requires
        io matches Some(d) && d.interface() == HardwareInterface::Clevo ==> fan_id < 3,
    ensures
        io is None ==> r == Err::<WriteRequest, ControlError>(ControlError::FanControlUnavailable),
        io matches Some(d) ==> r == device_error(
            d.fan_speed_write(
                fan_id,
                if speed_percent > 100 {
                    100
                } else {
                    speed_percent
                },
                current@,
            ),
        ),
{
    match io {
        None => Err(ControlError::FanControlUnavailable),
        Some(d) => {
            let speed = if speed_percent > 100 {
                100
            } else {
                speed_percent
            };
            lift(d.set_fan_speed(fan_id, speed, current))
        },
    }
}

/// The write that returns all fans to automatic control, on the device `io` (`None` when
/// `/dev/tuxedo_io` is absent); the fan number is not used.
pub fn set_fan_auto(io: Option<&TuxedoIo>, _fan_id: u32) -> (r: Result<WriteRequest, ControlError>)
    ensures
        io is None ==> r == Err::<WriteRequest, ControlError>(ControlError::FanControlUnavailable),
        io matches Some(d) ==> r == device_error(d.fan_auto_write()),
{
    match io {
        None => Err(ControlError::FanControlUnavailable),
        Some(d) => lift(d.set_fan_auto()),
    }
}

/// The write that switches the webcam on or off, on the device `io` (`None` when
/// `/dev/tuxedo_io` is absent).
pub fn set_webcam_state(io: Option<&TuxedoIo>, enabled: bool) -> (r: Result<WriteRequest, ControlError>)
    ensures
        io is None ==> r == Err::<WriteRequest, ControlError>(ControlError::WebcamControlUnavailable),
        io matches Some(d) ==> r == device_error(d.webcam_write(enabled)),
{
    match io {
        None => Err(ControlError::WebcamControlUnavailable),
        Some(d) => lift(d.set_webcam_state(enabled)),
    }
}

/// The read of the webcam switch on the device `io` (`None` when `/dev/tuxedo_io` is
/// absent); `TuxedoIo::webcam_state_from_raw` reads its answer.
pub fn get_webcam_state(io: Option<&TuxedoIo>) -> (r: Result<ReadRequest, ControlError>)
    ensures
        io is None ==> r == Err::<ReadRequest, ControlError>(ControlError::WebcamStateUnavailable),
        io matches Some(d) && d.interface() == HardwareInterface::Clevo ==> r == Ok::<ReadRequest, ControlError>(
            ReadRequest { magic: crate::tuxedo_io::MAGIC_READ_CL, seq: 0x13, pointer_sized: false },
        ),
        io matches Some(d) && d.interface() != HardwareInterface::Clevo ==> r == Err::<ReadRequest, ControlError>(
            ControlError::Device(IoError::WebcamUnsupported),
        ),
{
    match io {
        None => Err(ControlError::WebcamStateUnavailable),
        Some(d) => lift(d.webcam_request()),
    }
}

/// The first position of `name` among `names`.
pub open spec fn first_position(names: Seq<Seq<char>>, name: Seq<char>) -> Option<int> {
    if exists|i: int| 0 <= i < names.len() && names[i] == name {
        Some(choose|i: int| 0 <= i < names.len() && names[i] == name && forall|j: int| 0 <= j < i ==> names[j] != name)
    } else {
        None
    }
}

/// The position of `name` among `names`, if it is there.
pub fn position_of(names: &Vec<String>, name: &str) -> (r: Option<usize>)
    ensures
        r matches Some(i) ==> i < names.len(),
        r matches Some(i) ==> first_position(crate::types::string_views(names@), name@) == Some(i as int),
        r is None ==> first_position(crate::types::string_views(names@), name@) is None,
{
    let ghost views = crate::types::string_views(names@);
    let target = String::from_str(name);
    for i in 0..names.len()
        invariant
            views == crate::types::string_views(names@),
            target@ == name@,
            forall|j: int| 0 <= j < i ==> views[j] != name@,
    {
        if names[i] == target {
            proof {
                assert(views[i as int] == name@);
                let k = choose|k: int| 0 <= k < views.len() && views[k] == name@ && forall|j: int| 0 <= j < k ==> views[j] != name@;
                assert(0 <= i < views.len() && views[i as int] == name@ && forall|j: int| 0 <= j < i ==> views[j] != name@);
                if k < i {
                    assert(views[k] != name@);
                }
                if k > i {
                    assert(views[i as int] != name@);
                }
            }
            return Some(i);
        }
    }
    proof {
        assert(!(exists|i: int| 0 <= i < views.len() && views[i] == name@));
    }
    None
}

/// The write that selects the TDP profile named `profile_name` among the device's
/// `profiles` (see `TuxedoIo::get_available_profiles`), on the device `io` (`None` when
/// `/dev/tuxedo_io` is absent): refused when there is no device or no profile of that
/// name.
pub fn set_tdp_profile(io: Option<&TuxedoIo>, profiles: &Vec<String>, profile_name: &str) -> (r: Result<
    WriteRequest,
    ControlError,
>)
    requires
        profiles.len() < u32::MAX,
    ensures
        io is None ==> r == Err::<WriteRequest, ControlError>(ControlError::TdpProfilesUnavailable),
        io matches Some(d) ==> match first_position(crate::types::string_views(profiles@), profile_name@) {
            Some(i) => r == device_error(d.perf_profile_write(i as u32)),
            None => r == Err::<WriteRequest, ControlError>(ControlError::TdpProfileNotFound),
        },
{
    match io {
        None => Err(ControlError::TdpProfilesUnavailable),
        Some(d) => match position_of(profiles, profile_name) {
            Some(i) => lift(d.set_performance_profile(i as u32)),
            None => Err(ControlError::TdpProfileNotFound),
        },
    }
}

/// What applying battery settings does: the writes to make, in order, and then the
/// outcome when they all succeed.
pub struct BatteryPlan {
    pub writes: Vec<SysfsWrite>,
    pub outcome: Result<(), ControlError>,
}

/// The writes and outcome of applying battery settings with the battery control found
/// (`None` when no battery has charge control, which skips them): with control enabled,
/// the "Custom" charge type, then the start and end thresholds, stopping at a threshold
/// above 100; else the "Standard" charge type.
pub fn apply_battery_settings(settings: &BatterySettings, battery: Option<&BatteryControl>) -> (r: BatteryPlan)
    ensures
        battery is None ==> r.writes@.len() == 0 && r.outcome is Ok,
        battery matches Some(b) ==> {
            let dir = battery_dir(b.battery());
            let ws = r.writes@;
            if settings.control_enabled {
                &&& ws.len() >= 1
                &&& ws[0].path@ == dir + "/"@ + "charge_type"@ && ws[0].content@ == "Custom"@
                &&& if settings.charge_start_threshold > 100 {
                    ws.len() == 1 && r.outcome == Err::<(), ControlError>(ControlError::ThresholdOutOfRange)
                } else {
                    &&& ws.len() >= 2
                    &&& ws[1].path@ == dir + "/"@ + "charge_control_start_threshold"@
                    &&& ws[1].content@ == decimal(settings.charge_start_threshold as nat)
                    &&& if settings.charge_end_threshold > 100 {
                        ws.len() == 2 && r.outcome == Err::<(), ControlError>(ControlError::ThresholdOutOfRange)
                    } else {
                        &&& ws.len() == 3
                        &&& ws[2].path@ == dir + "/"@ + "charge_control_end_threshold"@
                        &&& ws[2].content@ == decimal(settings.charge_end_threshold as nat)
                        &&& r.outcome is Ok
                    }
                }
            } else {
                &&& ws.len() == 1
                &&& ws[0].path@ == dir + "/"@ + "charge_type"@ && ws[0].content@ == "Standard"@
                &&& r.outcome is Ok
            }
        },
{
    let mut writes: Vec<SysfsWrite> = Vec::new();
    let b = match battery {
        None => return BatteryPlan { writes, outcome: Ok(()) },
        Some(b) => b,
    };
    if settings.control_enabled {
        proof {
            reveal_strlit("Custom");
            reveal_strlit("Standard");
        }
        match b.set_charge_type("Custom") {
            Ok(w) => writes.push(w),
            Err(e) => return BatteryPlan { writes, outcome: Err(e) },
        }
        match b.set_charge_control_start_threshold(settings.charge_start_threshold) {
            Ok(w) => writes.push(w),
            Err(e) => return BatteryPlan { writes, outcome: Err(e) },
        }
        match b.set_charge_control_end_threshold(settings.charge_end_threshold) {
            Ok(w) => writes.push(w),
            Err(e) => return BatteryPlan { writes, outcome: Err(e) },
        }
        BatteryPlan { writes, outcome: Ok(()) }
    } else {
        proof {
            reveal_strlit("Custom");
            reveal_strlit("Standard");
        }
        match b.set_charge_type("Standard") {
            Ok(w) => writes.push(w),
            Err(e) => return BatteryPlan { writes, outcome: Err(e) },
        }
        BatteryPlan { writes, outcome: Ok(()) }
    }
}

/// A copy of the fan settings.
pub fn copy_fan_settings(s: &FanSettings) -> (r: FanSettings)
    ensures
        r.control_enabled == s.control_enabled,
        r.curves@.len() == s.curves@.len(),
        forall|i: int|
            0 <= i < s.curves@.len() ==> (#[trigger] r.curves@[i]).fan_id == s.curves@[i].fan_id
                && r.curves@[i].points@ == s.curves@[i].points@,
{
    let mut curves: Vec<FanCurve> = Vec::new();
    for i in 0..s.curves.len()
        invariant
            curves@.len() == i,
            forall|k: int|
                0 <= k < i ==> (#[trigger] curves@[k]).fan_id == s.curves@[k].fan_id
                    && curves@[k].points@ == s.curves@[k].points@,
    {
        curves.push(copy_curve(&s.curves[i]));
    }
    FanSettings { control_enabled: s.control_enabled, curves }
}

/// What applying fan settings does when `/dev/tuxedo_io` is present: the settings the fan
/// daemon is to follow (none when control is disabled), and whether the fans return to
/// automatic control.
pub struct FanSettingsPlan {
    pub daemon_settings: Option<FanSettings>,
    pub set_auto: bool,
}

/// What applying fan settings does: nothing without `/dev/tuxedo_io`; else the daemon
/// follows a copy of the settings when control is enabled, and otherwise stops and the fans
/// return to automatic control.
pub fn apply_fan_settings(settings: &FanSettings, io_available: bool) -> (r: Option<FanSettingsPlan>)
    ensures
        !io_available ==> r is None,
        io_available ==> (r matches Some(p) && p.set_auto == !settings.control_enabled
            && (settings.control_enabled ==> (p.daemon_settings matches Some(d) && d.control_enabled
            && d.curves@.len() == settings.curves@.len() && forall|i: int|
            0 <= i < settings.curves@.len() ==> (#[trigger] d.curves@[i]).fan_id == settings.curves@[i].fan_id
                && d.curves@[i].points@ == settings.curves@[i].points@))
            && (!settings.control_enabled ==> p.daemon_settings is None)),
{
    if !io_available {
        return None;
    }
    if settings.control_enabled {
        Some(FanSettingsPlan { daemon_settings: Some(copy_fan_settings(settings)), set_auto: false })
    } else {
        Some(FanSettingsPlan { daemon_settings: None, set_auto: true })
    }
}

/// The views of the paths and contents of a list of writes.
pub open spec fn write_pairs(ws: Seq<SysfsWrite>) -> Seq<(Seq<char>, Seq<char>)> {
    ws.map_values(|w: SysfsWrite| (w.path@, w.content@))
}

/// What a keyboard or screen operation does: the writes to make, in order, and then the
/// outcome when they all succeed.
pub struct WritePlan {
    pub writes: Vec<SysfsWrite>,
    pub outcome: Result<(), ControlError>,
}

/// The directories where a keyboard backlight is looked for, in order.
pub open spec fn keyboard_candidates() -> Seq<Seq<char>> {
    seq![
        "/sys/class/leds/rgb:kbd_backlight"@,
        "/sys/class/leds/tuxedo::kbd_backlight"@,
        "/sys/devices/platform/tuxedo_keyboard/leds/rgb:kbd_backlight"@,
        "/sys/class/leds/asus::kbd_backlight"@,
    ]
}

/// The directories where a keyboard backlight is looked for, in order; the first whose
/// `brightness` file exists is used.
pub fn keyboard_backlight_candidates() -> (r: Vec<String>)
    ensures
        crate::types::string_views(r@) == keyboard_candidates(),
{
    let r = vec![
        String::from_str("/sys/class/leds/rgb:kbd_backlight"),
        String::from_str("/sys/class/leds/tuxedo::kbd_backlight"),
        String::from_str("/sys/devices/platform/tuxedo_keyboard/leds/rgb:kbd_backlight"),
        String::from_str("/sys/class/leds/asus::kbd_backlight"),
    ];
    assert(crate::types::string_views(r@) =~= keyboard_candidates());
    r
}

/// The first position whose flag is set.
pub open spec fn first_set(flags: Seq<bool>) -> Option<int> {
    if exists|i: int| 0 <= i < flags.len() && flags[i] {
        Some(choose|i: int| 0 <= i < flags.len() && flags[i] && forall|j: int| 0 <= j < i ==> !flags[j])
    } else {
        None
    }
}

/// The first position whose flag is set, if any.
pub fn first_present(flags: &Vec<bool>) -> (r: Option<usize>)
    ensures
        r matches Some(i) ==> i < flags.len() && first_set(flags@) == Some(i as int),
        r is None ==> first_set(flags@) is None,
{
    for i in 0..flags.len()
        invariant
            forall|j: int| 0 <= j < i ==> !flags@[j],
    {
        if flags[i] {
            proof {
                assert(0 <= i < flags.len() && flags@[i as int] && forall|j: int| 0 <= j < i ==> !flags@[j]);
                let k = choose|k: int| 0 <= k < flags.len() && flags@[k] && forall|j: int| 0 <= j < k ==> !flags@[j];
                if k < i {
                    assert(!flags@[k]);
                }
                if k > i {
                    assert(!flags@[i as int]);
                }
            }
            return Some(i);
        }
    }
    None
}

/// The keyboard backlight directory: the first candidate whose `brightness` file exists
/// (`brightness_exists[i]` for candidate `i`).
pub fn find_keyboard_backlight_path(brightness_exists: &Vec<bool>) -> (r: Option<String>)
    requires
        brightness_exists.len() == 4,
    ensures
        match first_set(brightness_exists@) {
            Some(i) => r matches Some(p) && p@ == keyboard_candidates()[i],
            None => r is None,
        },
{
    let candidates = keyboard_backlight_candidates();
    match first_present(brightness_exists) {
        Some(i) => {
            assert(crate::types::string_views(candidates@).len() == 4);
            assert(candidates@.len() == 4);
            assert(crate::types::string_views(candidates@)[i as int] == candidates@[i as int]@);
            Some(candidates[i].clone())
        },
        None => None,
    }
}

/// The largest brightness of a backlight, from its `max_brightness` file (`None` when it
/// cannot be read): its trimmed number, else 255.
pub open spec fn max_brightness_value(content: Option<Seq<char>>) -> nat {
    match content {
        Some(c) => match crate::text::parse_unsigned(crate::text::trim(c), u32::MAX as nat) {
            Some(v) => v,
            None => 255,
        },
        None => 255,
    }
}

/// The view of an optional string.
pub open spec fn opt_view(o: Option<&str>) -> Option<Seq<char>> {
    match o {
        Some(c) => Some(c@),
        None => None,
    }
}

/// The largest brightness of a backlight, from its `max_brightness` file.
pub fn max_brightness(content: Option<&str>) -> (r: u32)
    ensures
        r == max_brightness_value(opt_view(content)),
{
    match content {
        Some(c) => {
            let v = crate::text::chars_of(c);
            let (a, b) = crate::text::trim_range(&v, 0, v.len());
            assert(v@.subrange(0, v@.len() as int) =~= v@);
            match crate::text::parse_u32(&v, a, b) {
                Some(x) => x,
                None => 255,
            }
        },
        None => 255,
    }
}

/// `percent` of the largest brightness `max`, rounded down.
pub open spec fn scaled(percent: nat, max: nat) -> nat {
    (percent * max) / 100
}

/// The colour as the `multi_intensity` file takes it: "r g b" in decimal.
pub open spec fn color_text(r: u8, g: u8, b: u8) -> Seq<char> {
    decimal(r as nat) + " "@ + decimal(g as nat) + " "@ + decimal(b as nat)
}

fn color_string(r: u8, g: u8, b: u8) -> (s: String)
    ensures
        s@ == color_text(r, g, b),
{
    let mut s = decimal_string(r as u64);
    s.append(" ");
    let gs = decimal_string(g as u64);
    s.append(gs.as_str());
    s.append(" ");
    let bs = decimal_string(b as u64);
    s.append(bs.as_str());
    s
}

/// The brightness (in %) a keyboard mode asks for.
pub open spec fn mode_brightness(mode: KeyboardMode) -> u8 {
    match mode {
        KeyboardMode::SingleColor { brightness, .. } => brightness,
        KeyboardMode::Breathe { brightness, .. } => brightness,
        KeyboardMode::Cycle { brightness, .. } => brightness,
        KeyboardMode::Dance { brightness, .. } => brightness,
        KeyboardMode::Flash { brightness, .. } => brightness,
        KeyboardMode::RandomColor { brightness, .. } => brightness,
        KeyboardMode::Tempo { brightness, .. } => brightness,
        KeyboardMode::Wave { brightness, .. } => brightness,
    }
}

/// The brightness (in %) a keyboard mode asks for.
pub fn keyboard_mode_brightness(mode: &KeyboardMode) -> (r: u8)
    ensures
        r == mode_brightness(*mode),
{
    match *mode {
        KeyboardMode::SingleColor { brightness, .. } => brightness,
        KeyboardMode::Breathe { brightness, .. } => brightness,
        KeyboardMode::Cycle { brightness, .. } => brightness,
        KeyboardMode::Dance { brightness, .. } => brightness,
        KeyboardMode::Flash { brightness, .. } => brightness,
        KeyboardMode::RandomColor { brightness, .. } => brightness,
        KeyboardMode::Tempo { brightness, .. } => brightness,
        KeyboardMode::Wave { brightness, .. } => brightness,
    }
}

/// The name the `mode` file takes for an effect, if the effect has one.
pub open spec fn mode_name(mode: KeyboardMode) -> Option<Seq<char>> {
    match mode {
        KeyboardMode::SingleColor { .. } => None,
        KeyboardMode::Breathe { .. } => Some("breathing"@),
        KeyboardMode::Cycle { .. } => Some("cycle"@),
        KeyboardMode::Dance { .. } => Some("dance"@),
        KeyboardMode::Flash { .. } => Some("flash"@),
        KeyboardMode::RandomColor { .. } => Some("random"@),
        KeyboardMode::Tempo { .. } => Some("tempo"@),
        KeyboardMode::Wave { .. } => Some("wave"@),
    }
}

/// The colour an effect sets, if it sets one.
pub open spec fn mode_color(mode: KeyboardMode) -> Option<(u8, u8, u8)> {
    match mode {
        KeyboardMode::SingleColor { r, g, b, .. } => Some((r, g, b)),
        KeyboardMode::Breathe { r, g, b, .. } => Some((r, g, b)),
        KeyboardMode::Flash { r, g, b, .. } => Some((r, g, b)),
        _ => None,
    }
}

/// The effect of a keyboard mode without a colour of its own (Wave for the others, which
/// never need it).
pub open spec fn effect_of(mode: KeyboardMode) -> KeyboardEffect {
    match mode {
        KeyboardMode::Cycle { .. } => KeyboardEffect::Cycle,
        KeyboardMode::Dance { .. } => KeyboardEffect::Dance,
        KeyboardMode::RandomColor { .. } => KeyboardEffect::RandomColor,
        KeyboardMode::Tempo { .. } => KeyboardEffect::Tempo,
        _ => KeyboardEffect::Wave,
    }
}

fn keyboard_effect(mode: &KeyboardMode) -> (r: KeyboardEffect)
    ensures
        r == effect_of(*mode),
{
    match *mode {
        KeyboardMode::Cycle { .. } => KeyboardEffect::Cycle,
        KeyboardMode::Dance { .. } => KeyboardEffect::Dance,
        KeyboardMode::RandomColor { .. } => KeyboardEffect::RandomColor,
        KeyboardMode::Tempo { .. } => KeyboardEffect::Tempo,
        _ => KeyboardEffect::Wave,
    }
}

/// The writes and outcome of setting a keyboard effect on the backlight in `base`, given
/// whether its `multi_intensity` and `mode` files exist and its largest brightness: an
/// effect with a colour writes its mode name when the mode file exists, then needs the
/// colour file for its colour, then sets the brightness; an effect without a colour needs
/// the mode file for its name (refused with the effect otherwise), then sets the
/// brightness.
pub open spec fn mode_plan(
    base: Seq<char>,
    mode: KeyboardMode,
    has_multi_intensity: bool,
    has_mode: bool,
    max: nat,
) -> (Seq<(Seq<char>, Seq<char>)>, Result<(), ControlError>) {
    let bright = (base + "/brightness"@, decimal(scaled(mode_brightness(mode) as nat, max)));
    match mode_color(mode) {
        Some((r, g, b)) => {
            let named = match mode_name(mode) {
                Some(n) => if has_mode {
                    seq![(base + "/mode"@, n)]
                } else {
                    Seq::empty()
                },
                None => Seq::empty(),
            };
            if has_multi_intensity {
                (named + seq![(base + "/multi_intensity"@, color_text(r, g, b)), bright], Ok(()))
            } else {
                (named, Err(ControlError::RgbControlUnavailable))
            }
        },
        None => if has_mode {
            (seq![(base + "/mode"@, mode_name(mode)->0), bright], Ok(()))
        } else {
            (Seq::empty(), Err(ControlError::ModeNotSupported(effect_of(mode))))
        },
    }
}

/// Control of the keyboard backlight found in one of the candidate directories.
pub struct RgbKeyboardControl {
    base_path: String,
}

impl RgbKeyboardControl {
    /// The backlight's directory.
    pub closed spec fn base(&self) -> Seq<char> {
        self.base_path@
    }

    /// Control of the first candidate backlight whose `brightness` file exists
    /// (`brightness_exists[i]` for candidate `i`).
    pub fn new(brightness_exists: &Vec<bool>) -> (r: Result<Self, ControlError>)
        requires
            brightness_exists.len() == 4,
        ensures
            match first_set(brightness_exists@) {
                Some(i) => r matches Ok(k) && k.base() == keyboard_candidates()[i],
                None => r matches Err(e) && e == ControlError::KeyboardBacklightNotFound,
            },
    {
        match find_keyboard_backlight_path(brightness_exists) {
            Some(p) => Ok(RgbKeyboardControl { base_path: p }),
            None => Err(ControlError::KeyboardBacklightNotFound),
        }
    }

    /// Whether a candidate backlight exists.
    pub fn is_available(brightness_exists: &Vec<bool>) -> (r: bool)
        requires
            brightness_exists.len() == 4,
        ensures
            r == first_set(brightness_exists@) is Some,
    {
        first_present(brightness_exists).is_some()
    }

    fn file(&self, leaf: &str) -> (r: String)
        ensures
            r@ == self.base() + leaf@,
    {
        let mut p = self.base_path.clone();
        p.append(leaf);
        p
    }

    /// The write of a colour, which needs the `multi_intensity` file.
    pub fn set_color(&self, has_multi_intensity: bool, red: u8, green: u8, blue: u8) -> (r: Result<
        SysfsWrite,
        ControlError,
    >)
        ensures
            has_multi_intensity ==> (r matches Ok(w) && w.path@ == self.base() + "/multi_intensity"@
                && w.content@ == color_text(red, green, blue)),
            !has_multi_intensity ==> (r matches Err(e) && e == ControlError::RgbControlUnavailable),
    {
        if !has_multi_intensity {
            return Err(ControlError::RgbControlUnavailable);
        }
        Ok(SysfsWrite { path: self.file("/multi_intensity"), content: color_string(red, green, blue) })
    }

    /// The write of a brightness in %, scaled to the largest brightness `max`.
    pub fn set_brightness(&self, brightness: u8, max: u32) -> (r: SysfsWrite)
        requires
            brightness * max <= u32::MAX,
        ensures
            r.path@ == self.base() + "/brightness"@,
            r.content@ == decimal(scaled(brightness as nat, max as nat)),
    {
        let actual = ((brightness as u32) * max) / 100;
        SysfsWrite { path: self.file("/brightness"), content: decimal_string(actual as u64) }
    }

    /// The brightness in %, from the `brightness` file and the largest brightness.
    pub fn get_brightness(&self, current: &str, max: u32) -> (r: Result<u8, ControlError>)
        requires
            max > 0,
            crate::text::parse_unsigned(crate::text::trim(current@), u32::MAX as nat) matches Some(v) ==> v
                * 100 <= u32::MAX,
        ensures
            match crate::text::parse_unsigned(crate::text::trim(current@), u32::MAX as nat) {
                Some(v) => r == Ok::<u8, ControlError>(((v * 100) / (max as nat)) as u8),
                None => r == Err::<u8, ControlError>(ControlError::InvalidNumber),
            },
    {
        let v = crate::text::chars_of(current);
        let (a, b) = crate::text::trim_range(&v, 0, v.len());
        assert(v@.subrange(0, v@.len() as int) =~= v@);
        match crate::text::parse_u32(&v, a, b) {
            Some(c) => Ok(((c * 100) / max) as u8),
            None => Err(ControlError::InvalidNumber),
        }
    }

    /// The writes and outcome of setting a keyboard effect (see `mode_plan`).
    pub fn set_mode(&self, mode: &KeyboardMode, has_multi_intensity: bool, has_mode: bool, max: u32) -> (r:
        WritePlan)
        requires
            mode_brightness(*mode) * max <= u32::MAX,
        ensures
            write_pairs(r.writes@) == mode_plan(self.base(), *mode, has_multi_intensity, has_mode, max as nat).0,
            r.outcome == mode_plan(self.base(), *mode, has_multi_intensity, has_mode, max as nat).1,
    {
        let mut writes: Vec<SysfsWrite> = Vec::new();
        let (name, color, brightness): (Option<&str>, Option<(u8, u8, u8)>, u8) = match *mode {
            KeyboardMode::SingleColor { r, g, b, brightness } => (None, Some((r, g, b)), brightness),
            KeyboardMode::Breathe { r, g, b, brightness, .. } => (Some("breathing"), Some((r, g, b)), brightness),
            KeyboardMode::Flash { r, g, b, brightness, .. } => (Some("flash"), Some((r, g, b)), brightness),
            KeyboardMode::Wave { brightness, .. } => (Some("wave"), None, brightness),
            KeyboardMode::Cycle { brightness, .. } => (Some("cycle"), None, brightness),
            KeyboardMode::Dance { brightness, .. } => (Some("dance"), None, brightness),
            KeyboardMode::RandomColor { brightness, .. } => (Some("random"), None, brightness),
            KeyboardMode::Tempo { brightness, .. } => (Some("tempo"), None, brightness),
        };
        assert(opt_view(name) == mode_name(*mode));
        assert(color == mode_color(*mode));
        assert(brightness == mode_brightness(*mode));
        match color {
            Some((r, g, b)) => {
                if let Some(n) = name {
                    if has_mode {
                        writes.push(SysfsWrite { path: self.file("/mode"), content: String::from_str(n) });
                    }
                }
                let ghost named = write_pairs(writes@);
                match self.set_color(has_multi_intensity, r, g, b) {
                    Ok(w) => writes.push(w),
                    Err(e) => {
                        return WritePlan { writes, outcome: Err(e) };
                    },
                }
                writes.push(self.set_brightness(brightness, max));
                assert(write_pairs(writes@) =~= mode_plan(self.base(), *mode, has_multi_intensity, has_mode, max as nat).0);
                WritePlan { writes, outcome: Ok(()) }
            },
            None => {
                if !has_mode {
                    assert(write_pairs(writes@) =~= Seq::empty());
                    return WritePlan { writes, outcome: Err(ControlError::ModeNotSupported(keyboard_effect(mode))) };
                }
                let n = match name {
                    Some(n) => n,
                    None => "",
                };
                writes.push(SysfsWrite { path: self.file("/mode"), content: String::from_str(n) });
                writes.push(self.set_brightness(brightness, max));
                assert(write_pairs(writes@) =~= mode_plan(self.base(), *mode, has_multi_intensity, has_mode, max as nat).0);
                WritePlan { writes, outcome: Ok(()) }
            },
        }
    }
}


/// Whether `l` begins with `prefix`.
pub open spec fn begins_with(l: Seq<char>, prefix: Seq<char>) -> bool {
    prefix.len() <= l.len() && l.subrange(0, prefix.len() as int) == prefix
}

/// How many of `ls` begin with `prefix`.
pub open spec fn count_beginning_with(ls: Seq<Seq<char>>, prefix: Seq<char>) -> nat
    decreases ls.len(),
{
    if ls.len() == 0 {
        0
    } else {
        count_beginning_with(ls.drop_last(), prefix) + if begins_with(ls.last(), prefix) {
            1nat
        } else {
            0nat
        }
    }
}

/// The number of CPUs that `/proc/cpuinfo` lists: its lines that begin with "processor".
pub open spec fn processor_count(cpuinfo: Seq<char>) -> nat {
    count_beginning_with(crate::text::lines(cpuinfo), "processor"@)
}

/// The number of CPUs that the text of `/proc/cpuinfo` lists.
pub fn get_cpu_count(cpuinfo: &str) -> (r: u32)
    ensures
        r == processor_count(cpuinfo@) as u32,
{
    let v = crate::text::chars_of(cpuinfo);
    let ranges = crate::text::line_ranges(&v, 0, v.len());
    assert(v@.subrange(0, v@.len() as int) =~= v@);
    let prefix = crate::text::chars_of("processor");
    let ghost ls = crate::text::pieces(v@, ranges@);
    let mut count: usize = 0;
    for k in 0..ranges.len()
        invariant
            ls == crate::text::pieces(v@, ranges@),
            ls.len() == ranges@.len(),
            forall|j: int| 0 <= j < ranges.len() ==> 0 <= (#[trigger] ranges@[j]).0 <= ranges@[j].1 <= v.len(),
            count as nat == count_beginning_with(ls.take(k as int), prefix@),
            count <= k,
    {
        let (a, b) = ranges[k];
        let hit = crate::text::starts_with(&v, a, b, &prefix);
        proof {
            let l = ls[k as int];
            assert(l == v@.subrange(a as int, b as int));
            assert(ls.take(k + 1).drop_last() =~= ls.take(k as int));
            assert(ls.take(k + 1).last() == l);
            if prefix@.len() <= l.len() {
                assert(l.subrange(0, prefix@.len() as int) =~= v@.subrange(a as int, a + prefix@.len()));
            }
        }
        if hit {
            count = count + 1;
        }
    }
    assert(ls.take(ranges.len() as int) =~= ls);
    count as u32
}

/// The writes that set the scaling governor of each of the first `cpu_count` CPUs, in order.
pub fn set_cpu_governor(governor: &str, cpu_count: u32) -> (r: Vec<SysfsWrite>)
    ensures
        r@.len() == cpu_count,
        forall|k: int|
            0 <= k < cpu_count ==> (#[trigger] r@[k]).path@ == cpufreq_path(k as nat, "scaling_governor"@)
                && r@[k].content@ == governor@,
{
    let mut r: Vec<SysfsWrite> = Vec::new();
    for i in 0..cpu_count
        invariant
            r@.len() == i,
            forall|k: int|
                0 <= k < i ==> (#[trigger] r@[k]).path@ == cpufreq_path(k as nat, "scaling_governor"@)
                    && r@[k].content@ == governor@,
    {
        r.push(SysfsWrite { path: cpufreq_file(i, "scaling_governor"), content: String::from_str(governor) });
    }
    r
}

/// The writes that set the frequency limits (in kHz) of each of the first `cpu_count` CPUs:
/// for each CPU in order, its minimum and then its maximum. Refused when CPU 0 lacks either
/// limit file (`limits_present`).
pub fn set_cpu_frequency_limits(min_freq: u64, max_freq: u64, limits_present: bool, cpu_count: u32) -> (r:
    Result<Vec<SysfsWrite>, ControlError>)
    ensures
        !limits_present ==> (r matches Err(e) && e == ControlError::FrequencyControlUnavailable),
        limits_present ==> (r matches Ok(ws) && ws@.len() == 2 * cpu_count && forall|k: int|
            0 <= k < cpu_count ==> (#[trigger] ws@[2 * k]).path@ == cpufreq_path(k as nat, "scaling_min_freq"@)
                && ws@[2 * k].content@ == decimal(min_freq as nat) && ws@[2 * k + 1].path@ == cpufreq_path(
                k as nat,
                "scaling_max_freq"@,
            ) && ws@[2 * k + 1].content@ == decimal(max_freq as nat)),
{
    if !limits_present {
        return Err(ControlError::FrequencyControlUnavailable);
    }
    let mut r: Vec<SysfsWrite> = Vec::new();
    let mut i: u32 = 0;
    while i < cpu_count
        invariant
            i <= cpu_count,
            r@.len() == 2 * i,
            forall|k: int|
                0 <= k < i ==> (#[trigger] r@[2 * k]).path@ == cpufreq_path(k as nat, "scaling_min_freq"@)
                    && r@[2 * k].content@ == decimal(min_freq as nat) && r@[2 * k + 1].path@ == cpufreq_path(
                    k as nat,
                    "scaling_max_freq"@,
                ) && r@[2 * k + 1].content@ == decimal(max_freq as nat),
        decreases cpu_count - i,
    {
        let ghost before = r@;
        r.push(SysfsWrite { path: cpufreq_file(i, "scaling_min_freq"), content: decimal_string(min_freq) });
        r.push(SysfsWrite { path: cpufreq_file(i, "scaling_max_freq"), content: decimal_string(max_freq) });
        assert forall|k: int| 0 <= k < i + 1 implies (#[trigger] r@[2 * k]).path@ == cpufreq_path(
            k as nat,
            "scaling_min_freq"@,
        ) && r@[2 * k].content@ == decimal(min_freq as nat) && r@[2 * k + 1].path@ == cpufreq_path(
            k as nat,
            "scaling_max_freq"@,
        ) && r@[2 * k + 1].content@ == decimal(max_freq as nat) by {
            if k < i {
                assert(r@[2 * k] == before[2 * k]);
                assert(r@[2 * k + 1] == before[2 * k + 1]);
            }
        }
        i = i + 1;
    }
    Ok(r)
}

/// The write that turns CPU boost on or off: the AMD `boost` file (1 = on) when it
/// exists, else the Intel `no_turbo` file (0 = on); refused when neither exists.
pub fn set_cpu_boost(enabled: bool, amd_boost_present: bool, intel_no_turbo_present: bool) -> (r: Result<
    SysfsWrite,
    ControlError,
>)
    ensures
        amd_boost_present ==> (r matches Ok(w) && w.path@ == "/sys/devices/system/cpu/cpufreq/boost"@
            && w.content@ == (if enabled { "1"@ } else { "0"@ })),
        !amd_boost_present && intel_no_turbo_present ==> (r matches Ok(w) && w.path@
            == "/sys/devices/system/cpu/intel_pstate/no_turbo"@ && w.content@ == (if enabled {
            "0"@
        } else {
            "1"@
        })),
        !amd_boost_present && !intel_no_turbo_present ==> (r matches Err(e) && e
            == ControlError::BoostUnavailable),
{
    if amd_boost_present {
        let v = if enabled { "1" } else { "0" };
        return Ok(SysfsWrite {
            path: String::from_str("/sys/devices/system/cpu/cpufreq/boost"),
            content: String::from_str(v),
        });
    }
    if intel_no_turbo_present {
        let v = if enabled { "0" } else { "1" };
        return Ok(SysfsWrite {
            path: String::from_str("/sys/devices/system/cpu/intel_pstate/no_turbo"),
            content: String::from_str(v),
        });
    }
    Err(ControlError::BoostUnavailable)
}

/// The write that turns simultaneous multithreading on or off; refused when the SMT
/// control file does not exist.
pub fn set_smt(enabled: bool, control_present: bool) -> (r: Result<SysfsWrite, ControlError>)
    ensures
        control_present ==> (r matches Ok(w) && w.path@ == "/sys/devices/system/cpu/smt/control"@
            && w.content@ == (if enabled { "on"@ } else { "off"@ })),
        !control_present ==> (r matches Err(e) && e == ControlError::SmtUnavailable),
{
    if !control_present {
        return Err(ControlError::SmtUnavailable);
    }
    let v = if enabled { "on" } else { "off" };
    Ok(SysfsWrite { path: String::from_str("/sys/devices/system/cpu/smt/control"), content: String::from_str(v) })
}


/// The writes of a single colour on the backlight in `base`: the colour when the
/// `multi_intensity` file exists, then the brightness scaled to the largest brightness.
pub open spec fn single_color_writes(
    base: Seq<char>,
    r: u8,
    g: u8,
    b: u8,
    brightness: u8,
    has_multi_intensity: bool,
    max: nat,
) -> Seq<(Seq<char>, Seq<char>)> {
    let color = if has_multi_intensity {
        seq![(base + "/multi_intensity"@, color_text(r, g, b))]
    } else {
        Seq::empty()
    };
    color + seq![(base + "/brightness"@, decimal(scaled(brightness as nat, max)))]
}

/// The writes and outcome of showing a keyboard mode on the backlight in `base`: a single
/// colour as `single_color_writes` says, an effect as `mode_plan` says.
pub open spec fn keyboard_plan(
    base: Seq<char>,
    mode: KeyboardMode,
    has_multi_intensity: bool,
    has_mode: bool,
    max: nat,
) -> (Seq<(Seq<char>, Seq<char>)>, Result<(), ControlError>) {
    match mode {
        KeyboardMode::SingleColor { r, g, b, brightness } => (
            single_color_writes(base, r, g, b, brightness, has_multi_intensity, max),
            Ok(()),
        ),
        _ => mode_plan(base, mode, has_multi_intensity, has_mode, max),
    }
}

/// The writes and outcome of previewing keyboard settings: refused when no candidate
/// backlight has a `brightness` file, else `keyboard_plan` on the first that has one.
pub open spec fn preview_plan(
    brightness_exists: Seq<bool>,
    mode: KeyboardMode,
    has_multi_intensity: bool,
    has_mode: bool,
    max: nat,
) -> (Seq<(Seq<char>, Seq<char>)>, Result<(), ControlError>) {
    match first_set(brightness_exists) {
        Some(i) => keyboard_plan(keyboard_candidates()[i], mode, has_multi_intensity, has_mode, max),
        None => (Seq::empty(), Err(ControlError::KeyboardBacklightNotFound)),
    }
}

/// The writes that show `settings` on the keyboard backlight, whatever `control_enabled`
/// says. `brightness_exists[i]` tells whether candidate `i` has a `brightness` file;
/// `has_multi_intensity` and `has_mode` whether the chosen backlight has those files;
/// `max_content` is its `max_brightness` file, when it could be read.
pub fn preview_keyboard_settings(
    settings: &KeyboardSettings,
    brightness_exists: &Vec<bool>,
    has_multi_intensity: bool,
    has_mode: bool,
    max_content: Option<&str>,
) -> (r: WritePlan)
    requires
        brightness_exists.len() == 4,
        mode_brightness(settings.mode) * max_brightness_value(opt_view(max_content)) <= u32::MAX,
    ensures
        write_pairs(r.writes@) == preview_plan(
            brightness_exists@,
            settings.mode,
            has_multi_intensity,
            has_mode,
            max_brightness_value(opt_view(max_content)),
        ).0,
        r.outcome == preview_plan(
            brightness_exists@,
            settings.mode,
            has_multi_intensity,
            has_mode,
            max_brightness_value(opt_view(max_content)),
        ).1,
{
    let kbd = match RgbKeyboardControl::new(brightness_exists) {
        Ok(k) => k,
        Err(e) => {
            let writes: Vec<SysfsWrite> = Vec::new();
            assert(write_pairs(writes@) =~= Seq::empty());
            return WritePlan { writes, outcome: Err(e) };
        },
    };
    let max = max_brightness(max_content);
    match settings.mode {
        KeyboardMode::SingleColor { r, g, b, brightness } => {
            let mut writes: Vec<SysfsWrite> = Vec::new();
            if has_multi_intensity {
                writes.push(SysfsWrite { path: kbd.file("/multi_intensity"), content: color_string(r, g, b) });
            }
            writes.push(kbd.set_brightness(brightness, max));
            assert(write_pairs(writes@) =~= single_color_writes(
                kbd.base(),
                r,
                g,
                b,
                brightness,
                has_multi_intensity,
                max as nat,
            ));
            WritePlan { writes, outcome: Ok(()) }
        },
        _ => kbd.set_mode(&settings.mode, has_multi_intensity, has_mode, max),
    }
}

/// The writes that apply keyboard settings: none when keyboard control is off, else those
/// of `preview_keyboard_settings`.
pub fn apply_keyboard_settings(
    settings: &KeyboardSettings,
    brightness_exists: &Vec<bool>,
    has_multi_intensity: bool,
    has_mode: bool,
    max_content: Option<&str>,
) -> (r: WritePlan)
    requires
        brightness_exists.len() == 4,
        mode_brightness(settings.mode) * max_brightness_value(opt_view(max_content)) <= u32::MAX,
    ensures
        !settings.control_enabled ==> r.writes@.len() == 0 && r.outcome is Ok,
        settings.control_enabled ==> write_pairs(r.writes@) == preview_plan(
            brightness_exists@,
            settings.mode,
            has_multi_intensity,
            has_mode,
            max_brightness_value(opt_view(max_content)),
        ).0 && r.outcome == preview_plan(
            brightness_exists@,
            settings.mode,
            has_multi_intensity,
            has_mode,
            max_brightness_value(opt_view(max_content)),
        ).1,
{
    if !settings.control_enabled {
        return WritePlan { writes: Vec::new(), outcome: Ok(()) };
    }
    preview_keyboard_settings(settings, brightness_exists, has_multi_intensity, has_mode, max_content)
}

/// The directories where a screen backlight is looked for, in order.
pub open spec fn backlight_candidates() -> Seq<Seq<char>> {
    seq![
        "/sys/class/backlight/intel_backlight"@,
        "/sys/class/backlight/amdgpu_bl0"@,
        "/sys/class/backlight/acpi_video0"@,
    ]
}

/// The directories where a screen backlight is looked for, in order.
pub fn screen_backlight_candidates() -> (r: Vec<String>)
    ensures
        crate::types::string_views(r@) == backlight_candidates(),
{
    let r = vec![
        String::from_str("/sys/class/backlight/intel_backlight"),
        String::from_str("/sys/class/backlight/amdgpu_bl0"),
        String::from_str("/sys/class/backlight/acpi_video0"),
    ];
    assert(crate::types::string_views(r@) =~= backlight_candidates());
    r
}

/// The screen backlight directory: the first candidate whose `brightness` file exists
/// (`brightness_exists[i]` for candidate `i`).
pub fn find_screen_backlight_path(brightness_exists: &Vec<bool>) -> (r: Option<String>)
    requires
        brightness_exists.len() == 3,
    ensures
        match first_set(brightness_exists@) {
            Some(i) => r matches Some(p) && p@ == backlight_candidates()[i],
            None => r is None,
        },
{
    let candidates = screen_backlight_candidates();
    match first_present(brightness_exists) {
        Some(i) => {
            assert(crate::types::string_views(candidates@).len() == 3);
            assert(candidates@.len() == 3);
            assert(crate::types::string_views(candidates@)[i as int] == candidates@[i as int]@);
            Some(candidates[i].clone())
        },
        None => None,
    }
}

/// The write of the screen brightness, if any: none when the system controls the
/// brightness or no backlight is found, else the brightness in % scaled to the largest
/// brightness, written to the first backlight found.
pub open spec fn screen_write(settings: ScreenSettings, brightness_exists: Seq<bool>, max_content: Seq<char>) -> Option<
    (Seq<char>, Seq<char>),
> {
    if settings.system_control {
        None
    } else {
        match first_set(brightness_exists) {
            Some(i) => Some(
                (
                    backlight_candidates()[i] + "/brightness"@,
                    decimal(scaled(settings.brightness as nat, max_brightness_value(Some(max_content)))),
                ),
            ),
            None => None,
        }
    }
}

/// The write that applies screen settings, given which candidate backlights have a
/// `brightness` file and the `max_brightness` file of the first that has one.
pub fn apply_screen_settings(settings: &ScreenSettings, brightness_exists: &Vec<bool>, max_content: &str) -> (r:
    Option<SysfsWrite>)
    requires
        brightness_exists.len() == 3,
        settings.brightness * max_brightness_value(Some(max_content@)) <= u32::MAX,
    ensures
        match screen_write(*settings, brightness_exists@, max_content@) {
            Some((path, content)) => r matches Some(w) && w.path@ == path && w.content@ == content,
            None => r is None,
        },
{
    if settings.system_control {
        return None;
    }
    match find_screen_backlight_path(brightness_exists) {
        Some(base) => {
            let max = max_brightness(Some(max_content));
            let actual = ((settings.brightness as u32) * max) / 100;
            let mut path = base;
            path.append("/brightness");
            Some(SysfsWrite { path, content: decimal_string(actual as u64) })
        },
        None => None,
    }
}


/// The keyboard brightness that `RgbKeyboardControl::get_brightness` reads back from the
/// content `RgbKeyboardControl::set_brightness` wrote, with the same largest brightness of
/// at least 100, is the percentage written or one less (for example 50 % of 255 writes
/// 127, read back as 49 %); the read is accepted and its product fits.
pub proof fn lemma_keyboard_brightness_round_trip(brightness: u8, max: u32)
    requires
        brightness <= 100,
        max >= 100,
        brightness * max <= u32::MAX,
    ensures
        ({
            let w = scaled(brightness as nat, max as nat);
            let content = decimal(w);
            &&& crate::text::parse_unsigned(crate::text::trim(content), u32::MAX as nat) == Some(w)
            &&& w * 100 <= u32::MAX
            &&& ((w * 100) / (max as nat)) as u8 == brightness || ((w * 100) / (max as nat)) as u8 == brightness - 1
        }),
{
    let w = scaled(brightness as nat, max as nat);
    lemma_brightness_round_trip(brightness as nat, max as nat);
    assert(w * 100 <= brightness * max) by (nonlinear_arith)
        requires
            w == (brightness * max) / 100,
    ;
    crate::text::lemma_parse_decimal(w, u32::MAX as nat);
}

/// A brightness of at most 100 % never exceeds the largest brightness, and reading back a
/// brightness that was written gives at most the percentage written, exactly it when the
/// largest brightness is a multiple of 100, and at least one less when the largest
/// brightness is at least 100.
pub proof fn lemma_brightness_round_trip(percent: nat, max: nat)
    requires
        percent <= 100,
        max > 0,
    ensures
        scaled(percent, max) <= max,
        (scaled(percent, max) * 100) / max <= percent,
        max % 100 == 0 ==> (scaled(percent, max) * 100) / max == percent,
        max >= 100 ==> (scaled(percent, max) * 100) / max + 1 >= percent,
{
    let w = scaled(percent, max);
    if max >= 100 {
        assert(w * 100 + 100 > percent * max) by (nonlinear_arith)
            requires
                w == (percent * max) / 100,
        ;
        assert((w * 100) / max + 1 >= percent) by (nonlinear_arith)
            requires
                w * 100 + 100 > percent * max,
                max >= 100,
        ;
    }
    assert(w <= max) by (nonlinear_arith)
        requires
            w == (percent * max) / 100,
            percent <= 100,
            max > 0,
    ;
    assert(w * 100 <= percent * max) by (nonlinear_arith)
        requires
            w == (percent * max) / 100,
            max > 0,
    ;
    assert((w * 100) / max <= percent) by (nonlinear_arith)
        requires
            w * 100 <= percent * max,
            max > 0,
    ;
    if max % 100 == 0 {
        let k = max / 100;
        assert(w == percent * k) by (nonlinear_arith)
            requires
                w == (percent * max) / 100,
                max == 100 * k,
        ;
        assert((w * 100) / max == percent) by (nonlinear_arith)
            requires
                w == percent * k,
                max == 100 * k,
                k > 0,
        ;
    }
}

} // verus!
