use vstd::prelude::*;
use crate::tuxedo_io::IoError;

verus! {

/// Why a hardware control or detection request is refused.
#[derive(Debug, Clone, Copy, PartialEq, Eq, Structural)]
pub enum ControlError {
    /// No battery with charge control was found.
    NoChargeControl,
    /// No battery was found.
    NoBattery,
    /// A charge type other than "Standard" or "Custom".
    InvalidChargeType,
    /// A charge threshold above 100 %.
    ThresholdOutOfRange,
    /// A file did not hold the number expected.
    InvalidNumber,
    /// `/dev/tuxedo_io` is absent, so fans cannot be controlled.
    FanControlUnavailable,
    /// `/dev/tuxedo_io` is absent, so the webcam cannot be switched.
    WebcamControlUnavailable,
    /// `/dev/tuxedo_io` is absent, so the webcam state cannot be read.
    WebcamStateUnavailable,
    /// `/dev/tuxedo_io` is absent, so there are no TDP profiles.
    TdpProfilesUnavailable,
    /// The device offers no TDP profile.
    NoTdpProfiles,
    /// The device has no TDP profile of the requested name.
    TdpProfileNotFound,
    /// `/dev/tuxedo_io` is absent, so TDP cannot be read.
    TdpInfoUnavailable,
    /// The AMD P-state driver is absent.
    AmdPstateUnavailable,
    /// An AMD P-state status other than passive, active or guided.
    InvalidAmdPstateStatus,
    /// An energy performance preference that the kernel does not know.
    InvalidEnergyPerformancePreference,
    /// No keyboard backlight was found.
    KeyboardBacklightNotFound,
    /// The keyboard backlight cannot take a colour.
    RgbControlUnavailable,
    /// The keyboard backlight has no mode file for this effect.
    ModeNotSupported(KeyboardEffect),
    /// The boost control is absent.
    BoostUnavailable,
    /// The SMT control is absent.
    SmtUnavailable,
    /// The CPU frequency limits cannot be set.
    FrequencyControlUnavailable,
    /// `/proc/cpuinfo` names no CPU model.
    CpuNameNotFound,
    /// A file or the device could not be read.
    ReadFailed,
    /// The device refused the request.
    Device(IoError),
}

/// A keyboard effect without a colour of its own, which needs the backlight's mode file.
#[derive(Debug, Clone, Copy, PartialEq, Eq, Structural)]
pub enum KeyboardEffect {
    Cycle,
    Dance,
    RandomColor,
    Tempo,
    Wave,
}

} // verus!
