use vstd::prelude::*;
use crate::errors::ControlError;
use crate::text::{
    chars_of, trim, trim_range, trimmed, words, word_ranges, pieces, parse_u8, parse_unsigned,
    decimal, decimal_string, lemma_parse_decimal,
};

verus! {

/// A battery of the power supply class.
#[derive(Debug, Clone, Copy, PartialEq, Eq, Structural)]
pub enum BatteryName {
    Bat0,
    Bat1,
}

/// The sysfs directory of a battery.
pub open spec fn battery_dir(b: BatteryName) -> Seq<char> {
    match b {
        BatteryName::Bat0 => "/sys/class/power_supply/BAT0"@,
        BatteryName::Bat1 => "/sys/class/power_supply/BAT1"@,
    }
}

/// A write of `content` to the file at `path`.
#[derive(Debug)]
pub struct SysfsWrite {
    pub path: String,
    pub content: String,
}

/// The number a file holds, after trimming, as a charge threshold or capacity in %.
pub open spec fn percent_from_content(content: Seq<char>) -> Result<u8, ControlError> {
    match parse_unsigned(trim(content), 255) {
        Some(v) => Ok(v as u8),
        None => Err(ControlError::InvalidNumber),
    }
}

/// The numbers among the words, in order, skipping those that are no `u8`.
pub open spec fn parse_u8_words(ws: Seq<Seq<char>>) -> Seq<u8>
    decreases ws.len(),
{
    if ws.len() == 0 {
        Seq::empty()
    } else {
        let prev = parse_u8_words(ws.drop_last());
        match parse_unsigned(ws.last(), 255) {
            Some(v) => prev.push(v as u8),
            None => prev,
        }
    }
}

/// The charge thresholds listed in a file, or `defaults` where the file is absent.
pub open spec fn thresholds_from(content: Option<Seq<char>>, defaults: Seq<u8>) -> Seq<u8> {
    match content {
        Some(c) => parse_u8_words(words(c)),
        None => defaults,
    }
}

/// Start thresholds offered when the battery does not list them.
pub open spec fn default_start_thresholds() -> Seq<u8> {
    seq![40u8, 50u8, 60u8, 70u8, 80u8, 95u8]
}

/// End thresholds offered when the battery does not list them.
pub open spec fn default_end_thresholds() -> Seq<u8> {
    seq![60u8, 70u8, 80u8, 90u8, 100u8]
}

/// The numbers among the white-space separated words of `content` that are `u8` values.
pub fn parse_thresholds(content: &str) -> (r: Vec<u8>)
    ensures
        r@ == parse_u8_words(words(content@)),
{
    let v = chars_of(content);
    let ranges = word_ranges(&v, 0, v.len());
    proof {
        assert(v@.subrange(0, v@.len() as int) =~= v@);
    }
    let ghost ws = words(v@);
    let mut r: Vec<u8> = Vec::new();
    let n = ranges.len();
    for i in 0..n
        invariant
            n == ranges.len(),
            ws == words(v@),
            pieces(v@, ranges@) == ws,
            forall|k: int| 0 <= k < ranges.len() ==> 0 <= (#[trigger] ranges@[k]).0 <= ranges@[k].1 <= v.len(),
            r@ == parse_u8_words(ws.take(i as int)),
    {
        let (a, b) = ranges[i];
        proof {
            assert(ws.take(i + 1).drop_last() =~= ws.take(i as int));
            assert(ws[i as int] == v@.subrange(a as int, b as int));
        }
        match parse_u8(&v, a, b) {
            Some(x) => r.push(x),
            None => {},
        }
    }
    proof {
        assert(ws.take(n as int) =~= ws);
    }
    r
}

/// The trimmed contents of a file, as a charge threshold or capacity in %.
pub fn parse_percent(content: &str) -> (r: Result<u8, ControlError>)
    ensures
        r == percent_from_content(content@),
{
    let v = chars_of(content);
    let (a, b) = trim_range(&v, 0, v.len());
    proof {
        assert(v@.subrange(0, v@.len() as int) =~= v@);
    }
    match parse_u8(&v, a, b) {
        Some(x) => Ok(x),
        None => Err(ControlError::InvalidNumber),
    }
}

/// The charge type, when it is "Standard" or "Custom".
pub open spec fn valid_charge_type(t: Seq<char>) -> bool {
    t == "Standard"@ || t == "Custom"@
}

/// Whether `a` and `b` hold the same characters.
pub fn str_equal(a: &str, b: &str) -> (r: bool)
    ensures
        r == (a@ == b@),
{
    let x = String::from_str(a);
    let y = String::from_str(b);
    x == y
}

/// Battery charge control through the power supply class of sysfs.
pub struct BatteryControl {
    battery: BatteryName,
}

impl BatteryControl {
    /// The battery controlled.
    pub closed spec fn battery(&self) -> BatteryName {
        self.battery
    }

    /// Control of the first of BAT0 and BAT1 that has charge control (its directory and
    /// its `charge_type` file exist).
    pub fn new(bat0_has_charge_control: bool, bat1_has_charge_control: bool) -> (r: Result<
        Self,
        ControlError,
    >)
        ensures
            bat0_has_charge_control ==> (r matches Ok(c) && c.battery() == BatteryName::Bat0),
            !bat0_has_charge_control && bat1_has_charge_control ==> (r matches Ok(c) && c.battery()
                == BatteryName::Bat1),
            !bat0_has_charge_control && !bat1_has_charge_control ==> (r matches Err(
                e,
            ) && e == ControlError::NoChargeControl),
    {
        if bat0_has_charge_control {
            Ok(BatteryControl { battery: BatteryName::Bat0 })
        } else if bat1_has_charge_control {
            Ok(BatteryControl { battery: BatteryName::Bat1 })
        } else {
            Err(ControlError::NoChargeControl)
        }
    }

    /// Whether a battery has charge control.
    pub fn is_available(bat0_has_charge_control: bool, bat1_has_charge_control: bool) -> (r: bool)
        ensures
            r == (bat0_has_charge_control || bat1_has_charge_control),
    {
        Self::find_battery_path(bat0_has_charge_control, bat1_has_charge_control).is_ok()
    }

    /// The directory of the first of BAT0 and BAT1 that has charge control (its directory
    /// and its `charge_type` file exist).
    pub fn find_battery_path(bat0_has_charge_control: bool, bat1_has_charge_control: bool) -> (r: Result<
        String,
        ControlError,
    >)
        ensures
            bat0_has_charge_control ==> (r matches Ok(p) && p@ == battery_dir(BatteryName::Bat0)),
            !bat0_has_charge_control && bat1_has_charge_control ==> (r matches Ok(p) && p@ == battery_dir(
                BatteryName::Bat1,
            )),
            !bat0_has_charge_control && !bat1_has_charge_control ==> (r matches Err(
                e,
            ) && e == ControlError::NoChargeControl),
    {
        if bat0_has_charge_control {
            Ok(String::from_str("/sys/class/power_supply/BAT0"))
        } else if bat1_has_charge_control {
            Ok(String::from_str("/sys/class/power_supply/BAT1"))
        } else {
            Err(ControlError::NoChargeControl)
        }
    }

    /// The path of the battery's attribute file `attr`.
    pub fn attribute_path(&self, attr: &str) -> (r: String)
        ensures
            r@ == battery_dir(self.battery()) + "/"@ + attr@,
    {
        let mut p = match self.battery {
            BatteryName::Bat0 => String::from_str("/sys/class/power_supply/BAT0"),
            BatteryName::Bat1 => String::from_str("/sys/class/power_supply/BAT1"),
        };
        p.append("/");
        p.append(attr);
        p
    }

    /// The charge type, from the `charge_type` file: "Standard" or "Custom".
    pub fn get_charge_type(&self, content: &str) -> (r: String)
        ensures
            r@ == trim(content@),
    {
        trimmed(content)
    }

    /// The write that sets the charge type, which must be "Standard" or "Custom".
    pub fn set_charge_type(&self, charge_type: &str) -> (r: Result<SysfsWrite, ControlError>)
        ensures
            valid_charge_type(charge_type@) ==> (r matches Ok(w) && w.path@ == battery_dir(self.battery())
                + "/"@ + "charge_type"@ && w.content@ == charge_type@),
            !valid_charge_type(charge_type@) ==> (r matches Err(e) && e == ControlError::InvalidChargeType),
    {
        if !str_equal(charge_type, "Standard") && !str_equal(charge_type, "Custom") {
            return Err(ControlError::InvalidChargeType);
        }
        Ok(SysfsWrite { path: self.attribute_path("charge_type"), content: String::from_str(charge_type) })
    }

    /// The charge start threshold, from the `charge_control_start_threshold` file.
    pub fn get_charge_control_start_threshold(&self, content: &str) -> (r: Result<u8, ControlError>)
        ensures
            r == percent_from_content(content@),
    {
        parse_percent(content)
    }

    /// The write that sets the charge start threshold, which must be at most 100.
    pub fn set_charge_control_start_threshold(&self, threshold: u8) -> (r: Result<SysfsWrite, ControlError>)
        ensures
            threshold <= 100 ==> (r matches Ok(w) && w.path@ == battery_dir(self.battery()) + "/"@
                + "charge_control_start_threshold"@ && w.content@ == decimal(threshold as nat)),
            threshold > 100 ==> (r matches Err(e) && e == ControlError::ThresholdOutOfRange),
    {
        if threshold > 100 {
            return Err(ControlError::ThresholdOutOfRange);
        }
        Ok(SysfsWrite {
            path: self.attribute_path("charge_control_start_threshold"),
            content: decimal_string(threshold as u64),
        })
    }

    /// The charge end threshold, from the `charge_control_end_threshold` file.
    pub fn get_charge_control_end_threshold(&self, content: &str) -> (r: Result<u8, ControlError>)
        ensures
            r == percent_from_content(content@),
    {
        parse_percent(content)
    }

    /// The write that sets the charge end threshold, which must be at most 100.
    pub fn set_charge_control_end_threshold(&self, threshold: u8) -> (r: Result<SysfsWrite, ControlError>)
        ensures
            threshold <= 100 ==> (r matches Ok(w) && w.path@ == battery_dir(self.battery()) + "/"@
                + "charge_control_end_threshold"@ && w.content@ == decimal(threshold as nat)),
            threshold > 100 ==> (r matches Err(e) && e == ControlError::ThresholdOutOfRange),
    {
        if threshold > 100 {
            return Err(ControlError::ThresholdOutOfRange);
        }
        Ok(SysfsWrite {
            path: self.attribute_path("charge_control_end_threshold"),
            content: decimal_string(threshold as u64),
        })
    }

    /// The start thresholds the battery offers, from the
    /// `charge_control_start_available_thresholds` file (`None` when it is absent).
    pub fn get_available_start_thresholds(&self, content: Option<&str>) -> (r: Vec<u8>)
        ensures
            r@ == thresholds_from(
                match content {
                    Some(c) => Some(c@),
                    None => None,
                },
                default_start_thresholds(),
            ),
    {
        match content {
            Some(c) => parse_thresholds(c),
            None => {
                let r = vec![40u8, 50u8, 60u8, 70u8, 80u8, 95u8];
                assert(r@ =~= default_start_thresholds());
                r
            },
        }
    }

    /// The end thresholds the battery offers, from the
    /// `charge_control_end_available_thresholds` file (`None` when it is absent).
    pub fn get_available_end_thresholds(&self, content: Option<&str>) -> (r: Vec<u8>)
        ensures
            r@ == thresholds_from(
                match content {
                    Some(c) => Some(c@),
                    None => None,
                },
                default_end_thresholds(),
            ),
    {
        match content {
            Some(c) => parse_thresholds(c),
            None => {
                let r = vec![60u8, 70u8, 80u8, 90u8, 100u8];
                assert(r@ =~= default_end_thresholds());
                r
            },
        }
    }

    /// The battery status, from the `status` file.
    pub fn get_status(&self, content: &str) -> (r: String)
        ensures
            r@ == trim(content@),
    {
        trimmed(content)
    }

    /// The charge in %, from the `capacity` file.
    pub fn get_capacity(&self, content: &str) -> (r: Result<u8, ControlError>)
        ensures
            r == percent_from_content(content@),
    {
        parse_percent(content)
    }

    /// The battery's manufacturer, from the `manufacturer` file.
    pub fn get_manufacturer(&self, content: &str) -> (r: String)
        ensures
            r@ == trim(content@),
    {
        trimmed(content)
    }

    /// The battery's model, from the `model_name` file.
    pub fn get_model_name(&self, content: &str) -> (r: String)
        ensures
            r@ == trim(content@),
    {
        trimmed(content)
    }
}

/// A threshold written to the battery and read back is the threshold written.
pub proof fn lemma_threshold_write_read(threshold: u8)
    requires
        threshold <= 100,
    ensures
        percent_from_content(decimal(threshold as nat)) == Ok::<u8, ControlError>(threshold),
{
    lemma_parse_decimal(threshold as nat, 255);
}

} // verus!
