use vstd::prelude::*;
use std::collections::HashMap;
use crate::errors::ControlError;
use crate::text::{lines, words, pieces, parse_unsigned, trim};
use crate::hardware_control::begins_with;
use crate::tuxedo_io::{
    TuxedoIo, HardwareInterface, profile_names, raw_to_percent, clevo_speed_byte, clevo_temp_byte,
};
use crate::types::{string_views, BatteryInfo, CpuCapabilities, GpuType, SystemInfo};
use crate::battery_control::{BatteryName, battery_dir};
use crate::fan_daemon::div_toward_zero;

verus! {

broadcast use {vstd::std_specs::hash::group_hash_axioms, vstd::seq_lib::group_to_multiset_ensures};

/// The time a CPU has spent in each state, in clock ticks, from a `cpuN` line of
/// `/proc/stat`.
#[derive(Debug, Clone, Copy)]
pub struct CpuStats {
    pub user: u64,
    pub nice: u64,
    pub system: u64,
    pub idle: u64,
    pub iowait: u64,
    pub irq: u64,
    pub softirq: u64,
}

impl CpuStats {
    /// All the time counted.
    pub open spec fn total_ticks(self) -> int {
        self.user + self.nice + self.system + self.idle + self.iowait + self.irq + self.softirq
    }

    /// The time spent working: all but idle and I/O wait.
    pub open spec fn work_ticks(self) -> int {
        self.user + self.nice + self.system + self.irq + self.softirq
    }

    /// All the time counted.
    pub fn total(&self) -> (r: u64)
        requires
            self.total_ticks() <= u64::MAX,
        ensures
            r == self.total_ticks(),
    {
        self.user + self.nice + self.system + self.idle + self.iowait + self.irq + self.softirq
    }

    /// The time spent working: all but idle and I/O wait.
    pub fn work(&self) -> (r: u64)
        requires
            self.work_ticks() <= u64::MAX,
        ensures
            r == self.work_ticks(),
    {
        self.user + self.nice + self.system + self.irq + self.softirq
    }
}

/// `s` begins with "cpu".
pub open spec fn begins_with_cpu(s: Seq<char>) -> bool {
    s.len() >= 3 && s[0] == 'c' && s[1] == 'p' && s[2] == 'u'
}

/// `s` without all its leading repetitions of "cpu", as `trim_start_matches("cpu")` gives it.
pub open spec fn strip_cpu(s: Seq<char>) -> Seq<char>
    decreases s.len(),
{
    if begins_with_cpu(s) {
        strip_cpu(s.subrange(3, s.len() as int))
    } else {
        s
    }
}

/// A line of `/proc/stat` about one CPU: it begins with "cpu" but not with "cpu ".
pub open spec fn is_per_cpu_line(l: Seq<char>) -> bool {
    begins_with_cpu(l) && !(l.len() >= 4 && l[3] == ' ')
}

/// A word read as a `u64`.
pub open spec fn u64_word(w: Seq<char>) -> Option<u64> {
    match parse_unsigned(w, u64::MAX as nat) {
        Some(v) => Some(v as u64),
        None => None,
    }
}

/// The counters in words 1 to 7, when all are numbers.
pub open spec fn stats_of_words(ws: Seq<Seq<char>>) -> Option<CpuStats> {
    match (u64_word(ws[1]), u64_word(ws[2]), u64_word(ws[3]), u64_word(ws[4])) {
        (Some(user), Some(nice), Some(system), Some(idle)) => match (
            u64_word(ws[5]),
            u64_word(ws[6]),
            u64_word(ws[7]),
        ) {
            (Some(iowait), Some(irq), Some(softirq)) => Some(
                CpuStats { user, nice, system, idle, iowait, irq, softirq },
            ),
            _ => None,
        },
        _ => None,
    }
}

/// What a line of `/proc/stat` contributes: nothing (`None`) unless it is about one CPU
/// and has at least eight words; then the CPU's number and counters, or `Some(None)` when
/// one of them is not a number.
pub open spec fn stats_entry(l: Seq<char>) -> Option<Option<(u32, CpuStats)>> {
    let ws = words(l);
    if !is_per_cpu_line(l) || ws.len() < 8 {
        None
    } else {
        match (parse_unsigned(strip_cpu(ws[0]), u32::MAX as nat), stats_of_words(ws)) {
            (Some(id), Some(st)) => Some(Some((id as u32, st))),
            _ => Some(None),
        }
    }
}

/// The counters of each CPU that the lines list, a later line for the same CPU replacing
/// an earlier one; refused when a counted line holds something that is not a number.
pub open spec fn stats_of_lines(ls: Seq<Seq<char>>) -> Result<Map<u32, CpuStats>, ControlError>
    decreases ls.len(),
{
    if ls.len() == 0 {
        Ok(Map::empty())
    } else {
        match stats_of_lines(ls.drop_last()) {
            Err(e) => Err(e),
            Ok(m) => match stats_entry(ls.last()) {
                None => Ok(m),
                Some(None) => Err(ControlError::InvalidNumber),
                Some(Some((id, st))) => Ok(m.insert(id, st)),
            },
        }
    }
}

/// The counters of each CPU in the text of `/proc/stat`.
pub open spec fn cpu_stats_of(stat: Seq<char>) -> Result<Map<u32, CpuStats>, ControlError> {
    stats_of_lines(lines(stat))
}

fn word_u64(v: &Vec<char>, a: usize, b: usize) -> (r: Option<u64>)
    requires
        a <= b <= v.len(),
    ensures
        r == u64_word(v@.subrange(a as int, b as int)),
{
    crate::text::parse_u64(v, a, b)
}

/// Where `v[a..b]` goes on after its leading repetitions of "cpu".
fn strip_cpu_start(v: &Vec<char>, a: usize, b: usize) -> (r: usize)
    requires
        a <= b <= v.len(),
    ensures
        a <= r <= b,
        v@.subrange(r as int, b as int) == strip_cpu(v@.subrange(a as int, b as int)),
{
    let mut i = a;
    while b - i >= 3 && v[i] == 'c' && v[i + 1] == 'p' && v[i + 2] == 'u'
        invariant
            a <= i <= b <= v.len(),
            strip_cpu(v@.subrange(i as int, b as int)) == strip_cpu(v@.subrange(a as int, b as int)),
        decreases b - i,
    {
        let ghost t = v@.subrange(i as int, b as int);
        assert(t.subrange(3, t.len() as int) =~= v@.subrange(i + 3, b as int));
        i = i + 3;
    }
    let ghost t = v@.subrange(i as int, b as int);
    assert(!begins_with_cpu(t));
    i
}

fn line_entry(v: &Vec<char>, a: usize, b: usize) -> (r: Option<Option<(u32, CpuStats)>>)
    requires
        a <= b <= v.len(),
    ensures
        r == stats_entry(v@.subrange(a as int, b as int)),
{
    let ghost l = v@.subrange(a as int, b as int);
    let per_cpu = b - a >= 3 && v[a] == 'c' && v[a + 1] == 'p' && v[a + 2] == 'u' && !(b - a >= 4 && v[a
        + 3] == ' ');
    assert(per_cpu == is_per_cpu_line(l));
    if !per_cpu {
        return None;
    }
    let wr = crate::text::word_ranges(v, a, b);
    let ghost ws = words(l);
    assert(pieces(v@, wr@) == ws);
    if wr.len() < 8 {
        return None;
    }
    assert forall|k: int| 0 <= k < 8 implies ws[k] == v@.subrange(wr@[k].0 as int, wr@[k].1 as int) by {}
    let (s0, e0) = wr[0];
    let s0 = strip_cpu_start(v, s0, e0);
    let id = crate::text::parse_u32(v, s0, e0);
    let user = word_u64(v, wr[1].0, wr[1].1);
    let nice = word_u64(v, wr[2].0, wr[2].1);
    let system = word_u64(v, wr[3].0, wr[3].1);
    let idle = word_u64(v, wr[4].0, wr[4].1);
    let iowait = word_u64(v, wr[5].0, wr[5].1);
    let irq = word_u64(v, wr[6].0, wr[6].1);
    let softirq = word_u64(v, wr[7].0, wr[7].1);
    match (id, user, nice, system, idle, iowait, irq, softirq) {
        (Some(id), Some(user), Some(nice), Some(system), Some(idle), Some(iowait), Some(irq), Some(softirq)) => {
            Some(Some((id, CpuStats { user, nice, system, idle, iowait, irq, softirq })))
        },
        _ => Some(None),
    }
}

/// The counters of each CPU in the text of `/proc/stat`, by CPU number.
pub fn read_cpu_stats(stat: &str) -> (r: Result<HashMap<u32, CpuStats>, ControlError>)
    ensures
        match cpu_stats_of(stat@) {
            Ok(m) => r matches Ok(h) && h@ == m,
            Err(e) => r == Err::<HashMap<u32, CpuStats>, ControlError>(e),
        },
{
    let v = crate::text::chars_of(stat);
    let ranges = crate::text::line_ranges(&v, 0, v.len());
    assert(v@.subrange(0, v@.len() as int) =~= v@);
    let ghost ls = pieces(v@, ranges@);
    let mut stats: HashMap<u32, CpuStats> = HashMap::new();
    for k in 0..ranges.len()
        invariant
            ls == pieces(v@, ranges@),
            ls == lines(stat@),
            v@ == stat@,
            forall|j: int| 0 <= j < ranges.len() ==> 0 <= (#[trigger] ranges@[j]).0 <= ranges@[j].1 <= v.len(),
            stats_of_lines(ls.take(k as int)) == Ok::<Map<u32, CpuStats>, ControlError>(stats@),
    {
        let (a, b) = ranges[k];
        proof {
            assert(ls[k as int] == v@.subrange(a as int, b as int));
            assert(ls.take(k + 1).drop_last() =~= ls.take(k as int));
            assert(ls.take(k + 1).last() == ls[k as int]);
        }
        match line_entry(&v, a, b) {
            None => {},
            Some(None) => {
                proof {
                    lemma_stats_error_stays(ls, k + 1);
                    assert(ls.take(ranges.len() as int) =~= ls);
                }
                return Err(ControlError::InvalidNumber);
            },
            Some(Some((id, st))) => {
                stats.insert(id, st);
            },
        }
    }
    assert(ls.take(ranges.len() as int) =~= ls);
    Ok(stats)
}

/// Once the lines up to `n` are refused, so are all of them.
proof fn lemma_stats_error_stays(ls: Seq<Seq<char>>, n: int)
    requires
        0 <= n <= ls.len(),
        stats_of_lines(ls.take(n)) is Err,
    ensures
        stats_of_lines(ls) == stats_of_lines(ls.take(n)),
    decreases ls.len() - n,
{
    if n == ls.len() {
        assert(ls.take(n) =~= ls);
    } else {
        assert(ls.take(n + 1).drop_last() =~= ls.take(n));
        lemma_stats_error_stays(ls, n + 1);
    }
}


/// `sorted` with `x` placed after the last value that is at most `x`.
pub open spec fn insert_value(sorted: Seq<u64>, x: u64) -> Seq<u64>
    decreases sorted.len(),
{
    if sorted.len() == 0 {
        seq![x]
    } else if sorted.last() <= x {
        sorted.push(x)
    } else {
        insert_value(sorted.drop_last(), x).push(sorted.last())
    }
}

/// The values in ascending order.
pub open spec fn sort_values(values: Seq<u64>) -> Seq<u64>
    decreases values.len(),
{
    if values.len() == 0 {
        values
    } else {
        insert_value(sort_values(values.drop_last()), values.last())
    }
}

/// The values never decrease along `s`.
pub open spec fn ascending(s: Seq<u64>) -> bool {
    forall|i: int, j: int| 0 <= i <= j < s.len() ==> s[i] <= s[j]
}

/// The median of the values: 0 for none, else the value at position `len / 2` of the
/// values in ascending order (the upper middle for an even count).
pub open spec fn median(values: Seq<u64>) -> u64 {
    if values.len() == 0 {
        0
    } else {
        sort_values(values)[(values.len() / 2) as int]
    }
}

proof fn lemma_insert_value_at(s: Seq<u64>, x: u64, j: int)
    requires
        0 <= j <= s.len(),
        forall|k: int| j <= k < s.len() ==> (#[trigger] s[k]) > x,
        j > 0 ==> s[j - 1] <= x,
    ensures
        insert_value(s, x) == s.insert(j, x),
    decreases s.len(),
{
    if s.len() == 0 {
        assert(s.insert(j, x) =~= seq![x]);
    } else if s.last() <= x {
        assert(s.insert(j, x) =~= s.push(x));
    } else {
        lemma_insert_value_at(s.drop_last(), x, j);
        assert(s.insert(j, x) =~= s.drop_last().insert(j, x).push(s.last()));
    }
}

proof fn lemma_insert_value(s: Seq<u64>, x: u64)
    requires
        ascending(s),
    ensures
        ascending(insert_value(s, x)),
        insert_value(s, x).to_multiset() == s.to_multiset().insert(x),
        insert_value(s, x).len() == s.len() + 1,
    decreases s.len(),
{
    if s.len() == 0 {
        assert(seq![x] =~= Seq::<u64>::empty().push(x));
    } else if s.last() <= x {
    } else {
        let t = s.drop_last();
        lemma_insert_value(t, x);
        let it = insert_value(t, x);
        assert(s =~= t.push(s.last()));
        assert forall|i: int, j: int| 0 <= i <= j < it.push(s.last()).len() implies it.push(
            s.last(),
        )[i] <= it.push(s.last())[j] by {
            if j == it.len() && i < it.len() {
                assert(it.to_multiset().count(it[i]) > 0);
                if it[i] != x {
                    assert(t.to_multiset().count(it[i]) > 0);
                    assert(t.contains(it[i]));
                    let k = choose|k: int| 0 <= k < t.len() && t[k] == it[i];
                    assert(s[k] == t[k]);
                }
            }
        }
        assert(it.push(s.last()).to_multiset() =~= s.to_multiset().insert(x)) by {
            assert(it.push(s.last()).to_multiset() =~= it.to_multiset().insert(s.last()));
            assert(s.to_multiset() =~= t.to_multiset().insert(s.last()));
        }
    }
}

/// Sorting keeps the values and puts them in ascending order.
pub proof fn lemma_sort_values(values: Seq<u64>)
    ensures
        ascending(sort_values(values)),
        sort_values(values).to_multiset() == values.to_multiset(),
        sort_values(values).len() == values.len(),
    decreases values.len(),
{
    if values.len() > 0 {
        let t = values.drop_last();
        lemma_sort_values(t);
        lemma_insert_value(sort_values(t), values.last());
        assert(values =~= t.push(values.last()));
    }
}

/// The median of values is one of them, no value before its position in ascending order
/// is larger and none after it is smaller.
pub proof fn lemma_median(values: Seq<u64>)
    requires
        values.len() > 0,
    ensures
        values.contains(median(values)),
        forall|i: int|
            0 <= i < values.len() ==> (i <= values.len() / 2 ==> #[trigger] sort_values(values)[i] <= median(
                values,
            )) && (i >= values.len() / 2 ==> sort_values(values)[i] >= median(values)),
{
    lemma_sort_values(values);
    let s = sort_values(values);
    let m = s[(values.len() / 2) as int];
    assert(s.to_multiset().count(m) > 0);
    assert(values.to_multiset().count(m) > 0);
}

/// The median of the values (see `median`).
pub fn calculate_median(values: &Vec<u64>) -> (r: u64)
    ensures
        r == median(values@),
{
    if values.len() == 0 {
        return 0;
    }
    let mut sorted: Vec<u64> = Vec::new();
    let n = values.len();
    for i in 0..n
        invariant
            n == values.len(),
            sorted@ == sort_values(values@.take(i as int)),
    {
        let x = values[i];
        proof {
            lemma_sort_values(values@.take(i as int));
            assert(values@.take(i + 1).drop_last() =~= values@.take(i as int));
        }
        let mut j = sorted.len();
        while j > 0 && sorted[j - 1] > x
            invariant
                j <= sorted.len(),
                forall|k: int| j <= k < sorted.len() ==> (#[trigger] sorted@[k]) > x,
            decreases j,
        {
            j = j - 1;
        }
        proof {
            lemma_insert_value_at(sorted@, x, j as int);
        }
        sorted.insert(j, x);
    }
    proof {
        assert(values@.take(n as int) =~= values@);
        lemma_sort_values(values@);
    }
    sorted[n / 2]
}


/// The TDP profiles offered: none without the device (`io` is `None`), none for a
/// Uniwill device whose count of profiles could not be read (`uw_available` is `None`),
/// else those `profile_names` lists.
pub open spec fn tdp_profile_names(io: Option<&TuxedoIo>, uw_available: Option<i32>) -> Seq<Seq<char>> {
    match io {
        None => Seq::empty(),
        Some(d) => match uw_available {
            Some(n) => profile_names(d.interface(), n),
            None => if d.interface() == HardwareInterface::Uniwill {
                Seq::empty()
            } else {
                profile_names(d.interface(), 0)
            },
        },
    }
}

/// The TDP profiles the device offers (see `tdp_profile_names`).
pub fn get_tdp_profiles(io: Option<&TuxedoIo>, uw_available: Option<i32>) -> (r: Vec<String>)
    ensures
        string_views(r@) == tdp_profile_names(io, uw_available),
{
    match io {
        None => Vec::new(),
        Some(d) => match uw_available {
            Some(n) => d.get_available_profiles(n),
            None => {
                if d.get_interface() == HardwareInterface::Uniwill {
                    let r: Vec<String> = Vec::new();
                    assert(string_views(r@) =~= Seq::empty());
                    r
                } else {
                    d.get_available_profiles(0)
                }
            },
        },
    }
}

/// The current TDP profile, which the device cannot report: the first profile offered.
/// Refused without the device, then when no profile is offered.
pub fn get_current_tdp_profile(io: Option<&TuxedoIo>, uw_available: Option<i32>) -> (r: Result<
    String,
    ControlError,
>)
    ensures
        io is None ==> r == Err::<String, ControlError>(ControlError::TdpProfilesUnavailable),
        io is Some && tdp_profile_names(io, uw_available).len() == 0 ==> r == Err::<String, ControlError>(
            ControlError::NoTdpProfiles,
        ),
        io is Some && tdp_profile_names(io, uw_available).len() > 0 ==> (r matches Ok(p) && p@
            == tdp_profile_names(io, uw_available)[0]),
{
    if io.is_none() {
        return Err(ControlError::TdpProfilesUnavailable);
    }
    let profiles = get_tdp_profiles(io, uw_available);
    if profiles.len() == 0 {
        return Err(ControlError::NoTdpProfiles);
    }
    assert(string_views(profiles@)[0] == profiles@[0]@);
    Ok(profiles[0].clone())
}

/// The device has a fan of number `fan` that it can be asked about.
pub open spec fn fan_readable(interface: HardwareInterface, fan: u32) -> bool {
    match interface {
        HardwareInterface::Clevo => fan < 3,
        HardwareInterface::Uniwill => fan < 2,
        HardwareInterface::NoneFound => false,
    }
}

/// The speed in % that reading fan `fan` gives, from the word its speed read answered
/// (`None` when the read failed); nothing when the fan cannot be asked about.
pub open spec fn fan_speed_reading(d: TuxedoIo, fan: u32, raw: Option<i32>) -> Option<u32> {
    if !fan_readable(d.interface(), fan) {
        None
    } else {
        match raw {
            None => None,
            Some(w) => Some(
                if d.interface() == HardwareInterface::Clevo {
                    raw_to_percent(clevo_speed_byte(w) as int) as u32
                } else {
                    w as u32
                },
            ),
        }
    }
}

/// The temperature in °C that reading fan `fan` gives, from the word its temperature read
/// answered (`None` when the read failed); nothing when the fan cannot be asked about or,
/// for Clevo, reports at most 1 °C.
pub open spec fn fan_temperature_reading(d: TuxedoIo, fan: u32, raw: Option<i32>) -> Option<u32> {
    if !fan_readable(d.interface(), fan) {
        None
    } else {
        match raw {
            None => None,
            Some(w) => if d.interface() == HardwareInterface::Clevo {
                if clevo_temp_byte(w) <= 1 {
                    None
                } else {
                    Some(clevo_temp_byte(w))
                }
            } else {
                Some(w as u32)
            },
        }
    }
}

/// How many readings come before the first that failed.
pub open spec fn readable_count(vals: Seq<Option<u32>>) -> int
    decreases vals.len(),
{
    if vals.len() == 0 {
        0
    } else {
        let p = readable_count(vals.drop_last());
        if p == vals.len() - 1 && vals.last() is Some {
            vals.len() as int
        } else {
            p
        }
    }
}

/// The positive readings among the first `n`, each with its fan number, in order.
pub open spec fn positive_among(vals: Seq<Option<u32>>, n: int) -> Seq<(u32, u32)>
    decreases n,
{
    if n <= 0 {
        Seq::empty()
    } else {
        positive_among(vals, n - 1) + match vals[n - 1] {
            Some(v) => if v > 0 {
                seq![((n - 1) as u32, v)]
            } else {
                Seq::empty()
            },
            None => Seq::empty(),
        }
    }
}

/// The positive readings, each with its fan number, up to the first that failed.
pub open spec fn positive_readings(vals: Seq<Option<u32>>) -> Seq<(u32, u32)> {
    positive_among(vals, readable_count(vals))
}

proof fn lemma_readable_count(vals: Seq<Option<u32>>, i: int)
    requires
        0 <= i <= vals.len(),
        forall|j: int| 0 <= j < i ==> (#[trigger] vals[j]) is Some,
        i == vals.len() || vals[i] is None,
    ensures
        readable_count(vals) == i,
    decreases vals.len(),
{
    if vals.len() > 0 {
        let d = vals.drop_last();
        if i == vals.len() {
            lemma_readable_count(d, i - 1);
        } else {
            lemma_readable_count(d, i);
        }
    }
}

/// The speeds of the fans of the device `io` that answer, from the words their speed reads
/// answered (`raws[i]` for fan `i`, `None` when the read failed): up to the first fan
/// that gives no speed, each positive speed with its fan number; none without the device.
pub fn get_fan_speeds(io: Option<&TuxedoIo>, raws: &Vec<Option<i32>>) -> (r: Vec<(u32, u32)>)
    requires
        io matches Some(d) ==> raws.len() == d.fans(),
    ensures
        io is None ==> r@.len() == 0,
        io matches Some(d) ==> r@ == positive_readings(
            Seq::new(d.fans() as nat, |i: int| fan_speed_reading(*d, i as u32, raws@[i])),
        ),
{
    let mut fans: Vec<(u32, u32)> = Vec::new();
    match io {
        None => fans,
        Some(d) => {
            let n = d.get_fan_count();
            let ghost vals = Seq::new(d.fans() as nat, |i: int| fan_speed_reading(*d, i as u32, raws@[i]));
            let mut i: u32 = 0;
            proof {
                if n == 0 {
                    lemma_readable_count(vals, 0);
                }
            }
            while i < n
                invariant_except_break
                    i <= n,
                    n == d.fans(),
                    raws.len() == n,
                    vals == Seq::new(d.fans() as nat, |i: int| fan_speed_reading(*d, i as u32, raws@[i])),
                    forall|j: int| 0 <= j < i ==> (#[trigger] vals[j]) is Some,
                    fans@ == positive_among(vals, i as int),
                    i == n ==> readable_count(vals) == n,
                ensures
                    vals == Seq::new(d.fans() as nat, |i: int| fan_speed_reading(*d, i as u32, raws@[i])),
                    fans@ == positive_among(vals, readable_count(vals)),
                decreases n - i,
            {
                let ok = match d.fan_speed_request(i) {
                    Ok(_) => true,
                    Err(_) => false,
                };
                let reading = if ok {
                    match raws[i as usize] {
                        Some(w) => Some(d.fan_speed_from_raw(w)),
                        None => None,
                    }
                } else {
                    None
                };
                assert(reading == vals[i as int]);
                match reading {
                    None => {
                        proof {
                            lemma_readable_count(vals, i as int);
                        }
                        break;
                    },
                    Some(speed) => {
                        if speed > 0 {
                            fans.push((i, speed));
                        }
                        assert(fans@ =~= positive_among(vals, i + 1));
                    },
                }
                i = i + 1;
                proof {
                    if i == n {
                        lemma_readable_count(vals, i as int);
                    }
                }
            }
            fans
        },
    }
}

/// The temperatures at the fans of the device `io` that answer, from the words their
/// temperature reads answered (`raws[i]` for fan `i`, `None` when the read failed): up to
/// the first fan that gives no temperature, each positive one with its fan number; none
/// without the device.
pub fn get_fan_temperatures(io: Option<&TuxedoIo>, raws: &Vec<Option<i32>>) -> (r: Vec<(u32, u32)>)
    requires
        io matches Some(d) ==> raws.len() == d.fans(),
    ensures
        io is None ==> r@.len() == 0,
        io matches Some(d) ==> r@ == positive_readings(
            Seq::new(d.fans() as nat, |i: int| fan_temperature_reading(*d, i as u32, raws@[i])),
        ),
{
    let mut temps: Vec<(u32, u32)> = Vec::new();
    match io {
        None => temps,
        Some(d) => {
            let n = d.get_fan_count();
            let ghost vals = Seq::new(
                d.fans() as nat,
                |i: int| fan_temperature_reading(*d, i as u32, raws@[i]),
            );
            let mut i: u32 = 0;
            proof {
                if n == 0 {
                    lemma_readable_count(vals, 0);
                }
            }
            while i < n
                invariant_except_break
                    i <= n,
                    n == d.fans(),
                    raws.len() == n,
                    vals == Seq::new(d.fans() as nat, |i: int| fan_temperature_reading(*d, i as u32, raws@[i])),
                    forall|j: int| 0 <= j < i ==> (#[trigger] vals[j]) is Some,
                    temps@ == positive_among(vals, i as int),
                    i == n ==> readable_count(vals) == n,
                ensures
                    vals == Seq::new(d.fans() as nat, |i: int| fan_temperature_reading(*d, i as u32, raws@[i])),
                    temps@ == positive_among(vals, readable_count(vals)),
                decreases n - i,
            {
                let ok = match d.fan_temperature_request(i) {
                    Ok(_) => true,
                    Err(_) => false,
                };
                let reading = if ok {
                    match raws[i as usize] {
                        Some(w) => match d.fan_temperature_from_raw(w) {
                            Ok(t) => Some(t),
                            Err(_) => None,
                        },
                        None => None,
                    }
                } else {
                    None
                };
                assert(reading == vals[i as int]);
                match reading {
                    None => {
                        proof {
                            lemma_readable_count(vals, i as int);
                        }
                        break;
                    },
                    Some(t) => {
                        if t > 0 {
                            temps.push((i, t));
                        }
                        assert(temps@ =~= positive_among(vals, i + 1));
                    },
                }
                i = i + 1;
                proof {
                    if i == n {
                        lemma_readable_count(vals, i as int);
                    }
                }
            }
            temps
        },
    }
}

/// The current, smallest and largest TDP of TDP 0 on the device `io`, from the words its
/// three TDP reads answered (`raws`, in that order; `None` when a read failed). Refused
/// without the device, for a device without TDP control, then when a read failed.
pub fn get_tdp_info(io: Option<&TuxedoIo>, raws: &Vec<Option<i32>>) -> (r: Result<(i32, i32, i32), ControlError>)
    requires
        raws.len() == 3,
    ensures
        io is None ==> r == Err::<(i32, i32, i32), ControlError>(ControlError::TdpInfoUnavailable),
        io matches Some(d) && d.interface() != HardwareInterface::Uniwill ==> r == Err::<
            (i32, i32, i32),
            ControlError,
        >(ControlError::Device(crate::tuxedo_io::IoError::TdpUnsupported)),
        io matches Some(d) && d.interface() == HardwareInterface::Uniwill ==> match (
            raws@[0],
            raws@[1],
            raws@[2],
        ) {
            (Some(cur), Some(min), Some(max)) => r == Ok::<(i32, i32, i32), ControlError>((cur, min, max)),
            _ => r == Err::<(i32, i32, i32), ControlError>(ControlError::ReadFailed),
        },
{
    match io {
        None => Err(ControlError::TdpInfoUnavailable),
        Some(d) => {
            if let Err(e) = d.tdp_request(0, 0) {
                return Err(ControlError::Device(e));
            }
            match (raws[0], raws[1], raws[2]) {
                (Some(cur), Some(min), Some(max)) => Ok((cur, min, max)),
                _ => Err(ControlError::ReadFailed),
            }
        },
    }
}

/// The files of a battery's directory that its reading is made of, each `None` when it
/// could not be read.
pub struct BatteryFiles {
    pub voltage_now: Option<String>,
    pub current_now: Option<String>,
    pub capacity: Option<String>,
    pub charge_full: Option<String>,
    pub manufacturer: Option<String>,
    pub model_name: Option<String>,
    pub charge_control_start_threshold: Option<String>,
    pub charge_control_end_threshold: Option<String>,
}

/// The view of an optional string.
pub open spec fn opt_string(o: Option<String>) -> Option<Seq<char>> {
    match o {
        Some(s) => Some(s@),
        None => None,
    }
}

/// The unsigned number a file holds after trimming; refused when it was not read or
/// holds no such number.
pub open spec fn u64_file(f: Option<Seq<char>>) -> Result<u64, ControlError> {
    match f {
        None => Err(ControlError::ReadFailed),
        Some(c) => match parse_unsigned(trim(c), u64::MAX as nat) {
            Some(v) => Ok(v as u64),
            None => Err(ControlError::InvalidNumber),
        },
    }
}

/// The signed number a file holds after trimming; refused when it was not read or holds
/// no such number.
pub open spec fn i64_file(f: Option<Seq<char>>) -> Result<i64, ControlError> {
    match f {
        None => Err(ControlError::ReadFailed),
        Some(c) => match crate::text::parse_signed(trim(c), i64::MIN as int, i64::MAX as int) {
            Some(v) => Ok(v as i64),
            None => Err(ControlError::InvalidNumber),
        },
    }
}

/// The text a file holds after trimming; refused when it was not read.
pub open spec fn text_file(f: Option<Seq<char>>) -> Result<Seq<char>, ControlError> {
    match f {
        None => Err(ControlError::ReadFailed),
        Some(c) => Ok(trim(c)),
    }
}

/// The first refusal among the files that a battery reading needs, in the order voltage,
/// current, capacity, full charge, manufacturer, model.
pub open spec fn battery_files_error(f: BatteryFiles) -> Option<ControlError> {
    if let Err(e) = u64_file(opt_string(f.voltage_now)) {
        Some(e)
    } else if let Err(e) = i64_file(opt_string(f.current_now)) {
        Some(e)
    } else if let Err(e) = u64_file(opt_string(f.capacity)) {
        Some(e)
    } else if let Err(e) = u64_file(opt_string(f.charge_full)) {
        Some(e)
    } else if let Err(e) = text_file(opt_string(f.manufacturer)) {
        Some(e)
    } else if let Err(e) = text_file(opt_string(f.model_name)) {
        Some(e)
    } else {
        None
    }
}

/// A charge threshold file as a byte (its number's low eight bits), when it was read and
/// holds a number.
pub open spec fn threshold_file(f: Option<Seq<char>>) -> Option<u8> {
    match u64_file(f) {
        Ok(v) => Some(v as u8),
        Err(_) => None,
    }
}

/// The battery that is read: BAT0 when its directory exists, else BAT1 when its directory
/// exists.
pub open spec fn info_battery(bat0_exists: bool, bat1_exists: bool) -> Option<BatteryName> {
    if bat0_exists {
        Some(BatteryName::Bat0)
    } else if bat1_exists {
        Some(BatteryName::Bat1)
    } else {
        None
    }
}

/// The directory of the battery that is read; refused when neither battery exists.
pub fn battery_info_dir(bat0_exists: bool, bat1_exists: bool) -> (r: Result<String, ControlError>)
    ensures
        match info_battery(bat0_exists, bat1_exists) {
            Some(b) => r matches Ok(p) && p@ == battery_dir(b),
            None => r == Err::<String, ControlError>(ControlError::NoBattery),
        },
{
    if bat0_exists {
        Ok(String::from_str("/sys/class/power_supply/BAT0"))
    } else if bat1_exists {
        Ok(String::from_str("/sys/class/power_supply/BAT1"))
    } else {
        Err(ControlError::NoBattery)
    }
}

fn read_u64_file(f: &Option<String>) -> (r: Result<u64, ControlError>)
    ensures
        r == u64_file(opt_string(*f)),
{
    match f {
        None => Err(ControlError::ReadFailed),
        Some(c) => {
            let v = crate::text::chars_of(c.as_str());
            let (a, b) = crate::text::trim_range(&v, 0, v.len());
            assert(v@.subrange(0, v@.len() as int) =~= v@);
            match crate::text::parse_u64(&v, a, b) {
                Some(x) => Ok(x),
                None => Err(ControlError::InvalidNumber),
            }
        },
    }
}

fn read_i64_file(f: &Option<String>) -> (r: Result<i64, ControlError>)
    ensures
        r == i64_file(opt_string(*f)),
{
    match f {
        None => Err(ControlError::ReadFailed),
        Some(c) => {
            let v = crate::text::chars_of(c.as_str());
            let (a, b) = crate::text::trim_range(&v, 0, v.len());
            assert(v@.subrange(0, v@.len() as int) =~= v@);
            match crate::text::parse_i64(&v, a, b) {
                Some(x) => Ok(x),
                None => Err(ControlError::InvalidNumber),
            }
        },
    }
}

fn read_text_file(f: &Option<String>) -> (r: Result<String, ControlError>)
    ensures
        match text_file(opt_string(*f)) {
            Ok(t) => r matches Ok(s) && s@ == t,
            Err(e) => r == Err::<String, ControlError>(e),
        },
{
    match f {
        None => Err(ControlError::ReadFailed),
        Some(c) => Ok(crate::text::trimmed(c.as_str())),
    }
}

/// `v` divided by 1000, rounded toward zero as Rust's integer division does.
fn thousandths(v: i64) -> (r: i64)
    ensures
        r == div_toward_zero(v as int, 1000),
{
    if v >= 0 {
        ((v as u64) / 1000) as i64
    } else {
        let w: u64 = (0i128 - (v as i128)) as u64;
        let q: u64 = w / 1000;
        (0i128 - (q as i128)) as i64
    }
}

/// A reading of the battery (BAT0, else BAT1) from the files of its directory: voltage in
/// mV, current in mA (rounded toward zero), capacity in %, full charge in mAh,
/// manufacturer and model trimmed, and the charge thresholds when their files hold
/// numbers. Refused when neither battery exists, then with the first file that was not
/// read or holds no number (see `battery_files_error`).
pub fn get_battery_info(bat0_exists: bool, bat1_exists: bool, files: &BatteryFiles) -> (r: Result<
    BatteryInfo,
    ControlError,
>)
    ensures
        info_battery(bat0_exists, bat1_exists) is None ==> r == Err::<BatteryInfo, ControlError>(
            ControlError::NoBattery,
        ),
        info_battery(bat0_exists, bat1_exists) is Some ==> match battery_files_error(*files) {
            Some(e) => r == Err::<BatteryInfo, ControlError>(e),
            None => r matches Ok(info) && info.voltage_mv == u64_file(opt_string(files.voltage_now))->Ok_0 / 1000
                && info.current_ma == div_toward_zero(i64_file(opt_string(files.current_now))->Ok_0 as int, 1000)
                && info.charge_percent == u64_file(opt_string(files.capacity))->Ok_0
                && info.capacity_mah == u64_file(opt_string(files.charge_full))->Ok_0 / 1000
                && info.manufacturer@ == text_file(opt_string(files.manufacturer))->Ok_0
                && info.model@ == text_file(opt_string(files.model_name))->Ok_0
                && info.charge_start_threshold == threshold_file(opt_string(files.charge_control_start_threshold))
                && info.charge_end_threshold == threshold_file(opt_string(files.charge_control_end_threshold)),
        },
{
    if !bat0_exists && !bat1_exists {
        return Err(ControlError::NoBattery);
    }
    let voltage = match read_u64_file(&files.voltage_now) {
        Ok(v) => v,
        Err(e) => return Err(e),
    };
    let current = match read_i64_file(&files.current_now) {
        Ok(v) => v,
        Err(e) => return Err(e),
    };
    let capacity = match read_u64_file(&files.capacity) {
        Ok(v) => v,
        Err(e) => return Err(e),
    };
    let full = match read_u64_file(&files.charge_full) {
        Ok(v) => v,
        Err(e) => return Err(e),
    };
    let manufacturer = match read_text_file(&files.manufacturer) {
        Ok(v) => v,
        Err(e) => return Err(e),
    };
    let model = match read_text_file(&files.model_name) {
        Ok(v) => v,
        Err(e) => return Err(e),
    };
    let start = match read_u64_file(&files.charge_control_start_threshold) {
        Ok(v) => Some(v as u8),
        Err(_) => None,
    };
    let end = match read_u64_file(&files.charge_control_end_threshold) {
        Ok(v) => Some(v as u8),
        Err(_) => None,
    };
    Ok(BatteryInfo {
        voltage_mv: voltage / 1000,
        current_ma: thousandths(current),
        charge_percent: capacity,
        capacity_mah: full / 1000,
        manufacturer,
        model,
        charge_start_threshold: start,
        charge_end_threshold: end,
    })
}

/// The files whose existence tells the CPU's capabilities, in the order
/// `detect_cpu_capabilities` reads them.
pub open spec fn capability_files() -> Seq<Seq<char>> {
    seq![
        "/sys/devices/system/cpu/cpufreq/boost"@,
        "/sys/devices/system/cpu/intel_pstate/no_turbo"@,
        "/sys/devices/system/cpu/cpu0/cpufreq/cpuinfo_max_freq"@,
        "/sys/devices/system/cpu/cpu0/cpufreq/cpuinfo_min_freq"@,
        "/sys/devices/system/cpu/cpu0/cpufreq/scaling_driver"@,
        "/sys/devices/system/cpu/cpufreq/policy0/scaling_driver"@,
        "/sys/devices/system/cpu/cpu0/cpufreq/energy_performance_preference"@,
        "/sys/devices/system/cpu/cpu0/cpufreq/scaling_governor"@,
        "/sys/devices/system/cpu/smt/control"@,
        "/sys/devices/system/cpu/cpu0/cpufreq/scaling_min_freq"@,
        "/sys/devices/system/cpu/cpu0/cpufreq/scaling_max_freq"@,
        "/sys/devices/system/cpu/cpu0/cpufreq/scaling_available_governors"@,
        "/sys/devices/system/cpu/amd_pstate/status"@,
    ]
}

/// The files whose existence tells the CPU's capabilities (see `capability_files`).
pub fn capability_paths() -> (r: Vec<String>)
    ensures
        string_views(r@) == capability_files(),
{
    let r = vec![
        String::from_str("/sys/devices/system/cpu/cpufreq/boost"),
        String::from_str("/sys/devices/system/cpu/intel_pstate/no_turbo"),
        String::from_str("/sys/devices/system/cpu/cpu0/cpufreq/cpuinfo_max_freq"),
        String::from_str("/sys/devices/system/cpu/cpu0/cpufreq/cpuinfo_min_freq"),
        String::from_str("/sys/devices/system/cpu/cpu0/cpufreq/scaling_driver"),
        String::from_str("/sys/devices/system/cpu/cpufreq/policy0/scaling_driver"),
        String::from_str("/sys/devices/system/cpu/cpu0/cpufreq/energy_performance_preference"),
        String::from_str("/sys/devices/system/cpu/cpu0/cpufreq/scaling_governor"),
        String::from_str("/sys/devices/system/cpu/smt/control"),
        String::from_str("/sys/devices/system/cpu/cpu0/cpufreq/scaling_min_freq"),
        String::from_str("/sys/devices/system/cpu/cpu0/cpufreq/scaling_max_freq"),
        String::from_str("/sys/devices/system/cpu/cpu0/cpufreq/scaling_available_governors"),
        String::from_str("/sys/devices/system/cpu/amd_pstate/status"),
    ];
    assert(string_views(r@) =~= capability_files());
    r
}

/// The CPU's capabilities from which of the files of `capability_files` exist
/// (`exists[i]` for file `i`): boost through either the AMD or the Intel file, the
/// scaling driver through either of its two files, each other capability through its
/// own file.
pub fn detect_cpu_capabilities(exists: &Vec<bool>) -> (r: CpuCapabilities)
    requires
        exists.len() == 13,
    ensures
        r.has_boost == (exists@[0] || exists@[1]),
        r.has_cpuinfo_max_freq == exists@[2],
        r.has_cpuinfo_min_freq == exists@[3],
        r.has_scaling_driver == (exists@[4] || exists@[5]),
        r.has_energy_performance_preference == exists@[6],
        r.has_scaling_governor == exists@[7],
        r.has_smt == exists@[8],
        r.has_scaling_min_freq == exists@[9],
        r.has_scaling_max_freq == exists@[10],
        r.has_available_governors == exists@[11],
        r.has_amd_pstate == exists@[12],
{
    CpuCapabilities {
        has_boost: exists[0] || exists[1],
        has_cpuinfo_max_freq: exists[2],
        has_cpuinfo_min_freq: exists[3],
        has_scaling_driver: exists[4] || exists[5],
        has_energy_performance_preference: exists[6],
        has_scaling_governor: exists[7],
        has_smt: exists[8],
        has_scaling_min_freq: exists[9],
        has_scaling_max_freq: exists[10],
        has_available_governors: exists[11],
        has_amd_pstate: exists[12],
    }
}


/// The view of an optional string slice.
pub open spec fn opt_str(o: Option<&str>) -> Option<Seq<char>> {
    match o {
        Some(c) => Some(c@),
        None => None,
    }
}

/// The CPU scheduler named by the scheduler features file (`None` when neither place
/// could be read): EEVDF when the file mentions it, else CFS.
pub open spec fn scheduler_name(features: Option<Seq<char>>) -> Seq<char> {
    match features {
        Some(c) => if crate::text::occurs_in("EEVDF"@, c) {
            "EEVDF"@
        } else {
            "CFS"@
        },
        None => "CFS"@,
    }
}

/// The scheduler in use and the schedulers known (CFS and EEVDF).
pub fn get_scheduler_info(features: Option<&str>) -> (r: (String, Vec<String>))
    ensures
        r.0@ == scheduler_name(opt_str(features)),
        string_views(r.1@) == seq!["CFS"@, "EEVDF"@],
{
    let scheduler = match features {
        Some(c) => {
            let v = crate::text::chars_of(c);
            let pat = crate::text::chars_of("EEVDF");
            assert(v@.subrange(0, v@.len() as int) =~= v@);
            if crate::text::contains(&v, 0, v.len(), &pat) {
                String::from_str("EEVDF")
            } else {
                String::from_str("CFS")
            }
        },
        None => String::from_str("CFS"),
    };
    let available = vec![String::from_str("CFS"), String::from_str("EEVDF")];
    assert(string_views(available@) =~= seq!["CFS"@, "EEVDF"@]);
    (scheduler, available)
}

/// The first of the lines from position `from` on that begins with `prefix`.
pub open spec fn first_beginning_with(ls: Seq<Seq<char>>, prefix: Seq<char>, from: int) -> Option<int>
    decreases ls.len() - from,
{
    if from < 0 || from >= ls.len() {
        None
    } else if begins_with(ls[from], prefix) {
        Some(from)
    } else {
        first_beginning_with(ls, prefix, from + 1)
    }
}

/// Whether `/proc/cpuinfo` (`None` when it could not be read) names an AMD CPU: its first
/// `vendor_id` line mentions AuthenticAMD.
pub open spec fn amd_vendor(cpuinfo: Option<Seq<char>>) -> bool {
    match cpuinfo {
        None => false,
        Some(c) => match first_beginning_with(lines(c), "vendor_id"@, 0) {
            Some(i) => crate::text::occurs_in("AuthenticAMD"@, lines(c)[i]),
            None => false,
        },
    }
}

/// Whether `/proc/cpuinfo` names an AMD CPU (see `amd_vendor`).
pub fn is_amd_cpu(cpuinfo: Option<&str>) -> (r: bool)
    ensures
        r == amd_vendor(opt_str(cpuinfo)),
{
    match cpuinfo {
        Some(c) => names_amd_vendor(c),
        None => false,
    }
}

fn names_amd_vendor(c: &str) -> (r: bool)
    ensures
        r == amd_vendor(Some(c@)),
{
    let v = crate::text::chars_of(c);
    let ranges = crate::text::line_ranges(&v, 0, v.len());
    assert(v@.subrange(0, v@.len() as int) =~= v@);
    let prefix = crate::text::chars_of("vendor_id");
    let amd = crate::text::chars_of("AuthenticAMD");
    let ghost ls = pieces(v@, ranges@);
    for k in 0..ranges.len()
        invariant
            ls == pieces(v@, ranges@),
            ls == lines(c@),
            prefix@ == "vendor_id"@,
            amd@ == "AuthenticAMD"@,
            forall|j: int| 0 <= j < ranges.len() ==> 0 <= (#[trigger] ranges@[j]).0 <= ranges@[j].1 <= v.len(),
            first_beginning_with(ls, prefix@, 0) == first_beginning_with(ls, prefix@, k as int),
    {
        let (a, b) = ranges[k];
        assert(ls[k as int] == v@.subrange(a as int, b as int));
        let hit = crate::text::starts_with(&v, a, b, &prefix);
        proof {
            let l = ls[k as int];
            if prefix@.len() <= l.len() {
                assert(l.subrange(0, prefix@.len() as int) =~= v@.subrange(a as int, a + prefix@.len()));
            }
        }
        if hit {
            assert(begins_with(ls[k as int], prefix@));
            assert(first_beginning_with(ls, prefix@, k as int) == Some(k as int));
            assert(lines(c@)[k as int] == v@.subrange(a as int, b as int));
            let res = crate::text::contains(&v, a, b, &amd);
            assert(res == crate::text::occurs_in("AuthenticAMD"@, lines(c@)[k as int]));
            assert(first_beginning_with(lines(c@), "vendor_id"@, 0) == Some(k as int));
            assert(amd_vendor(Some(c@)) == res);
            return res;
        }
    }
    false
}

/// The position of the first `:` in `s`, or its length when there is none.
pub open spec fn colon_pos(s: Seq<char>) -> int
    decreases s.len(),
{
    if s.len() == 0 {
        0
    } else if s[0] == ':' {
        0
    } else {
        1 + colon_pos(s.drop_first())
    }
}

/// The second `:`-separated field of a line, trimmed, as `split(':').nth(1)` and `trim`
/// give it; none when the line has no `:`.
pub open spec fn second_field(l: Seq<char>) -> Option<Seq<char>> {
    let p = colon_pos(l);
    if p < l.len() {
        let rest = l.subrange(p + 1, l.len() as int);
        Some(trim(rest.subrange(0, colon_pos(rest))))
    } else {
        None
    }
}

/// The CPU model named by the first `model name` line from position `from` on that has a
/// `:`.
pub open spec fn cpu_name_from(ls: Seq<Seq<char>>, from: int) -> Option<Seq<char>>
    decreases ls.len() - from,
{
    if from < 0 || from >= ls.len() {
        None
    } else if begins_with(ls[from], "model name"@) && second_field(ls[from]) is Some {
        second_field(ls[from])
    } else {
        cpu_name_from(ls, from + 1)
    }
}

/// Where the first `:` of `v[a..b]` stands, or `b` when there is none.
fn find_colon(v: &Vec<char>, a: usize, b: usize) -> (r: usize)
    requires
        a <= b <= v.len(),
    ensures
        a <= r <= b,
        r - a == colon_pos(v@.subrange(a as int, b as int)),
{
    let mut i = a;
    while i < b && v[i] != ':'
        invariant
            a <= i <= b <= v.len(),
            colon_pos(v@.subrange(a as int, b as int)) == (i - a) + colon_pos(v@.subrange(i as int, b as int)),
        decreases b - i,
    {
        assert(v@.subrange(i as int, b as int).drop_first() =~= v@.subrange(i + 1, b as int));
        i = i + 1;
    }
    i
}

/// The CPU model that `/proc/cpuinfo` names (see `cpu_name_from`); refused when no line
/// names one.
pub fn get_cpu_name(cpuinfo: &str) -> (r: Result<String, ControlError>)
    ensures
        match cpu_name_from(lines(cpuinfo@), 0) {
            Some(n) => r matches Ok(s) && s@ == n,
            None => r == Err::<String, ControlError>(ControlError::CpuNameNotFound),
        },
{
    let v = crate::text::chars_of(cpuinfo);
    let ranges = crate::text::line_ranges(&v, 0, v.len());
    assert(v@.subrange(0, v@.len() as int) =~= v@);
    let prefix = crate::text::chars_of("model name");
    let ghost ls = pieces(v@, ranges@);
    for k in 0..ranges.len()
        invariant
            ls == pieces(v@, ranges@),
            ls == lines(cpuinfo@),
            prefix@ == "model name"@,
            forall|j: int| 0 <= j < ranges.len() ==> 0 <= (#[trigger] ranges@[j]).0 <= ranges@[j].1 <= v.len(),
            cpu_name_from(ls, 0) == cpu_name_from(ls, k as int),
    {
        let (a, b) = ranges[k];
        let ghost l = ls[k as int];
        assert(l == v@.subrange(a as int, b as int));
        let hit = crate::text::starts_with(&v, a, b, &prefix);
        proof {
            if prefix@.len() <= l.len() {
                assert(l.subrange(0, prefix@.len() as int) =~= v@.subrange(a as int, a + prefix@.len()));
            }
        }
        if hit {
            let p = find_colon(&v, a, b);
            if p < b {
                let q = find_colon(&v, p + 1, b);
                let (s0, e0) = crate::text::trim_range(&v, p + 1, q);
                proof {
                    let rest = l.subrange(p - a + 1, l.len() as int);
                    assert(rest =~= v@.subrange(p + 1, b as int));
                    assert(rest.subrange(0, colon_pos(rest)) =~= v@.subrange(p + 1, q as int));
                }
                return Ok(crate::text::string_of(&v, s0, e0));
            }
        }
    }
    Err(ControlError::CpuNameNotFound)
}

/// A directory entry of `/sys/class/drm` is an AMD card: its name begins with "card" and
/// has no `-`, and its vendor file (`None` when it could not be read) holds 0x1002.
pub open spec fn is_amd_card(name: Seq<char>, vendor: Option<Seq<char>>) -> bool {
    &&& begins_with(name, "card"@)
    &&& !name.contains('-')
    &&& vendor matches Some(c) && trim(c) == "0x1002"@
}

/// How many of the entries are AMD cards.
pub open spec fn amd_card_count(entries: Seq<(Seq<char>, Option<Seq<char>>)>) -> nat
    decreases entries.len(),
{
    if entries.len() == 0 {
        0
    } else {
        amd_card_count(entries.drop_last()) + if is_amd_card(entries.last().0, entries.last().1) {
            1nat
        } else {
            0nat
        }
    }
}

/// The views of the entries of `/sys/class/drm`: names and vendor files.
pub open spec fn drm_views(entries: Seq<(String, Option<String>)>) -> Seq<(Seq<char>, Option<Seq<char>>)> {
    entries.map_values(|e: (String, Option<String>)| (e.0@, opt_string(e.1)))
}

fn has_dash(v: &Vec<char>) -> (r: bool)
    ensures
        r == v@.contains('-'),
{
    for i in 0..v.len()
        invariant
            forall|j: int| 0 <= j < i ==> v@[j] != '-',
    {
        if v[i] == '-' {
            return true;
        }
    }
    false
}

/// The number of AMD discrete GPUs: the AMD cards among the entries of `/sys/class/drm`
/// (name and vendor file of each) less one for the integrated GPU, and 0 when there is at
/// most one.
pub fn get_amd_dgpu_count(entries: &Vec<(String, Option<String>)>) -> (r: u32)
    requires
        entries.len() <= u32::MAX,
    ensures
        r == if amd_card_count(drm_views(entries@)) > 1 {
            amd_card_count(drm_views(entries@)) - 1
        } else {
            0
        },
{
    let ghost es = drm_views(entries@);
    let card = crate::text::chars_of("card");
    let mut count: u32 = 0;
    for k in 0..entries.len()
        invariant
            es == drm_views(entries@),
            entries.len() <= u32::MAX,
            card@ == "card"@,
            count == amd_card_count(es.take(k as int)),
            count <= k,
    {
        let name = crate::text::chars_of(entries[k].0.as_str());
        let is_card = crate::text::starts_with(&name, 0, name.len(), &card);
        assert(name@.subrange(0, name@.len() as int) =~= name@);
        let dash = has_dash(&name);
        let vendor_ok = match &entries[k].1 {
            Some(c) => trimmed_is(c.as_str(), "0x1002"),
            None => false,
        };
        proof {
            assert(es[k as int] == (entries@[k as int].0@, opt_string(entries@[k as int].1)));
            assert(es.take(k + 1).drop_last() =~= es.take(k as int));
        }
        if is_card && !dash && vendor_ok {
            count = count + 1;
        }
    }
    assert(es.take(entries.len() as int) =~= es);
    if count > 1 {
        count - 1
    } else {
        0
    }
}

/// Which power source gives the CPU's power, by the sources' names in the order they were
/// found: for an AMD CPU without a discrete GPU the first "amdgpu" source; for an AMD CPU
/// the first "zenpower", else the first "amd_energy"; else the first "RAPL".
pub open spec fn power_source_choice(names: Seq<Seq<char>>, amd: bool, dgpu_count: u32) -> Option<int> {
    let first = |n: Seq<char>| crate::hardware_control::first_position(names, n);
    if amd && dgpu_count == 0 && first("amdgpu"@) is Some {
        first("amdgpu"@)
    } else if amd && first("zenpower"@) is Some {
        first("zenpower"@)
    } else if amd && first("amd_energy"@) is Some {
        first("amd_energy"@)
    } else {
        first("RAPL"@)
    }
}

/// The position of the power source that gives the CPU's power (see
/// `power_source_choice`).
pub fn select_cpu_power_source(names: &Vec<String>, amd: bool, dgpu_count: u32) -> (r: Option<usize>)
    ensures
        r matches Some(i) ==> i < names.len(),
        r == match power_source_choice(string_views(names@), amd, dgpu_count) {
            Some(i) => Some(i as usize),
            None => None::<usize>,
        },
{
    if amd && dgpu_count == 0 {
        if let Some(i) = crate::hardware_control::position_of(names, "amdgpu") {
            return Some(i);
        }
    }
    if amd {
        if let Some(i) = crate::hardware_control::position_of(names, "zenpower") {
            return Some(i);
        }
        if let Some(i) = crate::hardware_control::position_of(names, "amd_energy") {
            return Some(i);
        }
    }
    crate::hardware_control::position_of(names, "RAPL")
}

/// Which power source the CPU report names, by the sources' names: the first "amdgpu"
/// source, else the first "RAPL" source.
pub open spec fn reported_source_choice(names: Seq<Seq<char>>) -> Option<int> {
    let first = |n: Seq<char>| crate::hardware_control::first_position(names, n);
    if first("amdgpu"@) is Some {
        first("amdgpu"@)
    } else {
        first("RAPL"@)
    }
}

/// The position of the power source that the CPU report names (see
/// `reported_source_choice`).
pub fn reported_power_source(names: &Vec<String>) -> (r: Option<usize>)
    ensures
        r matches Some(i) ==> i < names.len(),
        r == match reported_source_choice(string_views(names@)) {
            Some(i) => Some(i as usize),
            None => None::<usize>,
        },
{
    if let Some(i) = crate::hardware_control::position_of(names, "amdgpu") {
        return Some(i);
    }
    crate::hardware_control::position_of(names, "RAPL")
}

/// A file's trimmed text read as an unsigned number, when it was read and holds one.
pub open spec fn file_u64(f: Option<Seq<char>>) -> Option<u64> {
    match u64_file(f) {
        Ok(v) => Some(v),
        Err(_) => None,
    }
}

fn parse_file_u64(f: Option<&str>) -> (r: Option<u64>)
    ensures
        r == file_u64(opt_str(f)),
{
    match f {
        None => None,
        Some(c) => {
            let v = crate::text::chars_of(c);
            let (a, b) = crate::text::trim_range(&v, 0, v.len());
            assert(v@.subrange(0, v@.len() as int) =~= v@);
            crate::text::parse_u64(&v, a, b)
        },
    }
}

/// The scaling limits of CPU 0 in kHz from its `scaling_min_freq` and `scaling_max_freq`
/// files (`None` when unread), each when it holds a number.
pub fn read_frequency_limits(min_file: Option<&str>, max_file: Option<&str>) -> (r: (Option<u64>, Option<u64>))
    ensures
        r.0 == file_u64(opt_str(min_file)),
        r.1 == file_u64(opt_str(max_file)),
{
    (parse_file_u64(min_file), parse_file_u64(max_file))
}

/// The hardware limits of CPU 0 in kHz from its `cpuinfo_min_freq` and `cpuinfo_max_freq`
/// files (`None` when unread), 400000 and 5000000 where a file gives no number.
pub fn read_hw_frequency_limits(min_file: Option<&str>, max_file: Option<&str>) -> (r: (u64, u64))
    ensures
        r.0 == match file_u64(opt_str(min_file)) {
            Some(v) => v,
            None => 400000,
        },
        r.1 == match file_u64(opt_str(max_file)) {
            Some(v) => v,
            None => 5000000,
        },
{
    let min = match parse_file_u64(min_file) {
        Some(v) => v,
        None => 400000,
    };
    let max = match parse_file_u64(max_file) {
        Some(v) => v,
        None => 5000000,
    };
    (min, max)
}

fn trimmed_is(c: &str, word: &str) -> (r: bool)
    ensures
        r == (trim(c@) == word@),
{
    let t = crate::text::trimmed(c);
    crate::battery_control::str_equal(t.as_str(), word)
}

/// Whether CPU boost is on: the AMD `boost` file holds 1 when it could be read, else the
/// Intel `no_turbo` file holds 0 when it could be read, else off.
pub fn is_boost_enabled(boost_file: Option<&str>, no_turbo_file: Option<&str>) -> (r: bool)
    ensures
        r == match (opt_str(boost_file), opt_str(no_turbo_file)) {
            (Some(b), _) => trim(b) == "1"@,
            (None, Some(n)) => trim(n) == "0"@,
            (None, None) => false,
        },
{
    match boost_file {
        Some(b) => trimmed_is(b, "1"),
        None => match no_turbo_file {
            Some(n) => trimmed_is(n, "0"),
            None => false,
        },
    }
}

/// Whether simultaneous multithreading is on: on when its control file does not exist
/// (`None`), else when the file holds "on".
pub fn is_smt_enabled(control_file: Option<&str>) -> (r: bool)
    ensures
        r == match opt_str(control_file) {
            Some(c) => trim(c) == "on"@,
            None => true,
        },
{
    match control_file {
        Some(c) => trimmed_is(c, "on"),
        None => true,
    }
}

/// The governor of CPU 0: "not_available" when its file does not exist (`None`), else the
/// file's trimmed text.
pub fn read_governor(governor_file: Option<&str>) -> (r: String)
    ensures
        r@ == match opt_str(governor_file) {
            Some(c) => trim(c),
            None => "not_available"@,
        },
{
    match governor_file {
        Some(c) => crate::text::trimmed(c),
        None => String::from_str("not_available"),
    }
}

/// The scaling driver: "unknown" when its file does not exist (`None`), else the file's
/// trimmed text.
pub fn read_scaling_driver(driver_file: Option<&str>) -> (r: String)
    ensures
        r@ == match opt_str(driver_file) {
            Some(c) => trim(c),
            None => "unknown"@,
        },
{
    match driver_file {
        Some(c) => crate::text::trimmed(c),
        None => String::from_str("unknown"),
    }
}

/// The AMD P-state mode: the trimmed text of its status file, refused when the file could
/// not be read (`None`).
pub fn read_amd_pstate_status(status_file: Option<&str>) -> (r: Result<String, ControlError>)
    ensures
        match opt_str(status_file) {
            Some(c) => r matches Ok(s) && s@ == trim(c),
            None => r == Err::<String, ControlError>(ControlError::ReadFailed),
        },
{
    match status_file {
        Some(c) => Ok(crate::text::trimmed(c)),
        None => Err(ControlError::ReadFailed),
    }
}

/// CPU 0's energy performance preference: the trimmed text of its file, none when the file
/// could not be read.
pub fn read_energy_performance_preference(preference_file: Option<&str>) -> (r: Option<String>)
    ensures
        match opt_str(preference_file) {
            Some(c) => r matches Some(s) && s@ == trim(c),
            None => r is None,
        },
{
    match preference_file {
        Some(c) => Some(crate::text::trimmed(c)),
        None => None,
    }
}

/// The governors CPU 0 offers: the words of its file, none when it does not exist.
pub fn read_available_governors(governors_file: Option<&str>) -> (r: Vec<String>)
    ensures
        string_views(r@) == match opt_str(governors_file) {
            Some(c) => words(c),
            None => Seq::empty(),
        },
{
    match governors_file {
        Some(c) => crate::text::split_words(c),
        None => {
            let r: Vec<String> = Vec::new();
            assert(string_views(r@) =~= Seq::empty());
            r
        },
    }
}

/// The energy performance preferences CPU 0 offers: the words of its file, or when it
/// could not be read performance, balance_performance, balance_power and power.
pub fn read_available_epp_options(options_file: Option<&str>) -> (r: Vec<String>)
    ensures
        string_views(r@) == match opt_str(options_file) {
            Some(c) => words(c),
            None => seq!["performance"@, "balance_performance"@, "balance_power"@, "power"@],
        },
{
    match options_file {
        Some(c) => crate::text::split_words(c),
        None => {
            let r = vec![
                String::from_str("performance"),
                String::from_str("balance_performance"),
                String::from_str("balance_power"),
                String::from_str("power"),
            ];
            assert(string_views(r@) =~= seq!["performance"@, "balance_performance"@, "balance_power"@, "power"@]);
            r
        },
    }
}


/// A DMI file's trimmed text, or "Unknown" when it could not be read.
pub open spec fn dmi_text(f: Option<Seq<char>>) -> Seq<char> {
    match f {
        Some(c) => trim(c),
        None => "Unknown"@,
    }
}

fn read_dmi(f: Option<&str>) -> (r: String)
    ensures
        r@ == dmi_text(opt_str(f)),
{
    match f {
        Some(c) => crate::text::trimmed(c),
        None => String::from_str("Unknown"),
    }
}

/// The machine's identification from its DMI product name, vendor and BIOS version files
/// (`None` for a file that could not be read).
pub fn get_system_info(product_name: Option<&str>, sys_vendor: Option<&str>, bios_version: Option<&str>) -> (r:
    SystemInfo)
    ensures
        r.product_name@ == dmi_text(opt_str(product_name)),
        r.manufacturer@ == dmi_text(opt_str(sys_vendor)),
        r.bios_version@ == dmi_text(opt_str(bios_version)),
{
    SystemInfo {
        product_name: read_dmi(product_name),
        manufacturer: read_dmi(sys_vendor),
        bios_version: read_dmi(bios_version),
    }
}

/// The name of GPU `index` by its vendor id: "AMD GPU", "NVIDIA GPU", "Intel GPU" or
/// "GPU", followed by the index.
pub open spec fn gpu_name_of(index: u32, vendor: Seq<char>) -> Seq<char> {
    let v = trim(vendor);
    let maker = if v == "0x1002"@ {
        "AMD GPU "@
    } else if v == "0x10de"@ {
        "NVIDIA GPU "@
    } else if v == "0x8086"@ {
        "Intel GPU "@
    } else {
        "GPU "@
    };
    maker + crate::text::decimal(index as nat)
}

/// The name of GPU `index` (card `index` of `/sys/class/drm`) from its vendor file.
pub fn gpu_name(index: u32, vendor: &str) -> (r: String)
    ensures
        r@ == gpu_name_of(index, vendor@),
{
    let mut r = if trimmed_is(vendor, "0x1002") {
        String::from_str("AMD GPU ")
    } else if trimmed_is(vendor, "0x10de") {
        String::from_str("NVIDIA GPU ")
    } else if trimmed_is(vendor, "0x8086") {
        String::from_str("Intel GPU ")
    } else {
        String::from_str("GPU ")
    };
    let n = crate::text::decimal_string(index as u64);
    r.append(n.as_str());
    r
}

/// Card 0 is the integrated GPU, the others are discrete.
pub fn gpu_type(index: u32) -> (r: GpuType)
    ensures
        r == if index == 0 {
            GpuType::Integrated
        } else {
            GpuType::Discrete
        },
{
    if index == 0 {
        GpuType::Integrated
    } else {
        GpuType::Discrete
    }
}

/// A GPU's runtime power status, from its file: trimmed, or "unknown" when unread.
pub fn gpu_status(status_file: Option<&str>) -> (r: String)
    ensures
        r@ == match opt_str(status_file) {
            Some(c) => trim(c),
            None => "unknown"@,
        },
{
    match status_file {
        Some(c) => crate::text::trimmed(c),
        None => String::from_str("unknown"),
    }
}

/// `s` without all its trailing repetitions of `p`, as `trim_end_matches(p)` gives it.
pub open spec fn strip_all_suffix(s: Seq<char>, p: Seq<char>) -> Seq<char>
    decreases s.len(),
{
    if p.len() > 0 && p.len() <= s.len() && s.subrange(s.len() - p.len(), s.len() as int) == p {
        strip_all_suffix(s.subrange(0, s.len() - p.len()), p)
    } else {
        s
    }
}

/// Where `v[a..b]` ends after its trailing repetitions of `suffix`.
fn strip_suffix_end(v: &Vec<char>, a: usize, b: usize, suffix: &Vec<char>) -> (r: usize)
    requires
        a <= b <= v.len(),
        suffix.len() > 0,
    ensures
        a <= r <= b,
        v@.subrange(a as int, r as int) == strip_all_suffix(v@.subrange(a as int, b as int), suffix@),
{
    let mut e = b;
    while e - a >= suffix.len() && crate::text::starts_with(v, e - suffix.len(), e, suffix)
        invariant
            a <= e <= b <= v.len(),
            suffix.len() > 0,
            strip_all_suffix(v@.subrange(a as int, b as int), suffix@) == strip_all_suffix(
                v@.subrange(a as int, e as int),
                suffix@,
            ),
        decreases e,
    {
        let ghost t = v@.subrange(a as int, e as int);
        assert(t.subrange(t.len() - suffix.len(), t.len() as int) =~= v@.subrange(e - suffix.len(), e as int));
        assert(v@.subrange(e - suffix.len(), e - suffix.len() + suffix.len()) =~= v@.subrange(
            e - suffix.len(),
            e as int,
        ));
        assert(t.subrange(0, t.len() - suffix.len()) =~= v@.subrange(a as int, e - suffix.len()));
        e = e - suffix.len();
    }
    proof {
        let t = v@.subrange(a as int, e as int);
        if suffix@.len() <= t.len() {
            assert(t.subrange(t.len() - suffix@.len(), t.len() as int) =~= v@.subrange(
                e - suffix.len(),
                e as int,
            ));
            assert(v@.subrange(e - suffix.len(), e - suffix.len() + suffix.len()) =~= v@.subrange(
                e - suffix.len(),
                e as int,
            ));
        }
    }
    e
}

/// The frequency in MHz that a line of `pp_dpm_sclk` gives when it is the current one
/// (marked `*`): its second word without trailing "Mhz", when that is a number.
pub open spec fn sclk_line_freq(l: Seq<char>) -> Option<u64> {
    let ws = words(l);
    if l.contains('*') && ws.len() >= 2 {
        u64_word(strip_all_suffix(ws[1], "Mhz"@))
    } else {
        None
    }
}

/// The first frequency that the lines from `from` on give (see `sclk_line_freq`).
pub open spec fn sclk_freq_from(ls: Seq<Seq<char>>, from: int) -> Option<u64>
    decreases ls.len() - from,
{
    if from < 0 || from >= ls.len() {
        None
    } else {
        match sclk_line_freq(ls[from]) {
            Some(f) => Some(f),
            None => sclk_freq_from(ls, from + 1),
        }
    }
}

/// A GPU's current frequency in MHz: the AMD `pp_dpm_sclk` file's current line when one
/// gives a number, else the Intel `gt_cur_freq_mhz` file's trimmed number (`None` for a
/// file that could not be read).
pub open spec fn gpu_frequency(sclk: Option<Seq<char>>, cur_freq: Option<Seq<char>>) -> Option<u64> {
    let amd = match sclk {
        Some(c) => sclk_freq_from(lines(c), 0),
        None => None,
    };
    match amd {
        Some(f) => Some(f),
        None => file_u64(cur_freq),
    }
}

fn has_char(v: &Vec<char>, a: usize, b: usize, c: char) -> (r: bool)
    requires
        a <= b <= v.len(),
    ensures
        r == v@.subrange(a as int, b as int).contains(c),
{
    let p = crate::text::find_char(v, a, b, c);
    proof {
        let t = v@.subrange(a as int, b as int);
        crate::text::lemma_char_pos_bounds(t, c);
        if p < b {
            assert(t[p - a] == c);
        } else {
            assert forall|i: int| 0 <= i < t.len() implies t[i] != c by {}
        }
    }
    p < b
}

fn sclk_freq(c: &str) -> (r: Option<u64>)
    ensures
        r == sclk_freq_from(lines(c@), 0),
{
    let v = crate::text::chars_of(c);
    let ranges = crate::text::line_ranges(&v, 0, v.len());
    assert(v@.subrange(0, v@.len() as int) =~= v@);
    let mhz = crate::text::chars_of("Mhz");
    proof {
        reveal_strlit("Mhz");
    }
    let ghost ls = pieces(v@, ranges@);
    for k in 0..ranges.len()
        invariant
            ls == pieces(v@, ranges@),
            ls == lines(c@),
            mhz@ == "Mhz"@,
            mhz.len() == 3,
            forall|j: int| 0 <= j < ranges.len() ==> 0 <= (#[trigger] ranges@[j]).0 <= ranges@[j].1 <= v.len(),
            sclk_freq_from(ls, 0) == sclk_freq_from(ls, k as int),
    {
        let (a, b) = ranges[k];
        let ghost l = ls[k as int];
        assert(l == v@.subrange(a as int, b as int));
        if has_char(&v, a, b, '*') {
            let wr = crate::text::word_ranges(&v, a, b);
            assert(pieces(v@, wr@) == words(l));
            if wr.len() >= 2 {
                let (s1, e1) = wr[1];
                assert(words(l)[1] == v@.subrange(s1 as int, e1 as int));
                let e = strip_suffix_end(&v, s1, e1, &mhz);
                let f = word_u64(&v, s1, e);
                if let Some(x) = f {
                    return Some(x);
                }
            }
        }
    }
    None
}

/// A GPU's current frequency in MHz (see `gpu_frequency`).
pub fn read_gpu_frequency(sclk_file: Option<&str>, cur_freq_file: Option<&str>) -> (r: Option<u64>)
    ensures
        r == gpu_frequency(opt_str(sclk_file), opt_str(cur_freq_file)),
{
    let amd = match sclk_file {
        Some(c) => sclk_freq(c),
        None => None,
    };
    match amd {
        Some(f) => Some(f),
        None => parse_file_u64(cur_freq_file),
    }
}


/// A word read as an `i32`.
pub open spec fn i32_word(w: Seq<char>) -> Option<i32> {
    match crate::text::parse_signed(w, i32::MIN as int, i32::MAX as int) {
        Some(v) => Some(v as i32),
        None => None,
    }
}

fn word_i32(v: &Vec<char>, a: usize, b: usize) -> (r: Option<i32>)
    requires
        a <= b <= v.len(),
    ensures
        r == i32_word(v@.subrange(a as int, b as int)),
{
    match crate::text::parse_i64(v, a, b) {
        Some(x) => if i32::MIN as i64 <= x && x <= i32::MAX as i64 {
            Some(x as i32)
        } else {
            None
        },
        None => None,
    }
}

/// A word read as a `u32`.
pub open spec fn u32_word(w: Seq<char>) -> Option<u32> {
    match parse_unsigned(w, u32::MAX as nat) {
        Some(v) => Some(v as u32),
        None => None,
    }
}

/// The signal level in dBm that a line of `/proc/net/wireless` gives for `interface`:
/// when the line mentions the interface and has at least four words, its fourth word
/// without trailing dots, when that is a number.
pub open spec fn signal_of_line(l: Seq<char>, interface: Seq<char>) -> Option<i32> {
    let ws = words(l);
    if crate::text::occurs_in(interface, l) && ws.len() >= 4 {
        i32_word(strip_all_suffix(ws[3], "."@))
    } else {
        None
    }
}

/// The first signal level that the lines from `from` on give (see `signal_of_line`).
pub open spec fn signal_from(ls: Seq<Seq<char>>, interface: Seq<char>, from: int) -> Option<i32>
    decreases ls.len() - from,
{
    if from < 0 || from >= ls.len() {
        None
    } else {
        match signal_of_line(ls[from], interface) {
            Some(v) => Some(v),
            None => signal_from(ls, interface, from + 1),
        }
    }
}

/// The signal level of `interface` from `/proc/net/wireless` (`None` when unread): the
/// first of its lines after the two header lines that gives one.
pub open spec fn wifi_signal(wireless: Option<Seq<char>>, interface: Seq<char>) -> Option<i32> {
    match wireless {
        Some(c) => signal_from(lines(c), interface, 2),
        None => None,
    }
}

fn signal_in(c: &str, interface: &str) -> (r: Option<i32>)
    ensures
        r == signal_from(lines(c@), interface@, 2),
{
    let v = crate::text::chars_of(c);
    let ranges = crate::text::line_ranges(&v, 0, v.len());
    assert(v@.subrange(0, v@.len() as int) =~= v@);
    let pat = crate::text::chars_of(interface);
    let dot = crate::text::chars_of(".");
    proof {
        reveal_strlit(".");
    }
    let ghost ls = pieces(v@, ranges@);
    if ranges.len() <= 2 {
        return None;
    }
    for k in 2..ranges.len()
        invariant
            ls == pieces(v@, ranges@),
            ls == lines(c@),
            pat@ == interface@,
            dot@ == "."@,
            dot.len() == 1,
            forall|j: int| 0 <= j < ranges.len() ==> 0 <= (#[trigger] ranges@[j]).0 <= ranges@[j].1 <= v.len(),
            signal_from(ls, interface@, 2) == signal_from(ls, interface@, k as int),
    {
        let (a, b) = ranges[k];
        let ghost l = ls[k as int];
        assert(l == v@.subrange(a as int, b as int));
        if crate::text::contains(&v, a, b, &pat) {
            let wr = crate::text::word_ranges(&v, a, b);
            assert(pieces(v@, wr@) == words(l));
            if wr.len() >= 4 {
                let (s3, e3) = wr[3];
                assert(words(l)[3] == v@.subrange(s3 as int, e3 as int));
                let e = strip_suffix_end(&v, s3, e3, &dot);
                if let Some(x) = word_i32(&v, s3, e) {
                    return Some(x);
                }
            }
        }
    }
    None
}

/// The signal level of `interface` from `/proc/net/wireless` (see `wifi_signal`).
pub fn read_wifi_signal(wireless: Option<&str>, interface: &str) -> (r: Option<i32>)
    ensures
        r == wifi_signal(opt_str(wireless), interface@),
{
    match wireless {
        Some(c) => signal_in(c, interface),
        None => None,
    }
}

/// The channel and width after word `i` of a line of `iw dev .. info`: a `channel` word
/// sets the channel to the next word's number (`None` when it is none), a `width:` word
/// sets the width to the next word's number without trailing commas.
pub open spec fn iw_word_step(st: (Option<u32>, Option<u32>), ws: Seq<Seq<char>>, i: int) -> (Option<u32>, Option<u32>) {
    let channel = if ws[i] == "channel"@ && i + 1 < ws.len() {
        u32_word(ws[i + 1])
    } else {
        st.0
    };
    let width = if ws[i] == "width:"@ && i + 1 < ws.len() {
        u32_word(strip_all_suffix(ws[i + 1], ","@))
    } else {
        st.1
    };
    (channel, width)
}

/// The channel and width after the first `n` words of a line.
pub open spec fn iw_words(st: (Option<u32>, Option<u32>), ws: Seq<Seq<char>>, n: int) -> (Option<u32>, Option<u32>)
    decreases n,
{
    if n <= 0 {
        st
    } else {
        iw_word_step(iw_words(st, ws, n - 1), ws, n - 1)
    }
}

/// The channel and width after the first `n` lines: only lines that mention "channel" are
/// read, word by word.
pub open spec fn iw_lines(ls: Seq<Seq<char>>, n: int) -> (Option<u32>, Option<u32>)
    decreases n,
{
    if n <= 0 {
        (None, None)
    } else {
        let st = iw_lines(ls, n - 1);
        let l = ls[n - 1];
        if crate::text::occurs_in("channel"@, l) {
            iw_words(st, words(l), words(l).len() as int)
        } else {
            st
        }
    }
}

/// The channel and channel width (MHz) that the output of `iw dev <interface> info`
/// gives: the last values its channel lines set.
pub open spec fn iw_channel_info(info: Seq<char>) -> (Option<u32>, Option<u32>) {
    iw_lines(lines(info), lines(info).len() as int)
}

fn word_is(v: &Vec<char>, a: usize, b: usize, w: &Vec<char>) -> (r: bool)
    requires
        a <= b <= v.len(),
    ensures
        r == (v@.subrange(a as int, b as int) == w@),
{
    if b - a != w.len() {
        proof {
            assert(v@.subrange(a as int, b as int).len() != w@.len());
        }
        return false;
    }
    let r = crate::text::starts_with(v, a, b, w);
    assert(v@.subrange(a as int, a + w.len()) =~= v@.subrange(a as int, b as int));
    r
}

/// The channel and channel width from the output of `iw dev <interface> info` (see
/// `iw_channel_info`).
pub fn parse_iw_channel(info: &str) -> (r: (Option<u32>, Option<u32>))
    ensures
        r == iw_channel_info(info@),
{
    let v = crate::text::chars_of(info);
    let ranges = crate::text::line_ranges(&v, 0, v.len());
    assert(v@.subrange(0, v@.len() as int) =~= v@);
    let channel_word = crate::text::chars_of("channel");
    let width_word = crate::text::chars_of("width:");
    let comma = crate::text::chars_of(",");
    proof {
        reveal_strlit(",");
    }
    let ghost ls = pieces(v@, ranges@);
    let mut channel: Option<u32> = None;
    let mut width: Option<u32> = None;
    for k in 0..ranges.len()
        invariant
            ls == pieces(v@, ranges@),
            ls == lines(info@),
            channel_word@ == "channel"@,
            width_word@ == "width:"@,
            comma@ == ","@,
            comma.len() == 1,
            forall|j: int| 0 <= j < ranges.len() ==> 0 <= (#[trigger] ranges@[j]).0 <= ranges@[j].1 <= v.len(),
            (channel, width) == iw_lines(ls, k as int),
    {
        let (a, b) = ranges[k];
        let ghost l = ls[k as int];
        assert(l == v@.subrange(a as int, b as int));
        if crate::text::contains(&v, a, b, &channel_word) {
            let wr = crate::text::word_ranges(&v, a, b);
            let ghost ws = words(l);
            let ghost st0 = (channel, width);
            assert(pieces(v@, wr@) == ws);
            let n = wr.len();
            for i in 0..n
                invariant
                    n == wr.len(),
                    ws == pieces(v@, wr@),
                    forall|j: int| 0 <= j < wr.len() ==> a <= (#[trigger] wr@[j]).0 <= wr@[j].1 <= b,
                    b <= v.len(),
                    channel_word@ == "channel"@,
                    width_word@ == "width:"@,
                    comma@ == ","@,
                    comma.len() == 1,
                    (channel, width) == iw_words(st0, ws, i as int),
            {
                let (s0, e0) = wr[i];
                assert(ws[i as int] == v@.subrange(s0 as int, e0 as int));
                if i + 1 < n {
                    let (s1, e1) = wr[i + 1];
                    assert(ws[i + 1] == v@.subrange(s1 as int, e1 as int));
                    if word_is(&v, s0, e0, &channel_word) {
                        channel = crate::text::parse_u32(&v, s1, e1);
                    }
                    if word_is(&v, s0, e0, &width_word) {
                        let e = strip_suffix_end(&v, s1, e1, &comma);
                        width = crate::text::parse_u32(&v, s1, e);
                    }
                }
            }
        }
    }
    assert(ls.len() == ranges.len());
    (channel, width)
}


/// A separator of `iwconfig` fields: `:` or `=`.
pub open spec fn is_sep(c: char) -> bool {
    c == ':' || c == '='
}

/// The position of the first separator in `s`, or its length when there is none.
pub open spec fn sep_pos(s: Seq<char>) -> int
    decreases s.len(),
{
    if s.len() == 0 {
        0
    } else if is_sep(s[0]) {
        0
    } else {
        1 + sep_pos(s.drop_first())
    }
}

/// The second field of a word split at `:` and `=`, as `split(&[':', '=']).nth(1)` gives
/// it; none when the word has no separator.
pub open spec fn second_sep_field(w: Seq<char>) -> Option<Seq<char>> {
    let p = sep_pos(w);
    if p < w.len() {
        let rest = w.subrange(p + 1, w.len() as int);
        Some(rest.subrange(0, sep_pos(rest)))
    } else {
        None
    }
}

/// The channel an `iwconfig` word gives: one mentioning "Channel:" or "Channel=" whose
/// second field is a number.
pub open spec fn iwconfig_word_channel(w: Seq<char>) -> Option<u32> {
    if crate::text::occurs_in("Channel:"@, w) || crate::text::occurs_in("Channel="@, w) {
        match second_sep_field(w) {
            Some(f) => u32_word(f),
            None => None,
        }
    } else {
        None
    }
}

/// The first channel that the words from `from` on give.
pub open spec fn iwconfig_words_from(ws: Seq<Seq<char>>, from: int) -> Option<u32>
    decreases ws.len() - from,
{
    if from < 0 || from >= ws.len() {
        None
    } else {
        match iwconfig_word_channel(ws[from]) {
            Some(c) => Some(c),
            None => iwconfig_words_from(ws, from + 1),
        }
    }
}

/// The first channel that the lines from `from` on give: lines that mention "Channel" or
/// "Frequency", word by word.
pub open spec fn iwconfig_lines_from(ls: Seq<Seq<char>>, from: int) -> Option<u32>
    decreases ls.len() - from,
{
    if from < 0 || from >= ls.len() {
        None
    } else {
        let l = ls[from];
        let here = if crate::text::occurs_in("Channel"@, l) || crate::text::occurs_in("Frequency"@, l) {
            iwconfig_words_from(words(l), 0)
        } else {
            None
        };
        match here {
            Some(c) => Some(c),
            None => iwconfig_lines_from(ls, from + 1),
        }
    }
}

fn find_sep(v: &Vec<char>, a: usize, b: usize) -> (r: usize)
    requires
        a <= b <= v.len(),
    ensures
        a <= r <= b,
        r - a == sep_pos(v@.subrange(a as int, b as int)),
{
    let mut i = a;
    while i < b && v[i] != ':' && v[i] != '='
        invariant
            a <= i <= b <= v.len(),
            sep_pos(v@.subrange(a as int, b as int)) == (i - a) + sep_pos(v@.subrange(i as int, b as int)),
        decreases b - i,
    {
        assert(v@.subrange(i as int, b as int).drop_first() =~= v@.subrange(i + 1, b as int));
        i = i + 1;
    }
    i
}

fn word_channel(v: &Vec<char>, a: usize, b: usize, colon: &Vec<char>, equals: &Vec<char>) -> (r: Option<u32>)
    requires
        a <= b <= v.len(),
        colon@ == "Channel:"@,
        equals@ == "Channel="@,
    ensures
        r == iwconfig_word_channel(v@.subrange(a as int, b as int)),
{
    if !crate::text::contains(v, a, b, colon) && !crate::text::contains(v, a, b, equals) {
        return None;
    }
    let p = find_sep(v, a, b);
    if p == b {
        return None;
    }
    let q = find_sep(v, p + 1, b);
    proof {
        let w = v@.subrange(a as int, b as int);
        let rest = w.subrange(p - a + 1, w.len() as int);
        assert(rest =~= v@.subrange(p + 1, b as int));
        assert(rest.subrange(0, sep_pos(rest)) =~= v@.subrange(p + 1, q as int));
    }
    crate::text::parse_u32(v, p + 1, q)
}

/// The channel from the output of `iwconfig <interface>` (see `iwconfig_lines_from`).
pub fn parse_iwconfig_channel(info: &str) -> (r: Option<u32>)
    ensures
        r == iwconfig_lines_from(lines(info@), 0),
{
    let v = crate::text::chars_of(info);
    let ranges = crate::text::line_ranges(&v, 0, v.len());
    assert(v@.subrange(0, v@.len() as int) =~= v@);
    let channel = crate::text::chars_of("Channel");
    let frequency = crate::text::chars_of("Frequency");
    let colon = crate::text::chars_of("Channel:");
    let equals = crate::text::chars_of("Channel=");
    let ghost ls = pieces(v@, ranges@);
    for k in 0..ranges.len()
        invariant
            ls == pieces(v@, ranges@),
            ls == lines(info@),
            channel@ == "Channel"@,
            frequency@ == "Frequency"@,
            colon@ == "Channel:"@,
            equals@ == "Channel="@,
            forall|j: int| 0 <= j < ranges.len() ==> 0 <= (#[trigger] ranges@[j]).0 <= ranges@[j].1 <= v.len(),
            iwconfig_lines_from(ls, 0) == iwconfig_lines_from(ls, k as int),
    {
        let (a, b) = ranges[k];
        let ghost l = ls[k as int];
        assert(l == v@.subrange(a as int, b as int));
        if crate::text::contains(&v, a, b, &channel) || crate::text::contains(&v, a, b, &frequency) {
            let wr = crate::text::word_ranges(&v, a, b);
            let ghost ws = words(l);
            assert(pieces(v@, wr@) == ws);
            let n = wr.len();
            for i in 0..n
                invariant
                    n == wr.len(),
                    ws == pieces(v@, wr@),
                    forall|j: int| 0 <= j < wr.len() ==> a <= (#[trigger] wr@[j]).0 <= wr@[j].1 <= b,
                    b <= v.len(),
                    colon@ == "Channel:"@,
                    equals@ == "Channel="@,
                    iwconfig_words_from(ws, 0) == iwconfig_words_from(ws, i as int),
                    ws == words(l),
                    0 <= k < ls.len(),
                    l == ls[k as int],
                    ls == lines(info@),
                    crate::text::occurs_in("Channel"@, l) || crate::text::occurs_in("Frequency"@, l),
                    iwconfig_lines_from(ls, 0) == iwconfig_lines_from(ls, k as int),
            {
                let (s0, e0) = wr[i];
                assert(ws[i as int] == v@.subrange(s0 as int, e0 as int));
                if let Some(c) = word_channel(&v, s0, e0, &colon, &equals) {
                    assert(iwconfig_words_from(ws, i as int) == Some(c));
                    assert(crate::text::occurs_in("Channel"@, l) || crate::text::occurs_in("Frequency"@, l));
                    assert(iwconfig_lines_from(ls, k as int) == Some(c));
                    return Some(c);
                }
            }
        }
    }
    None
}

/// The channel and channel width of a Wi-Fi interface: from the output of `iw dev
/// <interface> info` when that command succeeded, else the channel from the output of
/// `iwconfig <interface>` when that one succeeded (without width), else nothing.
pub fn read_wifi_channel(iw_info: Option<&str>, iwconfig_info: Option<&str>) -> (r: (Option<u32>, Option<u32>))
    ensures
        r == match (opt_str(iw_info), opt_str(iwconfig_info)) {
            (Some(i), _) => iw_channel_info(i),
            (None, Some(c)) => (iwconfig_lines_from(lines(c), 0), None),
            (None, None) => (None, None),
        },
{
    match iw_info {
        Some(i) => parse_iw_channel(i),
        None => match iwconfig_info {
            Some(c) => (parse_iwconfig_channel(c), None),
            None => (None, None),
        },
    }
}


/// A CPU's current frequency in kHz from its `scaling_cur_freq` file, else its
/// `cpuinfo_cur_freq` file (`None` for a file that could not be read), when one holds a
/// number.
pub fn cpu_frequency_from_files(scaling_cur: Option<&str>, cpuinfo_cur: Option<&str>) -> (r: Option<u64>)
    ensures
        r == match file_u64(opt_str(scaling_cur)) {
            Some(f) => Some(f),
            None => file_u64(opt_str(cpuinfo_cur)),
        },
{
    match parse_file_u64(scaling_cur) {
        Some(f) => Some(f),
        None => parse_file_u64(cpuinfo_cur),
    }
}


/// The readings reported are positive, each with the number of a fan that was read, in
/// increasing order of fans.
pub proof fn lemma_positive_readings(vals: Seq<Option<u32>>, n: int)
    requires
        0 <= n <= vals.len(),
        vals.len() <= u32::MAX,
    ensures
        forall|k: int|
            0 <= k < positive_among(vals, n).len() ==> (#[trigger] positive_among(vals, n)[k]).1 > 0
                && positive_among(vals, n)[k].0 < n && vals[positive_among(vals, n)[k].0 as int] == Some(
                positive_among(vals, n)[k].1,
            ),
        forall|k: int, l: int|
            0 <= k < l < positive_among(vals, n).len() ==> (#[trigger] positive_among(vals, n)[k]).0
                < (#[trigger] positive_among(vals, n)[l]).0,
    decreases n,
{
    if n > 0 {
        lemma_positive_readings(vals, n - 1);
    }
}


/// Whether a block device of `/sys/block` is reported: all but loop and RAM disks.
pub fn is_listed_block_device(name: &str) -> (r: bool)
    ensures
        r == !(begins_with(name@, "loop"@) || begins_with(name@, "ram"@)),
{
    let v = crate::text::chars_of(name);
    assert(v@.subrange(0, v@.len() as int) =~= v@);
    let lp = crate::text::chars_of("loop");
    let rm = crate::text::chars_of("ram");
    let a = crate::text::starts_with(&v, 0, v.len(), &lp);
    let b = crate::text::starts_with(&v, 0, v.len(), &rm);
    !(a || b)
}

/// A block device's model: its `device/model` file (`None` when unread), else the
/// device's name, trimmed.
pub fn storage_model(model_file: Option<&str>, dev_name: &str) -> (r: String)
    ensures
        r@ == trim(
            match opt_str(model_file) {
                Some(m) => m,
                None => dev_name@,
            },
        ),
{
    match model_file {
        Some(m) => crate::text::trimmed(m),
        None => crate::text::trimmed(dev_name),
    }
}

/// A block device's size in GB (10^9 bytes, rounded down) from its `size` file of 512-byte
/// sectors (`None` when unread); 0 when the file gives no number.
pub fn storage_size_gb(size_file: Option<&str>) -> (r: u64)
    requires
        file_u64(opt_str(size_file)) matches Some(v) ==> v * 512 <= u64::MAX,
    ensures
        r == match file_u64(opt_str(size_file)) {
            Some(v) => (v * 512) / 1_000_000_000,
            None => 0,
        },
{
    match parse_file_u64(size_file) {
        Some(sectors) => (sectors * 512) / 1_000_000_000,
        None => 0,
    }
}

/// The device file of a block device: `/dev/` followed by its name.
pub fn block_device_path(dev_name: &str) -> (r: String)
    ensures
        r@ == "/dev/"@ + dev_name@,
{
    let mut r = String::from_str("/dev/");
    r.append(dev_name);
    r
}

/// Whether a mount point is reported: the root and `/home`.
pub fn is_listed_mount(mount_point: &str) -> (r: bool)
    ensures
        r == (mount_point@ == "/"@ || mount_point@ == "/home"@),
{
    crate::battery_control::str_equal(mount_point, "/") || crate::battery_control::str_equal(mount_point, "/home")
}

/// A file system's total and used space in GB (10^9 bytes, rounded down) from its total
/// and available bytes.
pub fn mount_sizes_gb(total: u64, avail: u64) -> (r: (u64, u64))
    requires
        avail <= total,
    ensures
        r.0 == total / 1_000_000_000,
        r.1 == (total - avail) / 1_000_000_000,
{
    (total / 1_000_000_000, (total - avail) / 1_000_000_000)
}

/// The CPU 0 control files that the CPU report reads, each `None` when it does not exist
/// or could not be read.
pub struct CpuControlFiles {
    pub scaling_governor: Option<String>,
    pub scaling_available_governors: Option<String>,
    pub boost: Option<String>,
    pub no_turbo: Option<String>,
    pub smt_control: Option<String>,
    pub scaling_driver: Option<String>,
    pub amd_pstate_status: Option<String>,
    pub scaling_min_freq: Option<String>,
    pub scaling_max_freq: Option<String>,
    pub cpuinfo_min_freq: Option<String>,
    pub cpuinfo_max_freq: Option<String>,
    pub energy_performance_preference: Option<String>,
    pub energy_performance_available_preferences: Option<String>,
}

/// The parts of the CPU report that tell the CPU's controls and their state.
pub struct CpuControlReport {
    pub governor: String,
    pub available_governors: Vec<String>,
    pub boost_enabled: bool,
    pub smt_enabled: bool,
    pub scaling_driver: String,
    pub amd_pstate_status: Option<String>,
    pub min_freq: Option<u64>,
    pub max_freq: Option<u64>,
    pub hw_min_freq: u64,
    pub hw_max_freq: u64,
    pub energy_performance_preference: Option<String>,
    pub available_epp_options: Vec<String>,
}

fn as_text(o: &Option<String>) -> (r: Option<&str>)
    ensures
        opt_str(r) == opt_string(*o),
{
    match o {
        Some(s) => Some(s.as_str()),
        None => None,
    }
}

/// The trimmed text of a file that was read.
pub open spec fn trimmed_file(f: Option<Seq<char>>) -> Option<Seq<char>> {
    match f {
        Some(c) => Some(trim(c)),
        None => None,
    }
}

/// The controls part of the CPU report, each control read only when the CPU offers it
/// (`caps`):
/// - the governor: the trimmed governor file, "not_available" when the file or the control
///   is missing;
/// - the governors offered: the words of their file, none when it or the control is
///   missing;
/// - boost: on when the control exists and the `boost` file holds 1, or without it the
///   `no_turbo` file holds 0;
/// - SMT: on without the control or its file, else when its file holds "on";
/// - the scaling driver: its trimmed file, "unknown" without the file, "not_available"
///   without the control;
/// - the AMD P-state status: its trimmed file when the driver is there and it was read;
/// - the scaling limits: the numbers their files hold, when both controls exist;
/// - the hardware limits: the numbers their files hold, 400000 and 5000000 kHz where a
///   file gives none or the controls are missing;
/// - the energy performance preference and its choices: the trimmed file and the words of
///   the choices' file (performance, balance_performance, balance_power and power when it
///   could not be read), when the control exists; else none.
pub fn cpu_control_report(caps: &CpuCapabilities, files: &CpuControlFiles) -> (r: CpuControlReport)
    ensures
        r.governor@ == if caps.has_scaling_governor {
            match opt_string(files.scaling_governor) {
                Some(c) => trim(c),
                None => "not_available"@,
            }
        } else {
            "not_available"@
        },
        string_views(r.available_governors@) == if caps.has_available_governors {
            match opt_string(files.scaling_available_governors) {
                Some(c) => words(c),
                None => Seq::empty(),
            }
        } else {
            Seq::empty()
        },
        r.boost_enabled == (caps.has_boost && match (opt_string(files.boost), opt_string(files.no_turbo)) {
            (Some(b), _) => trim(b) == "1"@,
            (None, Some(n)) => trim(n) == "0"@,
            (None, None) => false,
        }),
        r.smt_enabled == (!caps.has_smt || match opt_string(files.smt_control) {
            Some(c) => trim(c) == "on"@,
            None => true,
        }),
        r.scaling_driver@ == if caps.has_scaling_driver {
            match opt_string(files.scaling_driver) {
                Some(c) => trim(c),
                None => "unknown"@,
            }
        } else {
            "not_available"@
        },
        opt_string(r.amd_pstate_status) == if caps.has_amd_pstate {
            trimmed_file(opt_string(files.amd_pstate_status))
        } else {
            None
        },
        caps.has_scaling_min_freq && caps.has_scaling_max_freq ==> r.min_freq == file_u64(
            opt_string(files.scaling_min_freq),
        ) && r.max_freq == file_u64(opt_string(files.scaling_max_freq)),
        !(caps.has_scaling_min_freq && caps.has_scaling_max_freq) ==> r.min_freq is None && r.max_freq is None,
        r.hw_min_freq == if caps.has_cpuinfo_min_freq && caps.has_cpuinfo_max_freq {
            match file_u64(opt_string(files.cpuinfo_min_freq)) {
                Some(v) => v,
                None => 400000,
            }
        } else {
            400000
        },
        r.hw_max_freq == if caps.has_cpuinfo_min_freq && caps.has_cpuinfo_max_freq {
            match file_u64(opt_string(files.cpuinfo_max_freq)) {
                Some(v) => v,
                None => 5000000,
            }
        } else {
            5000000
        },
        opt_string(r.energy_performance_preference) == if caps.has_energy_performance_preference {
            trimmed_file(opt_string(files.energy_performance_preference))
        } else {
            None
        },
        string_views(r.available_epp_options@) == if caps.has_energy_performance_preference {
            match opt_string(files.energy_performance_available_preferences) {
                Some(c) => words(c),
                None => seq!["performance"@, "balance_performance"@, "balance_power"@, "power"@],
            }
        } else {
            Seq::empty()
        },
{
    let governor = if caps.has_scaling_governor {
        read_governor(as_text(&files.scaling_governor))
    } else {
        String::from_str("not_available")
    };
    let available_governors = if caps.has_available_governors {
        read_available_governors(as_text(&files.scaling_available_governors))
    } else {
        let v: Vec<String> = Vec::new();
        assert(string_views(v@) =~= Seq::empty());
        v
    };
    let boost_enabled = caps.has_boost && is_boost_enabled(as_text(&files.boost), as_text(&files.no_turbo));
    let smt_enabled = !caps.has_smt || is_smt_enabled(as_text(&files.smt_control));
    let scaling_driver = if caps.has_scaling_driver {
        read_scaling_driver(as_text(&files.scaling_driver))
    } else {
        String::from_str("not_available")
    };
    let amd_pstate_status = if caps.has_amd_pstate {
        match read_amd_pstate_status(as_text(&files.amd_pstate_status)) {
            Ok(st) => Some(st),
            Err(_) => None,
        }
    } else {
        None
    };
    let (min_freq, max_freq) = if caps.has_scaling_min_freq && caps.has_scaling_max_freq {
        read_frequency_limits(as_text(&files.scaling_min_freq), as_text(&files.scaling_max_freq))
    } else {
        (None, None)
    };
    let (hw_min_freq, hw_max_freq) = if caps.has_cpuinfo_min_freq && caps.has_cpuinfo_max_freq {
        read_hw_frequency_limits(as_text(&files.cpuinfo_min_freq), as_text(&files.cpuinfo_max_freq))
    } else {
        (400000, 5000000)
    };
    let energy_performance_preference = if caps.has_energy_performance_preference {
        read_energy_performance_preference(as_text(&files.energy_performance_preference))
    } else {
        None
    };
    let available_epp_options = if caps.has_energy_performance_preference {
        read_available_epp_options(as_text(&files.energy_performance_available_preferences))
    } else {
        let v: Vec<String> = Vec::new();
        assert(string_views(v@) =~= Seq::empty());
        v
    };
    CpuControlReport {
        governor,
        available_governors,
        boost_enabled,
        smt_enabled,
        scaling_driver,
        amd_pstate_status,
        min_freq,
        max_freq,
        hw_min_freq,
        hw_max_freq,
        energy_performance_preference,
        available_epp_options,
    }
}

/// A core's current frequency in kHz: the one its cpufreq files give, else the one
/// `/proc/cpuinfo` gives, else 2000000.
pub fn core_frequency(from_files: Option<u64>, from_cpuinfo: Option<u64>) -> (r: u64)
    ensures
        r == match (from_files, from_cpuinfo) {
            (Some(f), _) => f,
            (None, Some(f)) => f,
            (None, None) => 2000000,
        },
{
    match from_files {
        Some(f) => f,
        None => match from_cpuinfo {
            Some(f) => f,
            None => 2000000,
        },
    }
}

} // verus!
