use vstd::prelude::*;
use crate::types::{FanCurve, FanSettings};
use crate::fan_curve::{brackets, first_bracket, curve_speed, calculate_fan_speed};
use crate::tuxedo_io::{TuxedoIo, WriteRequest};
use crate::errors::ControlError;
use crate::hardware_detection::fan_temperature_reading;

verus! {

/// Rust's `/` on integers for a positive divisor: the quotient rounded toward zero.
pub open spec fn div_toward_zero(a: int, b: int) -> int {
    if a >= 0 {
        a / b
    } else {
        -((-a) / b)
    }
}

/// `v` held within `lo..=hi`.
pub open spec fn clamp(v: int, lo: int, hi: int) -> int {
    if v < lo {
        lo
    } else if v > hi {
        hi
    } else {
        v
    }
}

/// The fan speed the fan daemon gives at `temp` for `points`, taken in their order: 50
/// without points; on the first segment that holds `temp`, the first speed if both ends
/// have the same temperature, else the line between its ends with the quotient rounded
/// toward zero, held within 0..=100; with no such segment, the first point's speed below
/// its temperature, else the last point's speed.
pub open spec fn daemon_curve_speed(points: Seq<(u8, u8)>, temp: int) -> int {
    if points.len() == 0 {
        50
    } else if exists|i: int| first_bracket(points, i, temp) {
        let i = choose|i: int| first_bracket(points, i, temp);
        let (t1, s1) = points[i];
        let (t2, s2) = points[i + 1];
        if t1 == t2 {
            s1 as int
        } else {
            clamp(s1 + div_toward_zero((s2 - s1) * (temp - t1), t2 - t1), 0, 100)
        }
    } else if temp < points[0].0 {
        points[0].1 as int
    } else {
        points.last().1 as int
    }
}

/// The daemon's product of speed range and temperature offset fits in an `i16` on the
/// segment it uses.
pub open spec fn daemon_product_fits(points: Seq<(u8, u8)>, temp: int) -> bool {
    forall|i: int|
        first_bracket(points, i, temp) ==> -32768 <= (points[i + 1].1 - points[i].1) * (temp
            - points[i].0) <= 32767
}

/// The fans to set, in order, and the speeds to give them: for each curve whose fan exists
/// (`fan_id < fan_count`) and whose temperature was read (`temps[k]` for curve `k`), the
/// curve's speed at that temperature.
pub open spec fn fan_targets(curves: Seq<FanCurve>, fan_count: int, temps: Seq<Option<u32>>) -> Seq<
    (u32, u8),
>
    decreases curves.len(),
{
    if curves.len() == 0 {
        Seq::empty()
    } else {
        let k = curves.len() - 1;
        let prev = fan_targets(curves.drop_last(), fan_count, temps);
        let c = curves.last();
        if c.fan_id < fan_count && temps[k] is Some {
            prev.push((c.fan_id, curve_speed(c.points@, temps[k]->0 as int) as u8))
        } else {
            prev
        }
    }
}

proof fn lemma_first_bracket_unique(s: Seq<(u8, u8)>, i: int, temp: int)
    requires
        first_bracket(s, i, temp),
    ensures
        (choose|k: int| first_bracket(s, k, temp)) == i,
{
    let k = choose|k: int| first_bracket(s, k, temp);
    assert(first_bracket(s, k, temp));
    if k < i {
        assert(!brackets(s, k, temp));
    }
    if i < k {
        assert(!brackets(s, i, temp));
    }
}

proof fn lemma_div_toward_zero_bounds(p: int, w: int)
    requires
        w > 0,
    ensures
        p >= 0 ==> 0 <= div_toward_zero(p, w) * w <= p && p - div_toward_zero(p, w) * w < w,
        p < 0 ==> p <= div_toward_zero(p, w) * w <= 0 && div_toward_zero(p, w) * w - p < w,
{
    if p >= 0 {
        let q = p / w;
        assert(0 <= q * w <= p && p - q * w < w) by (nonlinear_arith)
            requires
                q == p / w,
                w > 0,
                p >= 0,
        ;
    } else {
        let q = (-p) / w;
        assert(0 <= q * w <= -p && -p - q * w < w) by (nonlinear_arith)
            requires
                q == (-p) / w,
                w > 0,
                -p > 0,
        ;
        assert(div_toward_zero(p, w) * w == -(q * w)) by (nonlinear_arith)
            requires
                div_toward_zero(p, w) == -q,
        ;
    }
}

/// On the first segment of a curve that holds `temp`, if its two points have different
/// temperatures, the daemon's speed moves from the first point's speed toward the second's
/// and never past it: it lies between the two speeds (each held within 0..=100), equals
/// the first speed at the first temperature and the second at the second, and, for speeds
/// of at most 100, differs from the straight line between the points by less than one,
/// rounded toward the first point's speed.
pub proof fn lemma_daemon_segment_speed(points: Seq<(u8, u8)>, temp: int, i: int)
    requires
        first_bracket(points, i, temp),
        points[i].0 < points[i + 1].0,
    ensures
        ({
            let r = daemon_curve_speed(points, temp);
            let (t1, s1) = points[i];
            let (t2, s2) = points[i + 1];
            &&& s1 <= s2 ==> clamp(s1 as int, 0, 100) <= r <= clamp(s2 as int, 0, 100)
            &&& s2 <= s1 ==> clamp(s2 as int, 0, 100) <= r <= clamp(s1 as int, 0, 100)
            &&& temp == t1 ==> r == clamp(s1 as int, 0, 100)
            &&& temp == t2 ==> r == clamp(s2 as int, 0, 100)
            &&& s1 <= 100 && s2 <= 100 ==> {
                let d = (r - s1) * (t2 - t1);
                let e = (s2 - s1) * (temp - t1);
                &&& (0 <= d <= e || e <= d <= 0)
                &&& e - d < t2 - t1
                &&& d - e < t2 - t1
            }
        }),
{
    lemma_first_bracket_unique(points, i, temp);
    let (t1, s1) = points[i];
    let (t2, s2) = points[i + 1];
    let w: int = t2 - t1;
    let o: int = temp - t1;
    let p: int = (s2 - s1) * o;
    let q = div_toward_zero(p, w);
    let v = s1 + q;
    assert(daemon_curve_speed(points, temp) == clamp(v, 0, 100));
    lemma_div_toward_zero_bounds(p, w);
    assert(0 <= o <= w);
    if s1 <= s2 {
        assert(0 <= p <= (s2 - s1) * w) by (nonlinear_arith)
            requires
                p == (s2 - s1) * o,
                0 <= o <= w,
                s1 <= s2,
        ;
        assert(0 <= q <= s2 - s1) by (nonlinear_arith)
            requires
                0 <= q * w <= p,
                p <= (s2 - s1) * w,
                w > 0,
        ;
    } else {
        assert((s2 - s1) * w <= p <= 0) by (nonlinear_arith)
            requires
                p == (s2 - s1) * o,
                0 <= o <= w,
                s2 < s1,
        ;
        if p >= 0 {
            assert(p == 0);
            assert(q == 0);
        } else {
            assert(s2 - s1 <= q <= 0) by (nonlinear_arith)
                requires
                    p <= q * w <= 0,
                    (s2 - s1) * w <= p,
                    w > 0,
            ;
        }
    }
    if temp == t1 {
        assert(p == 0) by (nonlinear_arith)
            requires
                p == (s2 - s1) * o,
                o == 0,
        ;
        assert(q == 0);
    }
    if temp == t2 {
        assert(p == (s2 - s1) * w);
        if p >= 0 {
            assert(q == s2 - s1) by (nonlinear_arith)
                requires
                    q == p / w,
                    p == (s2 - s1) * w,
                    w > 0,
            ;
        } else {
            assert(-p == (s1 - s2) * w) by (nonlinear_arith)
                requires
                    p == (s2 - s1) * w,
            ;
            assert((-p) / w == s1 - s2) by (nonlinear_arith)
                requires
                    -p == (s1 - s2) * w,
                    w > 0,
            ;
        }
    }
    if s1 <= 100 && s2 <= 100 {
        assert(0 <= v <= 100);
        assert((v - s1) * w == q * w);
    }
}

/// The fans to set and their speeds for `settings`, given the temperature read for each
/// curve (`None` where reading failed or was not tried) on a device with `fan_count` fans.
pub fn apply_fan_curves(settings: &FanSettings, fan_count: u32, temps: &Vec<Option<u32>>) -> (r: Vec<
    (u32, u8),
>)
    requires
        temps.len() == settings.curves.len(),
    ensures
        r@ == fan_targets(settings.curves@, fan_count as int, temps@),
{
    let mut r: Vec<(u32, u8)> = Vec::new();
    let n = settings.curves.len();
    for k in 0..n
        invariant
            n == settings.curves.len(),
            temps.len() == n,
            r@ == fan_targets(settings.curves@.take(k as int), fan_count as int, temps@),
    {
        let curve = &settings.curves[k];
        proof {
            assert(settings.curves@.take(k + 1).drop_last() =~= settings.curves@.take(k as int));
        }
        if curve.fan_id < fan_count {
            match temps[k] {
                Some(t) => {
                    let speed = calculate_fan_speed(&curve.points, t);
                    r.push((curve.fan_id, speed));
                },
                None => {},
            }
        }
    }
    proof {
        assert(settings.curves@.take(n as int) =~= settings.curves@);
    }
    r
}

/// The state of the background fan control loop.
pub struct FanDaemon {
    settings: Option<FanSettings>,
    running: bool,
}

impl FanDaemon {
    /// The fan settings in force, if any.
    pub closed spec fn current_settings(&self) -> Option<FanSettings> {
        self.settings
    }

    /// Whether the loop runs.
    pub closed spec fn is_running(&self) -> bool {
        self.running
    }

    /// A stopped daemon without settings.
    pub fn new() -> (r: Self)
        ensures
            r.current_settings() is None,
            !r.is_running(),
    {
        FanDaemon { settings: None, running: false }
    }

    /// Puts `settings` in force.
    pub fn update_settings(&mut self, settings: FanSettings)
        ensures
            final(self).current_settings() == Some(settings),
            final(self).is_running() == old(self).is_running(),
    {
        self.settings = Some(settings);
    }

    /// Marks the loop as running.
    pub fn start(&mut self)
        ensures
            final(self).is_running(),
            final(self).current_settings() == old(self).current_settings(),
    {
        self.running = true;
    }

    /// Makes the loop end after its current round.
    pub fn stop(&mut self)
        ensures
            !final(self).is_running(),
            final(self).current_settings() == old(self).current_settings(),
    {
        self.running = false;
    }

    /// Whether the loop runs.
    pub fn running(&self) -> (r: bool)
        ensures
            r == self.is_running(),
    {
        self.running
    }

    /// The settings whose curves a round of the loop applies: those in force, if fan
    /// control is enabled in them.
    pub fn active_settings(&self) -> (r: Option<&FanSettings>)
        ensures
            r == (match self.current_settings() {
                Some(s) => if s.control_enabled {
                    Some(&s)
                } else {
                    None
                },
                None => None,
            }),
    {
        match &self.settings {
            Some(s) => if s.control_enabled {
                Some(s)
            } else {
                None
            },
            None => None,
        }
    }

    /// The fans to set and their speeds in one round: nothing without the fan device;
    /// else, for each curve whose temperature was read (`temps[k]` for curve `k`), the
    /// temperature taken modulo 256 and the daemon's speed for it.
    pub fn apply_fan_curves(
        &self,
        settings: &FanSettings,
        io_available: bool,
        temps: &Vec<Option<u32>>,
    ) -> (r: Vec<(u32, u8)>)
        requires
            temps.len() == settings.curves.len(),
            forall|k: int|
                0 <= k < temps.len() && #[trigger] temps@[k] is Some ==> daemon_product_fits(
                    settings.curves@[k].points@,
                    (temps@[k]->0 % 256) as int,
                ),
        ensures
            !io_available ==> r@.len() == 0,
            io_available ==> r@ == daemon_targets(settings.curves@, temps@),
    {
        let mut r: Vec<(u32, u8)> = Vec::new();
        if !io_available {
            return r;
        }
        let n = settings.curves.len();
        for k in 0..n
            invariant
                n == settings.curves.len(),
                temps.len() == n,
                forall|k: int|
                    0 <= k < temps.len() && #[trigger] temps@[k] is Some ==> daemon_product_fits(
                        settings.curves@[k].points@,
                        (temps@[k]->0 % 256) as int,
                    ),
                r@ == daemon_targets(settings.curves@.take(k as int), temps@),
        {
            let curve = &settings.curves[k];
            proof {
                assert(settings.curves@.take(k + 1).drop_last() =~= settings.curves@.take(k as int));
            }
            match temps[k] {
                Some(t) => {
                    let temp = (t % 256) as u8;
                    let speed = self.calculate_fan_speed(temp, &curve.points);
                    r.push((curve.fan_id, speed));
                },
                None => {},
            }
        }
        proof {
            assert(settings.curves@.take(n as int) =~= settings.curves@);
        }
        r
    }

    /// The daemon's fan speed for `temp` on the curve `points`.
    pub fn calculate_fan_speed(&self, temp: u8, points: &Vec<(u8, u8)>) -> (r: u8)
        requires
            daemon_product_fits(points@, temp as int),
        ensures
            r == daemon_curve_speed(points@, temp as int),
            forall|i: int|
                #![trigger first_bracket(points@, i, temp as int)]
                first_bracket(points@, i, temp as int) && points@[i].0 < points@[i + 1].0 ==> {
                    &&& points@[i].1 <= points@[i + 1].1 ==> clamp(points@[i].1 as int, 0, 100) <= r <= clamp(
                        points@[i + 1].1 as int,
                        0,
                        100,
                    )
                    &&& points@[i + 1].1 <= points@[i].1 ==> clamp(points@[i + 1].1 as int, 0, 100) <= r
                        <= clamp(points@[i].1 as int, 0, 100)
                },
    {
        proof {
            assert forall|i: int|
                #![trigger first_bracket(points@, i, temp as int)]
                first_bracket(points@, i, temp as int) && points@[i].0 < points@[i + 1].0 implies {
                    &&& points@[i].1 <= points@[i + 1].1 ==> clamp(points@[i].1 as int, 0, 100)
                        <= daemon_curve_speed(points@, temp as int) <= clamp(points@[i + 1].1 as int, 0, 100)
                    &&& points@[i + 1].1 <= points@[i].1 ==> clamp(points@[i + 1].1 as int, 0, 100)
                        <= daemon_curve_speed(points@, temp as int) <= clamp(points@[i].1 as int, 0, 100)
                } by {
                lemma_daemon_segment_speed(points@, temp as int, i);
            }
        }
        if points.len() == 0 {
            return 50;
        }
        let n = points.len();
        let mut i: usize = 0;
        while i < n - 1
            invariant
                n == points.len(),
                n >= 1,
                i <= n - 1,
                daemon_product_fits(points@, temp as int),
                forall|j: int| 0 <= j < i ==> !brackets(points@, j, temp as int),
                forall|k: int|
                    #![trigger first_bracket(points@, k, temp as int)]
                    first_bracket(points@, k, temp as int) && points@[k].0 < points@[k + 1].0 ==> {
                        &&& points@[k].1 <= points@[k + 1].1 ==> clamp(points@[k].1 as int, 0, 100)
                            <= daemon_curve_speed(points@, temp as int) <= clamp(points@[k + 1].1 as int, 0, 100)
                        &&& points@[k + 1].1 <= points@[k].1 ==> clamp(points@[k + 1].1 as int, 0, 100)
                            <= daemon_curve_speed(points@, temp as int) <= clamp(points@[k].1 as int, 0, 100)
                    },
            decreases n - i,
        {
            let (temp1, speed1) = points[i];
            let (temp2, speed2) = points[i + 1];
            if temp >= temp1 && temp <= temp2 {
                proof {
                    assert(first_bracket(points@, i as int, temp as int));
                    lemma_first_bracket_unique(points@, i as int, temp as int);
                }
                let temp_range = temp2 - temp1;
                if temp_range == 0 {
                    return speed1;
                }
                let temp_offset = temp - temp1;
                let up = speed2 >= speed1;
                let diff: u32 = if up {
                    (speed2 - speed1) as u32
                } else {
                    (speed1 - speed2) as u32
                };
                let off: u32 = temp_offset as u32;
                assert(diff * off <= 255 * 255) by (nonlinear_arith)
                    requires
                        diff <= 255,
                        off <= 255,
                ;
                let magnitude: u32 = diff * off;
                let q: u32 = magnitude / temp_range as u32;
                proof {
                    let p = (speed2 - speed1) * (temp - temp1);
                    if up {
                        assert(magnitude == p);
                    } else {
                        assert(magnitude == -p) by (nonlinear_arith)
                            requires
                                magnitude == (speed1 - speed2) * (temp - temp1),
                                p == (speed2 - speed1) * (temp - temp1),
                        ;
                    }
                    assert(q <= magnitude) by (nonlinear_arith)
                        requires
                            q as int == (magnitude as int) / (temp_range as int),
                            temp_range >= 1,
                            magnitude >= 0,
                    ;
                    assert(magnitude <= 32768);
                }
                let speed: i32 = if up {
                    speed1 as i32 + q as i32
                } else {
                    speed1 as i32 - q as i32
                };
                let clamped: u8 = if speed < 0 {
                    0
                } else if speed > 100 {
                    100
                } else {
                    speed as u8
                };
                return clamped;
            }
            i = i + 1;
        }
        proof {
            assert(!(exists|i: int| first_bracket(points@, i, temp as int)));
        }
        if temp < points[0].0 {
            return points[0].1;
        }
        points[n - 1].1
    }
}

/// The fans to set, in order, and the speeds the fan daemon gives them: for each curve
/// whose temperature was read (`temps[k]` for curve `k`), the daemon's speed at that
/// temperature taken modulo 256.
pub open spec fn daemon_targets(curves: Seq<FanCurve>, temps: Seq<Option<u32>>) -> Seq<(u32, u8)>
    decreases curves.len(),
{
    if curves.len() == 0 {
        Seq::empty()
    } else {
        let k = curves.len() - 1;
        let prev = daemon_targets(curves.drop_last(), temps);
        let c = curves.last();
        if temps[k] is Some {
            prev.push((c.fan_id, daemon_curve_speed(c.points@, (temps[k]->0 % 256) as int) as u8))
        } else {
            prev
        }
    }
}


/// The temperature read for each curve: `fan_temperature_reading` of the curve's fan on
/// `d`, from the word its read answered (`raws[k]` for curve `k`).
pub open spec fn curve_temperatures(d: TuxedoIo, curves: Seq<FanCurve>, raws: Seq<Option<i32>>) -> Seq<
    Option<u32>,
> {
    Seq::new(curves.len(), |k: int| fan_temperature_reading(d, curves[k].fan_id, raws[k]))
}

/// Fan curve control on the fan device, with the settings whose curves it applies.
pub struct FanCurveManager {
    io: Option<TuxedoIo>,
    settings: Option<FanSettings>,
}

impl FanCurveManager {
    /// The fan device, if `/dev/tuxedo_io` is present.
    pub closed spec fn device(&self) -> Option<TuxedoIo> {
        self.io
    }

    /// The fan settings in force, if any.
    pub closed spec fn current_settings(&self) -> Option<FanSettings> {
        self.settings
    }

    /// Fan curve control on `io` (`None` when `/dev/tuxedo_io` is absent), without
    /// settings.
    pub fn new(io: Option<TuxedoIo>) -> (r: Self)
        ensures
            r.device() == io,
            r.current_settings() is None,
    {
        FanCurveManager { io, settings: None }
    }

    /// Puts `settings` in force.
    pub fn update_settings(&mut self, settings: FanSettings)
        ensures
            final(self).current_settings() == Some(settings),
            final(self).device() == old(self).device(),
    {
        self.settings = Some(settings);
    }

    /// Whether settings are in force and enable fan control.
    pub fn is_enabled(&self) -> (r: bool)
        ensures
            r == (self.current_settings() matches Some(s) && s.control_enabled),
    {
        match &self.settings {
            Some(s) => s.control_enabled,
            None => false,
        }
    }

    /// The fans to set and their speeds in one round. Nothing (`None`) when fan control is
    /// off or the update interval has not passed since the last round (`interval_elapsed`);
    /// refused without the fan device; else, for each curve whose fan exists and whose
    /// temperature was read (`temp_raws[k]` is the word curve `k`'s temperature read
    /// answered), the curve's speed at that temperature.
    pub fn apply_curves(&self, interval_elapsed: bool, temp_raws: &Vec<Option<i32>>) -> (r: Result<
        Option<Vec<(u32, u8)>>,
        ControlError,
    >)
        requires
            self.current_settings() matches Some(s) ==> temp_raws.len() == s.curves.len(),
        ensures
            !(self.current_settings() matches Some(s) && s.control_enabled) ==> r == Ok::<
                Option<Vec<(u32, u8)>>,
                ControlError,
            >(None),
            (self.current_settings() matches Some(s) && s.control_enabled) && !interval_elapsed ==> r == Ok::<
                Option<Vec<(u32, u8)>>,
                ControlError,
            >(None),
            (self.current_settings() matches Some(s) && s.control_enabled) && interval_elapsed
                && self.device() is None ==> r == Err::<Option<Vec<(u32, u8)>>, ControlError>(
                ControlError::FanControlUnavailable,
            ),
            interval_elapsed ==> match (self.current_settings(), self.device()) {
                (Some(s), Some(d)) => s.control_enabled ==> (r matches Ok(Some(t)) && t@ == fan_targets(
                    s.curves@,
                    d.fans() as int,
                    curve_temperatures(d, s.curves@, temp_raws@),
                )),
                _ => true,
            },
    {
        if !self.is_enabled() || !interval_elapsed {
            return Ok(None);
        }
        let d = match &self.io {
            Some(d) => d,
            None => return Err(ControlError::FanControlUnavailable),
        };
        let s = match &self.settings {
            Some(s) => s,
            None => return Ok(None),
        };
        let n = s.curves.len();
        let mut temps: Vec<Option<u32>> = Vec::new();
        for k in 0..n
            invariant
                n == s.curves.len(),
                temp_raws.len() == n,
                temps@ == curve_temperatures(*d, s.curves@, temp_raws@).take(k as int),
        {
            let fan = s.curves[k].fan_id;
            let ok = match d.fan_temperature_request(fan) {
                Ok(_) => true,
                Err(_) => false,
            };
            let t = if ok {
                match temp_raws[k] {
                    Some(w) => match d.fan_temperature_from_raw(w) {
                        Ok(t) => Some(t),
                        Err(_) => None,
                    },
                    None => None,
                }
            } else {
                None
            };
            temps.push(t);
            assert(temps@ =~= curve_temperatures(*d, s.curves@, temp_raws@).take(k + 1));
        }
        assert(temps@ =~= curve_temperatures(*d, s.curves@, temp_raws@));
        let fans = d.get_fan_count();
        Ok(Some(apply_fan_curves(s, fans, &temps)))
    }

    /// The fan speed (in %) that the curve `points` gives at temperature `temp` (in °C),
    /// as `calculate_fan_speed` computes it.
    pub fn interpolate_fan_speed(&self, points: &Vec<(u8, u8)>, temp: u32) -> (r: u8)
        ensures
            r == curve_speed(points@, temp as int),
    {
        calculate_fan_speed(points, temp)
    }

    /// The write that returns the fans to automatic control: none without the fan device.
    pub fn auto_mode_write(&self) -> (r: Result<Option<WriteRequest>, ControlError>)
        ensures
            self.device() is None ==> r == Ok::<Option<WriteRequest>, ControlError>(None),
            self.device() matches Some(d) ==> r == match d.fan_auto_write() {
                Ok(w) => Ok::<Option<WriteRequest>, ControlError>(Some(w)),
                Err(e) => Err(ControlError::Device(e)),
            },
    {
        match &self.io {
            None => Ok(None),
            Some(d) => match d.set_fan_auto() {
                Ok(w) => Ok(Some(w)),
                Err(e) => Err(ControlError::Device(e)),
            },
        }
    }

    /// After the write of `auto_mode_write`: fan control gives up its settings when the
    /// write was made and succeeded.
    pub fn set_auto_mode(&mut self, write_succeeded: bool)
        ensures
            final(self).device() == old(self).device(),
            write_succeeded ==> final(self).current_settings() is None,
            !write_succeeded ==> final(self).current_settings() == old(self).current_settings(),
    {
        if write_succeeded {
            self.settings = None;
        }
    }
}


/// The control service's fan curve requests.
pub struct ControlInterface;

impl ControlInterface {
    /// The service.
    pub fn new() -> (r: Self) {
        ControlInterface
    }

    /// Accepts a fan curve for fan `fan_id` when its points pass `validate_curve_points`:
    /// between 1 and 16 points, each temperature and speed at most 100.
    pub fn set_fan_curve(&self, fan_id: u32, curve: &FanCurve) -> (r: Result<(), crate::fan_curve::CurveError>)
        ensures
            r is Ok <==> crate::fan_curve::curve_error(curve.points@) is None,
            r matches Err(e) ==> crate::fan_curve::curve_error(curve.points@) == Some(e),
    {
        crate::fan_curve::validate_curve_points(&curve.points)
    }

    /// The curve kept for fan `fan_id`: the service keeps none, so a curve without points.
    pub fn get_fan_curve(&self, fan_id: u32) -> (r: FanCurve)
        ensures
            r.fan_id == fan_id,
            r.points@.len() == 0,
    {
        FanCurve { fan_id, points: Vec::new() }
    }

    /// The speed a curve test reports for fan `fan_id` at `temperature`: always 50, as
    /// the service keeps no curve to test.
    pub fn test_fan_curve(&self, fan_id: u32, temperature: u8) -> (r: u8)
        ensures
            r == 50,
    {
        50
    }
}

} // verus!
