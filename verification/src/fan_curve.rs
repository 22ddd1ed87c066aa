use vstd::prelude::*;
use crate::types::FanCurve;

verus! {

broadcast use vstd::seq_lib::group_to_multiset_ensures;

/// `sorted` with `p` placed after the last point whose temperature is at most `p`'s.
pub open spec fn insert_by_temp(sorted: Seq<(u8, u8)>, p: (u8, u8)) -> Seq<(u8, u8)>
    decreases sorted.len(),
{
    if sorted.len() == 0 {
        seq![p]
    } else if sorted.last().0 <= p.0 {
        sorted.push(p)
    } else {
        insert_by_temp(sorted.drop_last(), p).push(sorted.last())
    }
}

/// The points sorted by temperature; points of equal temperature keep their order
/// (what a stable sort by temperature gives).
pub open spec fn sort_by_temp(points: Seq<(u8, u8)>) -> Seq<(u8, u8)>
    decreases points.len(),
{
    if points.len() == 0 {
        points
    } else {
        insert_by_temp(sort_by_temp(points.drop_last()), points.last())
    }
}

/// Temperatures never decrease along `s`.
pub open spec fn temps_sorted(s: Seq<(u8, u8)>) -> bool {
    forall|i: int, j: int| 0 <= i <= j < s.len() ==> s[i].0 <= s[j].0
}

proof fn lemma_insert_at(s: Seq<(u8, u8)>, p: (u8, u8), j: int)
    requires
        0 <= j <= s.len(),
        forall|k: int| j <= k < s.len() ==> (#[trigger] s[k]).0 > p.0,
        j > 0 ==> s[j - 1].0 <= p.0,
    ensures
        insert_by_temp(s, p) == s.insert(j, p),
    decreases s.len(),
{
    if s.len() == 0 {
        assert(s.insert(j, p) =~= seq![p]);
    } else if s.last().0 <= p.0 {
        assert(j == s.len());
        assert(s.insert(j, p) =~= s.push(p));
    } else {
        lemma_insert_at(s.drop_last(), p, j);
        assert(s.insert(j, p) =~= s.drop_last().insert(j, p).push(s.last()));
    }
}

proof fn lemma_insert_sorted(s: Seq<(u8, u8)>, p: (u8, u8))
    requires
        temps_sorted(s),
    ensures
        temps_sorted(insert_by_temp(s, p)),
        insert_by_temp(s, p).to_multiset() == s.to_multiset().insert(p),
        insert_by_temp(s, p).len() == s.len() + 1,
    decreases s.len(),
{
    if s.len() == 0 {
        assert(seq![p] =~= Seq::<(u8, u8)>::empty().push(p));
    } else if s.last().0 <= p.0 {
    } else {
        let t = s.drop_last();
        lemma_insert_sorted(t, p);
        let it = insert_by_temp(t, p);
        assert(s =~= t.push(s.last()));
        assert forall|i: int, j: int| 0 <= i <= j < it.push(s.last()).len() implies it.push(
            s.last(),
        )[i].0 <= it.push(s.last())[j].0 by {
            if j == it.len() && i < it.len() {
                // every element of it is p or an element of t
                assert(it.to_multiset().count(it[i]) > 0);
                if it[i] != p {
                    assert(t.to_multiset().count(it[i]) > 0);
                    assert(t.contains(it[i]));
                    let k = choose|k: int| 0 <= k < t.len() && t[k] == it[i];
                    assert(s[k] == t[k]);
                }
            }
        }
        assert(it.push(s.last()).to_multiset() =~= s.to_multiset().insert(p)) by {
            assert(it.push(s.last()).to_multiset() =~= it.to_multiset().insert(s.last()));
            assert(s.to_multiset() =~= t.to_multiset().insert(s.last()));
        }
    }
}

/// Sorting keeps the points and orders them by temperature.
pub proof fn lemma_sort_by_temp(points: Seq<(u8, u8)>)
    ensures
        temps_sorted(sort_by_temp(points)),
        sort_by_temp(points).to_multiset() == points.to_multiset(),
        sort_by_temp(points).len() == points.len(),
    decreases points.len(),
{
    if points.len() > 0 {
        let t = points.drop_last();
        lemma_sort_by_temp(t);
        lemma_insert_sorted(sort_by_temp(t), points.last());
        assert(points =~= t.push(points.last()));
    }
}

/// The points of a curve, sorted by temperature (stable).
pub fn sorted_by_temp(points: &Vec<(u8, u8)>) -> (r: Vec<(u8, u8)>)
    ensures
        r@ == sort_by_temp(points@),
{
    let mut r: Vec<(u8, u8)> = Vec::new();
    let n = points.len();
    for i in 0..n
        invariant
            n == points.len(),
            r@ == sort_by_temp(points@.take(i as int)),
    {
        let p = points[i];
        proof {
            lemma_sort_by_temp(points@.take(i as int));
            assert(points@.take(i + 1).drop_last() =~= points@.take(i as int));
        }
        let mut j = r.len();
        while j > 0 && r[j - 1].0 > p.0
            invariant
                j <= r.len(),
                forall|k: int| j <= k < r.len() ==> (#[trigger] r@[k]).0 > p.0,
            decreases j,
        {
            j = j - 1;
        }
        proof {
            lemma_insert_at(r@, p, j as int);
        }
        r.insert(j, p);
    }
    proof {
        assert(points@.take(n as int) =~= points@);
    }
    r
}


/// The segment from point `i` to point `i + 1` of `s` holds `temp`.
pub open spec fn brackets(s: Seq<(u8, u8)>, i: int, temp: int) -> bool {
    0 <= i < s.len() - 1 && s[i].0 <= temp <= s[i + 1].0
}

/// Segment `i` is the first segment of `s` that holds `temp`.
pub open spec fn first_bracket(s: Seq<(u8, u8)>, i: int, temp: int) -> bool {
    brackets(s, i, temp) && forall|j: int| 0 <= j < i ==> !brackets(s, j, temp)
}

/// The speed on the straight line from `lo` to `hi` at `temp`, rounded to the nearest
/// integer with halves rounded up when `round` holds, else rounded down.
pub open spec fn interpolate(lo: (u8, u8), hi: (u8, u8), temp: int, round: bool) -> int {
    let d = hi.0 - lo.0;
    let num = lo.1 * d + (temp - lo.0) * (hi.1 - lo.1);
    if round {
        (2 * num + d) / (2 * d)
    } else {
        num / d
    }
}

/// The speed that a curve whose points are sorted by temperature gives at `temp`:
/// the first point's speed at or below its temperature, the last point's at or above
/// its temperature, and between them the line through the first segment that holds `temp`.
pub open spec fn sorted_curve_speed(s: Seq<(u8, u8)>, temp: int, round: bool) -> int {
    if temp <= s[0].0 {
        s[0].1 as int
    } else if temp >= s.last().0 {
        s.last().1 as int
    } else {
        let i = choose|i: int| first_bracket(s, i, temp);
        interpolate(s[i], s[i + 1], temp, round)
    }
}

/// The fan speed (in %) that a curve gives at `temp`: 50 for a curve without points, the
/// speed of its only point, or else the sorted curve's speed, rounded to nearest.
pub open spec fn curve_speed(points: Seq<(u8, u8)>, temp: int) -> int {
    if points.len() == 0 {
        50
    } else if points.len() == 1 {
        points[0].1 as int
    } else {
        sorted_curve_speed(sort_by_temp(points), temp, true)
    }
}

/// Points of equal temperature are the same point (so, in particular, when no two points
/// share a temperature).
pub open spec fn temps_determine_points(s: Seq<(u8, u8)>) -> bool {
    forall|i: int, j: int|
        0 <= i < s.len() && 0 <= j < s.len() && #[trigger] s[i].0 == #[trigger] s[j].0 ==> s[i] == s[j]
}

proof fn lemma_sorted_unique(a: Seq<(u8, u8)>, b: Seq<(u8, u8)>)
    requires
        temps_sorted(a),
        temps_sorted(b),
        a.to_multiset() == b.to_multiset(),
        temps_determine_points(a),
    ensures
        a == b,
    decreases a.len(),
{
    assert(a.len() == a.to_multiset().len());
    assert(b.len() == b.to_multiset().len());
    if a.len() == 0 {
        assert(a =~= b);
    } else {
        let n = a.len() - 1;
        let x = a.last();
        let y = b.last();
        assert(a.contains(x)) by {
            assert(a[n] == x);
        }
        assert(a.to_multiset().count(x) > 0);
        assert(b.contains(x));
        let k = choose|k: int| 0 <= k < b.len() && b[k] == x;
        assert(b[k].0 <= b[n].0);
        assert(b.contains(y)) by {
            assert(b[n] == y);
        }
        assert(b.to_multiset().count(y) > 0);
        assert(a.contains(y));
        let m = choose|m: int| 0 <= m < a.len() && a[m] == y;
        assert(a[m].0 <= a[n].0);
        assert(a[m].0 == a[n].0);
        assert(y == x);
        let a2 = a.drop_last();
        let b2 = b.drop_last();
        assert(a =~= a2.push(x));
        assert(b =~= b2.push(x));
        assert(a2.to_multiset().insert(x) == b2.to_multiset().insert(x));
        assert(a2.to_multiset() =~= b2.to_multiset()) by {
            assert forall|v: (u8, u8)| a2.to_multiset().count(v) == b2.to_multiset().count(v) by {
                assert(a2.to_multiset().insert(x).count(v) == b2.to_multiset().insert(x).count(v));
            }
        }
        assert forall|i: int, j: int| 0 <= i <= j < a2.len() implies a2[i].0 <= a2[j].0 by {
            assert(a[i].0 <= a[j].0);
        }
        assert forall|i: int, j: int| 0 <= i <= j < b2.len() implies b2[i].0 <= b2[j].0 by {
            assert(b[i].0 <= b[j].0);
        }
        assert forall|i: int, j: int|
            0 <= i < a2.len() && 0 <= j < a2.len() && #[trigger] a2[i].0 == #[trigger] a2[j].0 implies a2[i]
                == a2[j] by {
            assert(a[i] == a2[i] && a[j] == a2[j]);
        }
        lemma_sorted_unique(a2, b2);
    }
}

/// The order in which a curve's points are stored does not change its fan speed, as long
/// as points of equal temperature are the same point: a curve and any rearrangement of it
/// give the same speed at every temperature.
pub proof fn lemma_curve_speed_order_free(points: Seq<(u8, u8)>, rearranged: Seq<(u8, u8)>, temp: int)
    requires
        rearranged.to_multiset() == points.to_multiset(),
        temps_determine_points(points),
    ensures
        curve_speed(rearranged, temp) == curve_speed(points, temp),
{
    assert(points.len() == points.to_multiset().len());
    assert(rearranged.len() == rearranged.to_multiset().len());
    if points.len() == 1 {
        assert(rearranged.contains(rearranged[0]));
        assert(rearranged.to_multiset().count(rearranged[0]) > 0);
        assert(points.contains(rearranged[0]));
    } else if points.len() >= 2 {
        let a = sort_by_temp(points);
        let b = sort_by_temp(rearranged);
        lemma_sort_by_temp(points);
        lemma_sort_by_temp(rearranged);
        assert forall|i: int, j: int|
            0 <= i < a.len() && 0 <= j < a.len() && #[trigger] a[i].0 == #[trigger] a[j].0 implies a[i]
                == a[j] by {
            assert(a.contains(a[i]));
            assert(a.contains(a[j]));
            assert(a.to_multiset().count(a[i]) > 0);
            assert(a.to_multiset().count(a[j]) > 0);
            assert(points.contains(a[i]));
            assert(points.contains(a[j]));
            let k = choose|k: int| 0 <= k < points.len() && points[k] == a[i];
            let l = choose|l: int| 0 <= l < points.len() && points[l] == a[j];
            assert(points[k].0 == points[l].0);
        }
        lemma_sorted_unique(a, b);
    }
}

proof fn lemma_interpolate_bounds(lo: (u8, u8), hi: (u8, u8), temp: int, round: bool)
    requires
        lo.0 <= temp <= hi.0,
        lo.0 < hi.0,
    ensures
        lo.1 <= hi.1 ==> lo.1 <= interpolate(lo, hi, temp, round) <= hi.1,
        hi.1 <= lo.1 ==> hi.1 <= interpolate(lo, hi, temp, round) <= lo.1,
        temp == lo.0 ==> interpolate(lo, hi, temp, round) == lo.1,
        temp == hi.0 ==> interpolate(lo, hi, temp, round) == hi.1,
{
    let d: int = hi.0 - lo.0;
    let x: int = temp - lo.0;
    let a: int = lo.1 as int;
    let b: int = hi.1 as int;
    let num = a * d + x * (b - a);
    assert(0 <= x <= d);
    if a <= b {
        assert(a * d <= num <= b * d) by (nonlinear_arith)
            requires
                num == a * d + x * (b - a),
                0 <= x <= d,
                a <= b,
        ;
    } else {
        assert(b * d <= num <= a * d) by (nonlinear_arith)
            requires
                num == a * d + x * (b - a),
                0 <= x <= d,
                b < a,
        ;
    }
    let lo_v = if a <= b { a } else { b };
    let hi_v = if a <= b { b } else { a };
    assert(lo_v * d <= num <= hi_v * d);
    assert(lo_v <= num / d <= hi_v) by (nonlinear_arith)
        requires
            lo_v * d <= num <= hi_v * d,
            d > 0,
    ;
    assert(lo_v <= (2 * num + d) / (2 * d) <= hi_v) by (nonlinear_arith)
        requires
            lo_v * d <= num <= hi_v * d,
            d > 0,
    ;
    if x == 0 {
        assert(num == a * d) by (nonlinear_arith)
            requires
                num == a * d + x * (b - a),
                x == 0,
        ;
        assert((a * d) / d == a) by (nonlinear_arith)
            requires
                d > 0,
        ;
        assert((2 * (a * d) + d) / (2 * d) == a) by (nonlinear_arith)
            requires
                d > 0,
                a >= 0,
        ;
    }
    if x == d {
        assert(num == b * d) by (nonlinear_arith)
            requires
                num == a * d + x * (b - a),
                x == d,
        ;
        assert((b * d) / d == b) by (nonlinear_arith)
            requires
                d > 0,
        ;
        assert((2 * (b * d) + d) / (2 * d) == b) by (nonlinear_arith)
            requires
                d > 0,
                b >= 0,
        ;
    }
}

/// The speed on the line from `lo` to `hi` at `temp`, for `temp` between their temperatures.
fn interpolate_between(lo: (u8, u8), hi: (u8, u8), temp: u32, round: bool) -> (r: u8)
    requires
        lo.0 <= temp <= hi.0,
        lo.0 < hi.0,
    ensures
        r == interpolate(lo, hi, temp as int, round),
{
    proof {
        lemma_interpolate_bounds(lo, hi, temp as int, round);
    }
    let d: u64 = (hi.0 - lo.0) as u64;
    let x: u64 = (temp - lo.0 as u32) as u64;
    let a: u64 = lo.1 as u64;
    let b: u64 = hi.1 as u64;
    assert(x <= d);
    assert(a * d <= 255 * 255) by (nonlinear_arith)
        requires
            a <= 255,
            d <= 255,
    ;
    let num: u64 = if a <= b {
        assert(x * (b - a) <= 255 * 255) by (nonlinear_arith)
            requires
                x <= 255,
                b - a <= 255,
        ;
        a * d + x * (b - a)
    } else {
        assert(x * (a - b) <= a * d) by (nonlinear_arith)
            requires
                x <= d,
                a - b <= a,
        ;
        a * d - x * (a - b)
    };
    assert(num == a * d + x * (b - a)) by (nonlinear_arith)
        requires
            a <= b ==> num == a * d + x * (b - a),
            a > b ==> num == a * d - x * (a - b),
    ;
    let v = if round {
        (2 * num + d) / (2 * d)
    } else {
        num / d
    };
    v as u8
}

proof fn lemma_first_bracket_unique(s: Seq<(u8, u8)>, i: int, temp: int)
    requires
        first_bracket(s, i, temp),
    ensures
        (choose|k: int| first_bracket(s, k, temp)) == i,
{
    let k = choose|k: int| first_bracket(s, k, temp);
    assert(first_bracket(s, k, temp));
    if k < i {
        assert(!brackets(s, k, temp));
    }
    if i < k {
        assert(!brackets(s, i, temp));
    }
}

/// The speed of a curve whose points are sorted by temperature.
fn evaluate_sorted(s: &Vec<(u8, u8)>, temp: u32, round: bool) -> (r: u8)
    requires
        s.len() >= 2,
        temps_sorted(s@),
    ensures
        r == sorted_curve_speed(s@, temp as int, round),
{
    let n = s.len();
    if temp <= s[0].0 as u32 {
        return s[0].1;
    }
    if temp >= s[n - 1].0 as u32 {
        return s[n - 1].1;
    }
    let mut i: usize = 0;
    while i < n - 1
        invariant
            n == s.len(),
            n >= 2,
            temps_sorted(s@),
            s@[0].0 < temp < s@[n - 1].0,
            i < n,
            s@[i as int].0 < temp,
            forall|j: int| 0 <= j < i ==> !brackets(s@, j, temp as int),
        decreases n - i,
    {
        let lo = s[i];
        let hi = s[i + 1];
        if lo.0 as u32 <= temp && temp <= hi.0 as u32 {
            proof {
                assert(first_bracket(s@, i as int, temp as int));
                lemma_first_bracket_unique(s@, i as int, temp as int);
            }
            return interpolate_between(lo, hi, temp, round);
        }
        i = i + 1;
    }
    proof {
        assert(false);
    }
    50
}

/// The fan speed (in %) that the curve `points` gives at temperature `temp` (in °C):
/// 50 without points, the only point's speed for one point, else linear interpolation on
/// the points sorted by temperature, rounded to nearest (halves up), held constant below
/// the first and above the last point.
pub fn calculate_fan_speed(points: &Vec<(u8, u8)>, temp: u32) -> (speed: u8)
    ensures
        speed == curve_speed(points@, temp as int),
{
    if points.len() == 0 {
        return 50;
    }
    if points.len() == 1 {
        return points[0].1;
    }
    let sorted = sorted_by_temp(points);
    proof {
        lemma_sort_by_temp(points@);
    }
    evaluate_sorted(&sorted, temp, true)
}


/// Along the curve, a higher temperature never has a lower speed.
pub open spec fn speeds_follow_temps(points: Seq<(u8, u8)>) -> bool {
    forall|i: int, j: int|
        0 <= i < points.len() && 0 <= j < points.len() && points[i].0 <= points[j].0 ==> points[i].1
            <= points[j].1
}

proof fn lemma_sorted_elements(points: Seq<(u8, u8)>, k: int)
    requires
        0 <= k < points.len(),
    ensures
        exists|m: int| 0 <= m < points.len() && points[m] == sort_by_temp(points)[k],
{
    lemma_sort_by_temp(points);
    let s = sort_by_temp(points);
    assert(s.to_multiset().count(s[k]) > 0);
    assert(points.contains(s[k]));
}

proof fn lemma_sorted_curve_bounds(s: Seq<(u8, u8)>, temp: int, round: bool)
    requires
        s.len() >= 2,
        temps_sorted(s),
    ensures
        exists|i: int, j: int|
            #![trigger s[i], s[j]]
            0 <= i < s.len() && 0 <= j < s.len() && s[i].1 <= sorted_curve_speed(s, temp, round)
                <= s[j].1,
{
    let v = sorted_curve_speed(s, temp, round);
    if temp <= s[0].0 {
        assert(s[0].1 <= v <= s[0].1);
    } else if temp >= s.last().0 {
        assert(s[s.len() - 1].1 <= v <= s[s.len() - 1].1);
    } else {
        lemma_bracket_exists(s, temp);
        let i = choose|i: int| first_bracket(s, i, temp);
        lemma_first_bracket_lo_below(s, i, temp);
        lemma_interpolate_bounds(s[i], s[i + 1], temp, round);
        if s[i].1 <= s[i + 1].1 {
            assert(s[i].1 <= v <= s[i + 1].1);
        } else {
            assert(s[i + 1].1 <= v <= s[i].1);
        }
    }
}

proof fn lemma_first_bracket_lo_below(s: Seq<(u8, u8)>, i: int, temp: int)
    requires
        s.len() >= 2,
        temps_sorted(s),
        s[0].0 < temp,
        first_bracket(s, i, temp),
    ensures
        s[i].0 < temp,
{
    if s[i].0 == temp && i > 0 {
        assert(brackets(s, i - 1, temp));
    }
}

proof fn lemma_bracket_from(s: Seq<(u8, u8)>, temp: int, i: int)
    requires
        s.len() >= 2,
        0 <= i < s.len(),
        s[i].0 < temp < s.last().0,
        forall|j: int| 0 <= j < i ==> !brackets(s, j, temp),
    ensures
        exists|k: int| first_bracket(s, k, temp),
    decreases s.len() - i,
{
    if i == s.len() - 1 {
        assert(false);
    } else if s[i + 1].0 >= temp {
        assert(first_bracket(s, i, temp));
    } else {
        lemma_bracket_from(s, temp, i + 1);
    }
}

proof fn lemma_bracket_exists(s: Seq<(u8, u8)>, temp: int)
    requires
        s.len() >= 2,
        temps_sorted(s),
        s[0].0 < temp < s.last().0,
    ensures
        exists|i: int| first_bracket(s, i, temp),
{
    lemma_bracket_from(s, temp, 0);
}

/// A curve's speed always lies between the speeds of two of its points.
pub proof fn lemma_curve_speed_bounds(points: Seq<(u8, u8)>, temp: int)
    requires
        points.len() > 0,
    ensures
        exists|i: int, j: int|
            #![trigger points[i], points[j]]
            0 <= i < points.len() && 0 <= j < points.len() && points[i].1 <= curve_speed(points, temp)
                <= points[j].1,
{
    if points.len() == 1 {
        assert(points[0].1 <= curve_speed(points, temp) <= points[0].1);
    } else {
        lemma_sort_by_temp(points);
        let s = sort_by_temp(points);
        lemma_sorted_curve_bounds(s, temp, true);
        let (a, b) = choose|a: int, b: int|
            #![trigger s[a], s[b]]
            0 <= a < s.len() && 0 <= b < s.len() && s[a].1 <= sorted_curve_speed(s, temp, true)
                <= s[b].1;
        lemma_sorted_elements(points, a);
        lemma_sorted_elements(points, b);
        let ma = choose|m: int| 0 <= m < points.len() && points[m] == s[a];
        let mb = choose|m: int| 0 <= m < points.len() && points[m] == s[b];
        assert(points[ma].1 <= curve_speed(points, temp) <= points[mb].1);
    }
}


/// Speeds never decrease along `s`.
pub open spec fn speeds_sorted(s: Seq<(u8, u8)>) -> bool {
    forall|i: int, j: int| 0 <= i <= j < s.len() ==> s[i].1 <= s[j].1
}

proof fn lemma_interpolate_monotone(lo: (u8, u8), hi: (u8, u8), t1: int, t2: int, round: bool)
    requires
        lo.0 <= t1 <= t2 <= hi.0,
        lo.0 < hi.0,
        lo.1 <= hi.1,
    ensures
        interpolate(lo, hi, t1, round) <= interpolate(lo, hi, t2, round),
{
    let d: int = hi.0 - lo.0;
    let a: int = lo.1 as int;
    let b: int = hi.1 as int;
    let n1 = a * d + (t1 - lo.0) * (b - a);
    let n2 = a * d + (t2 - lo.0) * (b - a);
    assert(n1 <= n2) by (nonlinear_arith)
        requires
            n1 == a * d + (t1 - lo.0) * (b - a),
            n2 == a * d + (t2 - lo.0) * (b - a),
            t1 <= t2,
            a <= b,
    ;
    assert(n1 / d <= n2 / d) by (nonlinear_arith)
        requires
            n1 <= n2,
            d > 0,
    ;
    assert((2 * n1 + d) / (2 * d) <= (2 * n2 + d) / (2 * d)) by (nonlinear_arith)
        requires
            n1 <= n2,
            d > 0,
    ;
}

proof fn lemma_sorted_curve_range(s: Seq<(u8, u8)>, temp: int, round: bool)
    requires
        s.len() >= 2,
        temps_sorted(s),
        speeds_sorted(s),
    ensures
        s[0].1 <= sorted_curve_speed(s, temp, round) <= s.last().1,
{
    lemma_sorted_curve_bounds(s, temp, round);
    let (a, b) = choose|a: int, b: int|
        #![trigger s[a], s[b]]
        0 <= a < s.len() && 0 <= b < s.len() && s[a].1 <= sorted_curve_speed(s, temp, round)
            <= s[b].1;
    assert(s[0].1 <= s[a].1);
    assert(s[b].1 <= s[s.len() - 1].1);
}

proof fn lemma_sorted_curve_monotone(s: Seq<(u8, u8)>, t1: int, t2: int, round: bool)
    requires
        s.len() >= 2,
        temps_sorted(s),
        speeds_sorted(s),
        t1 <= t2,
    ensures
        sorted_curve_speed(s, t1, round) <= sorted_curve_speed(s, t2, round),
{
    lemma_sorted_curve_range(s, t1, round);
    lemma_sorted_curve_range(s, t2, round);
    if t1 <= s[0].0 || t2 >= s.last().0 {
    } else {
        lemma_bracket_exists(s, t1);
        lemma_bracket_exists(s, t2);
        let i = choose|i: int| first_bracket(s, i, t1);
        let k = choose|k: int| first_bracket(s, k, t2);
        lemma_first_bracket_lo_below(s, i, t1);
        lemma_first_bracket_lo_below(s, k, t2);
        lemma_interpolate_bounds(s[i], s[i + 1], t1, round);
        lemma_interpolate_bounds(s[k], s[k + 1], t2, round);
        assert(s[i].1 <= s[i + 1].1);
        assert(s[k].1 <= s[k + 1].1);
        if k < i {
            assert(s[k + 1].0 <= s[i].0);
            assert(t1 == t2);
        } else if k == i {
            lemma_interpolate_monotone(s[i], s[i + 1], t1, t2, round);
        } else {
            assert(s[i + 1].1 <= s[k].1);
        }
    }
}

/// Along a curve whose speeds never decrease in the order of its points sorted by
/// temperature (points of equal temperature keeping their stored order), a higher
/// temperature never gives a lower fan speed.
pub proof fn lemma_sorted_speeds_monotone(points: Seq<(u8, u8)>, t1: int, t2: int)
    requires
        speeds_sorted(sort_by_temp(points)),
        t1 <= t2,
    ensures
        curve_speed(points, t1) <= curve_speed(points, t2),
{
    if points.len() >= 2 {
        lemma_sort_by_temp(points);
        lemma_sorted_curve_monotone(sort_by_temp(points), t1, t2, true);
    }
}

/// Along a curve on which a higher temperature never has a lower speed, a higher
/// temperature never gives a lower fan speed.
pub proof fn lemma_curve_speed_monotone(points: Seq<(u8, u8)>, t1: int, t2: int)
    requires
        speeds_follow_temps(points),
        t1 <= t2,
    ensures
        curve_speed(points, t1) <= curve_speed(points, t2),
{
    if points.len() >= 2 {
        lemma_sort_by_temp(points);
        let s = sort_by_temp(points);
        assert forall|i: int, j: int| 0 <= i <= j < s.len() implies s[i].1 <= s[j].1 by {
            lemma_sorted_elements(points, i);
            lemma_sorted_elements(points, j);
            let mi = choose|m: int| 0 <= m < points.len() && points[m] == s[i];
            let mj = choose|m: int| 0 <= m < points.len() && points[m] == s[j];
            assert(points[mi].0 <= points[mj].0);
        }
        lemma_sorted_curve_monotone(s, t1, t2, true);
    }
}


/// The points of a new curve and of a curve reset to its default.
pub open spec fn default_curve_points() -> Seq<(u8, u8)> {
    seq![(0u8, 0u8), (50u8, 50u8), (70u8, 75u8), (85u8, 100u8)]
}

/// The default points: `(0, 0), (50, 50), (70, 75), (85, 100)`.
pub fn default_points() -> (r: Vec<(u8, u8)>)
    ensures
        r@ == default_curve_points(),
{
    let r = vec![(0u8, 0u8), (50u8, 50u8), (70u8, 75u8), (85u8, 100u8)];
    assert(r@ =~= default_curve_points());
    r
}

/// A copy of the points.
pub fn copy_points(v: &Vec<(u8, u8)>) -> (r: Vec<(u8, u8)>)
    ensures
        r@ == v@,
{
    let mut r: Vec<(u8, u8)> = Vec::new();
    for i in 0..v.len()
        invariant
            r@ == v@.take(i as int),
    {
        r.push(v[i]);
        assert(r@ =~= v@.take(i + 1));
    }
    assert(r@ =~= v@);
    r
}

/// A copy of the curve.
pub fn copy_curve(c: &FanCurve) -> (r: FanCurve)
    ensures
        r.fan_id == c.fan_id,
        r.points@ == c.points@,
{
    FanCurve { fan_id: c.fan_id, points: copy_points(&c.points) }
}

/// Why a fan curve is refused.
#[derive(Debug, Clone, Copy, PartialEq, Eq, Structural)]
pub enum CurveError {
    /// The curve has no point.
    NoPoints,
    /// The curve has more than 16 points.
    TooManyPoints,
    /// A point's temperature is above 100 °C.
    TemperatureOutOfRange,
    /// A point's speed is above 100 %.
    SpeedOutOfRange,
}

/// A point whose temperature or speed is above 100.
pub open spec fn point_out_of_range(p: (u8, u8)) -> bool {
    p.0 > 100 || p.1 > 100
}

/// Why a curve with the points `points` is refused, if it is: no point, more than 16
/// points, or else the first point out of range, judged by its temperature first.
pub open spec fn curve_error(points: Seq<(u8, u8)>) -> Option<CurveError> {
    if points.len() == 0 {
        Some(CurveError::NoPoints)
    } else if points.len() > 16 {
        Some(CurveError::TooManyPoints)
    } else if exists|i: int| 0 <= i < points.len() && point_out_of_range(#[trigger] points[i]) {
        let i = choose|i: int|
            0 <= i < points.len() && point_out_of_range(#[trigger] points[i]) && forall|j: int|
                0 <= j < i ==> !point_out_of_range(#[trigger] points[j]);
        if points[i].0 > 100 {
            Some(CurveError::TemperatureOutOfRange)
        } else {
            Some(CurveError::SpeedOutOfRange)
        }
    } else {
        None
    }
}

/// Checks the points of a curve: between 1 and 16 points, each temperature and speed at
/// most 100.
pub fn validate_curve_points(points: &Vec<(u8, u8)>) -> (r: Result<(), CurveError>)
    ensures
        r is Ok <==> curve_error(points@) is None,
        r matches Err(e) ==> curve_error(points@) == Some(e),
{
    if points.len() == 0 {
        return Err(CurveError::NoPoints);
    }
    if points.len() > 16 {
        return Err(CurveError::TooManyPoints);
    }
    for i in 0..points.len()
        invariant
            0 < points.len() <= 16,
            forall|j: int| 0 <= j < i ==> !point_out_of_range(#[trigger] points@[j]),
    {
        let (temp, speed) = points[i];
        if temp > 100 || speed > 100 {
            proof {
                assert(0 <= i < points@.len() && point_out_of_range(points@[i as int]) && forall|
                    j: int,
                | 0 <= j < i ==> !point_out_of_range(#[trigger] points@[j]));
                let k = choose|k: int|
                    0 <= k < points@.len() && point_out_of_range(#[trigger] points@[k]) && forall|
                        j: int,
                    | 0 <= j < k ==> !point_out_of_range(#[trigger] points@[j]);
                assert(point_out_of_range(points@[i as int]));
                if k < i {
                    assert(!point_out_of_range(points@[k]));
                }
                if k > i {
                    assert(!point_out_of_range(points@[i as int]));
                }
                assert(k == i);
            }
            if temp > 100 {
                return Err(CurveError::TemperatureOutOfRange);
            }
            return Err(CurveError::SpeedOutOfRange);
        }
    }
    Ok(())
}

/// On a curve that passes validation, every fan speed is at most 100 %.
pub proof fn lemma_valid_curve_speed_in_range(points: Seq<(u8, u8)>, temp: int)
    requires
        curve_error(points) is None,
    ensures
        0 <= curve_speed(points, temp) <= 100,
{
    assert forall|i: int| 0 <= i < points.len() implies !point_out_of_range(#[trigger] points[i]) by {
        if point_out_of_range(points[i]) {
            assert(exists|i: int| 0 <= i < points.len() && point_out_of_range(#[trigger] points[i]));
        }
    }
    lemma_curve_speed_bounds(points, temp);
    let (i, j) = choose|i: int, j: int|
        #![trigger points[i], points[j]]
        0 <= i < points.len() && 0 <= j < points.len() && points[i].1 <= curve_speed(points, temp)
            <= points[j].1;
    assert(!point_out_of_range(points[j]));
}

/// The speed the curve editor shows for `temp`: 50 without points, the only point's speed
/// for one point, else linear interpolation on the sorted points, rounded down.
pub open spec fn editor_speed(points: Seq<(u8, u8)>, temp: int) -> int {
    if points.len() == 0 {
        50
    } else if points.len() == 1 {
        points[0].1 as int
    } else {
        sorted_curve_speed(sort_by_temp(points), temp, false)
    }
}

/// Over the first `n` gaps of the sorted points `s`: the middle and the width of the first
/// widest gap between consecutive temperatures; `(50, 0)` when no gap is wider than 0.
pub open spec fn widest_gap(s: Seq<(u8, u8)>, n: int) -> (int, int)
    decreases n,
{
    if n <= 0 {
        (50, 0)
    } else {
        let (t, g) = widest_gap(s, n - 1);
        let gap = s[n].0 - s[n - 1].0;
        if gap > g {
            (s[n - 1].0 + gap / 2, gap)
        } else {
            (t, g)
        }
    }
}

/// The temperature at which the editor adds a point: the middle of the widest of the
/// gaps, which are the room from 0 up to the lowest temperature, the gaps between
/// consecutive temperatures and the room from the highest temperature up to 100; of equally
/// wide gaps, the first gap between points is taken before the room below, and either
/// before the room above; 50 for a curve without points.
pub open spec fn new_point_temp(points: Seq<(u8, u8)>) -> int {
    if points.len() == 0 {
        50
    } else {
        let s = sort_by_temp(points);
        let (t, g) = widest_gap(s, s.len() - 1);
        let (t1, g1) = if s[0].0 > g {
            ((s[0].0 / 2) as int, s[0].0 as int)
        } else {
            (t, g)
        };
        let last = s.last().0;
        if 100 - last > g1 {
            last + (100 - last) / 2
        } else {
            t1
        }
    }
}

/// The free stretches of temperature around the sorted points `s`: from 0 up to the
/// lowest temperature, between each two consecutive temperatures, and from the highest
/// temperature up to 100, as `(from, to)`.
pub open spec fn free_gaps(s: Seq<(u8, u8)>) -> Seq<(int, int)> {
    let n = s.len() as int;
    Seq::new(
        (n + 1) as nat,
        |k: int|
            if k == 0 {
                (0int, s[0].0 as int)
            } else if k == n {
                (s[n - 1].0 as int, 100int)
            } else {
                (s[k - 1].0 as int, s[k].0 as int)
            },
    )
}

proof fn lemma_widest_gap(s: Seq<(u8, u8)>, n: int)
    requires
        0 <= n < s.len(),
        temps_sorted(s),
    ensures
        ({
            let (t, g) = widest_gap(s, n);
            &&& g >= 0
            &&& forall|k: int| 1 <= k <= n ==> #[trigger] s[k].0 - s[k - 1].0 <= g
            &&& g == 0 ==> t == 50 && s[n].0 == s[0].0
            &&& g > 0 ==> exists|k: int| 1 <= k <= n && g == #[trigger] s[k].0 - s[k - 1].0 && t == s[k - 1].0 + g / 2
        }),
    decreases n,
{
    if n > 0 {
        lemma_widest_gap(s, n - 1);
        let (t0, g0) = widest_gap(s, n - 1);
        let gap = s[n].0 - s[n - 1].0;
        assert(s[n - 1].0 <= s[n].0);
        if gap > g0 {
            assert(1 <= n <= n && gap == s[n].0 - s[n - 1].0);
        } else if g0 > 0 {
            let k = choose|k: int| 1 <= k <= n - 1 && g0 == #[trigger] s[k].0 - s[k - 1].0 && t0 == s[k - 1].0 + g0 / 2;
            assert(1 <= k <= n && g0 == s[k].0 - s[k - 1].0);
        }
    }
}

/// Where the editor adds a point, the temperature is the middle (rounded down) of one of
/// the free stretches of the curve (see `free_gaps`), and no free stretch is wider than
/// that one.
pub proof fn lemma_new_point_in_widest_gap(points: Seq<(u8, u8)>)
    requires
        points.len() >= 1,
    ensures
        ({
            let gaps = free_gaps(sort_by_temp(points));
            exists|k: int|
                0 <= k < gaps.len() && new_point_temp(points) == gaps[k].0 + (gaps[k].1 - gaps[k].0) / 2
                    && forall|j: int| 0 <= j < gaps.len() ==> #[trigger] gaps[j].1 - gaps[j].0 <= gaps[k].1 - gaps[k].0
        }),
        (forall|i: int| 0 <= i < points.len() ==> (#[trigger] points[i]).0 <= 100) ==> 0 <= new_point_temp(points)
            <= 100,
{
    let s = sort_by_temp(points);
    lemma_sort_by_temp(points);
    let n = s.len() as int;
    let gaps = free_gaps(s);
    assert(gaps.len() == n + 1);
    lemma_widest_gap(s, n - 1);
    let (t, g) = widest_gap(s, n - 1);
    let last = s.last().0;
    assert(s[n - 1] == s.last());
    let (t1, g1) = if s[0].0 > g {
        ((s[0].0 / 2) as int, s[0].0 as int)
    } else {
        (t, g)
    };
    // the width of every stretch is at most that of the one chosen
    let chosen: int = if 100 - last > g1 {
        n
    } else if s[0].0 > g {
        0
    } else {
        choose|k: int| 1 <= k <= n - 1 && g == #[trigger] s[k].0 - s[k - 1].0 && t == s[k - 1].0 + g / 2
    };
    if !(100 - last > g1) && !(s[0].0 > g) {
        // g > 0 here: with g == 0 the last temperature equals the first, which is 0 here
        if g == 0 {
            assert(s[n - 1].0 == s[0].0);
            assert(false);
        }
    }
    assert(0 <= chosen < gaps.len());
    assert(new_point_temp(points) == gaps[chosen].0 + (gaps[chosen].1 - gaps[chosen].0) / 2);
    assert forall|j: int| 0 <= j < gaps.len() implies #[trigger] gaps[j].1 - gaps[j].0 <= gaps[chosen].1
        - gaps[chosen].0 by {
        if 1 <= j <= n - 1 {
            assert(s[j].0 - s[j - 1].0 <= g);
        }
    }
    if forall|i: int| 0 <= i < points.len() ==> (#[trigger] points[i]).0 <= 100 {
        assert(gaps[0].1 - gaps[0].0 <= gaps[chosen].1 - gaps[chosen].0);
        assert forall|k: int| 0 <= k < n implies s[k].0 <= 100 by {
            lemma_sorted_elements(points, k);
            let m = choose|m: int| 0 <= m < points.len() && points[m] == sort_by_temp(points)[k];
            assert(points[m].0 <= 100);
        }
        if 1 <= chosen <= n - 1 {
            assert(s[chosen].0 <= 100);
        } else if chosen == n {
            assert(s[n - 1].0 <= 100);
        }
    }
}

/// The editor of one fan's curve.
pub struct FanCurveEditor {
    fan_id: u32,
    curve: FanCurve,
    selected_point: Option<usize>,
}

impl FanCurveEditor {
    /// An editor of `curve`, with no point selected.
    pub fn new(fan_id: u32, curve: FanCurve) -> (r: Self)
        ensures
            r.edited_fan() == fan_id,
            r.edited_curve() == curve,
            r.selected() is None,
    {
        FanCurveEditor { fan_id, curve, selected_point: None }
    }

    /// The fan whose curve is edited.
    pub closed spec fn edited_fan(&self) -> u32 {
        self.fan_id
    }

    /// The curve being edited.
    pub closed spec fn edited_curve(&self) -> FanCurve {
        self.curve
    }

    /// The selected point, if any.
    pub closed spec fn selected(&self) -> Option<usize> {
        self.selected_point
    }

    /// The fan whose curve is edited.
    pub fn fan_id(&self) -> (r: u32)
        ensures
            r == self.edited_fan(),
    {
        self.fan_id
    }

    /// The selected point, if any.
    pub fn selected_point(&self) -> (r: Option<usize>)
        ensures
            r == self.selected(),
    {
        self.selected_point
    }

    /// Selects point `idx`.
    pub fn select_point(&mut self, idx: usize)
        ensures
            final(self).selected() == Some(idx),
            final(self).edited_curve() == old(self).edited_curve(),
            final(self).edited_fan() == old(self).edited_fan(),
    {
        self.selected_point = Some(idx);
    }

    /// The edited curve.
    pub fn get_curve(&self) -> (r: FanCurve)
        ensures
            r.fan_id == self.edited_curve().fan_id,
            r.points@ == self.edited_curve().points@,
    {
        copy_curve(&self.curve)
    }

    /// The speed shown for `temp` between the points of the curve.
    pub fn interpolate_speed(&self, temp: u8) -> (r: u8)
        ensures
            r == editor_speed(self.edited_curve().points@, temp as int),
    {
        let points = &self.curve.points;
        if points.len() == 0 {
            return 50;
        }
        if points.len() == 1 {
            return points[0].1;
        }
        let sorted = sorted_by_temp(points);
        proof {
            lemma_sort_by_temp(points@);
        }
        evaluate_sorted(&sorted, temp as u32, false)
    }

    /// Adds a point at the middle of the widest free stretch of temperatures, with the
    /// speed the curve has there; a curve of 16 points is left as it is.
    pub fn add_point(&mut self)
        requires
            forall|i: int| 0 <= i < old(self).edited_curve().points@.len() ==> (#[trigger] old(self).edited_curve().points@[i]).0 <= 100,
        ensures
            final(self).edited_fan() == old(self).edited_fan(),
            final(self).edited_curve().fan_id == old(self).edited_curve().fan_id,
            final(self).selected() == old(self).selected(),
            old(self).edited_curve().points@.len() >= 16 ==> final(self).edited_curve().points@ == old(self).edited_curve().points@,
            old(self).edited_curve().points@.len() < 16 ==> final(self).edited_curve().points@ == old(self).edited_curve().points@.push(
                (
                    new_point_temp(old(self).edited_curve().points@) as u8,
                    editor_speed(old(self).edited_curve().points@, new_point_temp(old(self).edited_curve().points@)) as u8,
                ),
            ),
            1 <= old(self).edited_curve().points@.len() < 16 ==> ({
                let gaps = free_gaps(sort_by_temp(old(self).edited_curve().points@));
                let t = final(self).edited_curve().points@.last().0 as int;
                exists|k: int|
                    0 <= k < gaps.len() && t == gaps[k].0 + (gaps[k].1 - gaps[k].0) / 2 && forall|j: int|
                        0 <= j < gaps.len() ==> #[trigger] gaps[j].1 - gaps[j].0 <= gaps[k].1 - gaps[k].0
            }),
    {
        proof {
            if self.curve.points@.len() >= 1 {
                lemma_new_point_in_widest_gap(self.curve.points@);
            }
        }
        if self.curve.points.len() >= 16 {
            return;
        }
        if self.curve.points.len() == 0 {
            self.curve.points.push((50, 50));
            return;
        }
        let sorted = sorted_by_temp(&self.curve.points);
        proof {
            lemma_sort_by_temp(self.curve.points@);
        }
        let n = sorted.len();
        proof {
            // every temperature is at most 100: sorted holds the same points
            lemma_sorted_elements(self.curve.points@, (n - 1) as int);
            let m = choose|m: int|
                0 <= m < self.curve.points@.len() && self.curve.points@[m] == sorted@[n - 1];
            assert(self.curve.points@ == old(self).curve.points@);
            assert(old(self).edited_curve().points@[m].0 <= 100);
            assert(sorted@[n - 1].0 <= 100);
        }
        let mut best_gap_temp: u8 = 50;
        let mut best_gap_size: u8 = 0;
        let mut i: usize = 0;
        while i + 1 < n
            invariant
                n == sorted.len(),
                n >= 1,
                i < n,
                temps_sorted(sorted@),
                sorted@[n - 1].0 <= 100,
                (best_gap_temp as int, best_gap_size as int) == widest_gap(sorted@, i as int),
            decreases n - i,
        {
            let gap = sorted[i + 1].0 - sorted[i].0;
            if gap > best_gap_size {
                best_gap_size = gap;
                best_gap_temp = sorted[i].0 + gap / 2;
            }
            i = i + 1;
        }
        if sorted[0].0 > best_gap_size {
            best_gap_temp = sorted[0].0 / 2;
            best_gap_size = sorted[0].0;
        }
        let last = sorted[n - 1].0;
        if 100 - last > best_gap_size {
            best_gap_temp = last + (100 - last) / 2;
        }
        let speed = self.interpolate_speed(best_gap_temp);
        self.curve.points.push((best_gap_temp, speed));
    }

    /// Restores the default points and clears the selection.
    pub fn reset_to_default(&mut self)
        ensures
            final(self).edited_curve().points@ == default_curve_points(),
            final(self).edited_curve().fan_id == old(self).edited_curve().fan_id,
            final(self).edited_fan() == old(self).edited_fan(),
            final(self).selected() is None,
    {
        self.curve.points = default_points();
        self.selected_point = None;
    }

    /// Sets point `idx` to `(temp, speed)`.
    pub fn set_point(&mut self, idx: usize, temp: u8, speed: u8)
        requires
            idx < old(self).edited_curve().points@.len(),
        ensures
            final(self).edited_curve().points@ == old(self).edited_curve().points@.update(idx as int, (temp, speed)),
            final(self).edited_curve().fan_id == old(self).edited_curve().fan_id,
            final(self).edited_fan() == old(self).edited_fan(),
            final(self).selected() == old(self).selected(),
    {
        self.curve.points.set(idx, (temp, speed));
    }

    /// Removes point `idx` when the curve keeps at least two points, clearing the selection
    /// when it was that point; else changes nothing.
    pub fn remove_point(&mut self, idx: usize)
        requires
            idx < old(self).edited_curve().points@.len(),
        ensures
            final(self).edited_curve().fan_id == old(self).edited_curve().fan_id,
            final(self).edited_fan() == old(self).edited_fan(),
            old(self).edited_curve().points@.len() > 2 ==> {
                &&& final(self).edited_curve().points@ == old(self).edited_curve().points@.remove(idx as int)
                &&& final(self).selected() == if old(self).selected() == Some(idx) {
                    None
                } else {
                    old(self).selected()
                }
            },
            old(self).edited_curve().points@.len() <= 2 ==> final(self).edited_curve().points@ == old(
                self,
            ).edited_curve().points@ && final(self).selected() == old(self).selected(),
    {
        if self.curve.points.len() > 2 {
            self.curve.points.remove(idx);
            if self.selected_point == Some(idx) {
                self.selected_point = None;
            }
        }
    }

    /// Removes the selected point when the curve keeps at least two points, and clears the
    /// selection then; else changes nothing.
    pub fn remove_selected(&mut self)
        ensures
            final(self).edited_fan() == old(self).edited_fan(),
            final(self).edited_curve().fan_id == old(self).edited_curve().fan_id,
            (match old(self).selected() {
                Some(idx) => if old(self).edited_curve().points@.len() > 2 && idx < old(self).edited_curve().points@.len() {
                    final(self).edited_curve().points@ == old(self).edited_curve().points@.remove(idx as int)
                        && final(self).selected() is None
                } else {
                    final(self).edited_curve().points@ == old(self).edited_curve().points@ && final(self).selected() == old(self).selected()
                },
                None => final(self).edited_curve().points@ == old(self).edited_curve().points@ && final(self).selected() is None,
            }),
    {
        if let Some(idx) = self.selected_point {
            if self.curve.points.len() > 2 && idx < self.curve.points.len() {
                self.curve.points.remove(idx);
                self.selected_point = None;
            }
        }
    }
}

} // verus!
