//! Fan curves: maps from a temperature to a duty percentage.
//!
//! Temperatures are fixed-point values in thousandths of a degree Celsius
//! (`40.0 °C` is `40_000`); Bézier control points carry both coordinates in
//! thousandths (`y` in thousandths of a percent).
use vstd::prelude::*;

use crate::config::CurveCfg;

verus! {

/// Highest duty percentage a fan accepts.
pub const MAX_DUTY: u8 = 100;

/// A control point of a Bézier curve, both coordinates in thousandths.
#[derive(Debug, Clone, Copy, PartialEq, Eq, Structural)]
pub struct Point {
    pub x: i32,
    pub y: i32,
}

impl From<(i32, i32)> for Point {
    fn from(value: (i32, i32)) -> (r: Point)
        ensures
            r == (Point { x: value.0, y: value.1 }),
    {
        Point { x: value.0, y: value.1 }
    }
}

impl vstd::std_specs::convert::FromSpecImpl<(i32, i32)> for Point {
    open spec fn obeys_from_spec() -> bool {
        true
    }

    open spec fn from_spec(v: (i32, i32)) -> Point {
        Point { x: v.0, y: v.1 }
    }
}

/// The three curve kinds.
#[derive(Debug, Clone, Copy, PartialEq, Eq, Structural)]
pub enum CurveKind {
    Constant,
    Step,
    Bezier,
}

/// A temperature-to-duty curve.
#[derive(Debug, Clone)]
pub enum FanCurve {
    Constant(u8),
    StepCurve { temps: Vec<i32>, speeds: Vec<u8> },
    BezierCurve { points: Vec<Point> },
}

/// Failures of curve lookup, update and evaluation.
#[derive(Debug, Clone, PartialEq, Eq)]
pub enum CurveError {
    UnknownCurve(String),
    IncompatibleCurveKind,
    TemperatureOutOfRange,
    BezierMustHaveFourPoints,
}

/// What a curve is: its kind and its parameters.
pub enum CurveModel {
    Constant(u8),
    Step { temps: Seq<i32>, speeds: Seq<u8> },
    Bezier { points: Seq<Point> },
}

impl View for FanCurve {
    type V = CurveModel;

    open spec fn view(&self) -> CurveModel {
        match *self {
            FanCurve::Constant(s) => CurveModel::Constant(s),
            FanCurve::StepCurve { temps, speeds } => CurveModel::Step { temps: temps@, speeds: speeds@ },
            FanCurve::BezierCurve { points } => CurveModel::Bezier { points: points@ },
        }
    }
}

impl CurveModel {
    pub open spec fn kind(self) -> CurveKind {
        match self {
            CurveModel::Constant(_) => CurveKind::Constant,
            CurveModel::Step { .. } => CurveKind::Step,
            CurveModel::Bezier { .. } => CurveKind::Bezier,
        }
    }
}

impl FanCurve {
    pub open spec fn kind_spec(&self) -> CurveKind {
        match *self {
            FanCurve::Constant(_) => CurveKind::Constant,
            FanCurve::StepCurve { .. } => CurveKind::Step,
            FanCurve::BezierCurve { .. } => CurveKind::Bezier,
        }
    }

    /// The kind of this curve.
    pub fn kind(&self) -> (r: CurveKind)
        ensures
            r == self.kind_spec(),
    {
        match self {
            FanCurve::Constant(_) => CurveKind::Constant,
            FanCurve::StepCurve { .. } => CurveKind::Step,
            FanCurve::BezierCurve { .. } => CurveKind::Bezier,
        }
    }
}

/// Two curves compare equal when they are of the same kind.
impl PartialEq for FanCurve {
    fn eq(&self, other: &FanCurve) -> (r: bool)
        ensures
            r == (self.kind_spec() == other.kind_spec()),
    {
        self.kind() == other.kind()
    }
}

impl vstd::std_specs::cmp::PartialEqSpecImpl for FanCurve {
    open spec fn obeys_eq_spec() -> bool {
        true
    }

    open spec fn eq_spec(&self, other: &FanCurve) -> bool {
        self.kind_spec() == other.kind_spec()
    }
}

pub open spec fn clamp_duty(v: int) -> int {
    if v < 0 {
        0
    } else if v > MAX_DUTY as int {
        MAX_DUTY as int
    } else {
        v
    }
}

/// Linear interpolation on `[t0, t1]` at `temp`, rounded half away from zero
/// and clamped to a duty.
pub open spec fn interpolate(t0: int, t1: int, s0: int, s1: int, temp: int) -> int {
    if t1 == t0 {
        clamp_duty(s0)
    } else {
        let den = t1 - t0;
        let num = s0 * (t1 - temp) + s1 * (temp - t0);
        clamp_duty((2 * num + den) / (2 * den))
    }
}

/// Number of consecutive intervals of a step curve.
pub open spec fn step_intervals(temps: Seq<i32>, speeds: Seq<u8>) -> int {
    let n = if temps.len() < speeds.len() { temps.len() } else { speeds.len() };
    if n == 0 { 0 } else { n - 1 }
}

/// Duty from the first interval at or after `i` that contains `temp`.
pub open spec fn step_from(temps: Seq<i32>, speeds: Seq<u8>, temp: int, i: int) -> Option<int>
    decreases step_intervals(temps, speeds) - i,
{
    if i < 0 || i >= step_intervals(temps, speeds) {
        None
    } else if temps[i] <= temp <= temps[i + 1] {
        Some(interpolate(temps[i] as int, temps[i + 1] as int, speeds[i] as int, speeds[i + 1] as int, temp))
    } else {
        step_from(temps, speeds, temp, i + 1)
    }
}

/// Duty of a step curve: the interpolation on the first interval holding `temp`.
pub open spec fn step_duty(temps: Seq<i32>, speeds: Seq<u8>, temp: int) -> Option<int> {
    step_from(temps, speeds, temp, 0)
}

proof fn lemma_interpolate_between(t0: int, t1: int, s0: int, s1: int, temp: int)
    requires
        t0 < t1,
        t0 <= temp <= t1,
        0 <= s0 <= MAX_DUTY,
        0 <= s1 <= MAX_DUTY,
    ensures
        (if s0 <= s1 { s0 } else { s1 }) <= interpolate(t0, t1, s0, s1, temp),
        interpolate(t0, t1, s0, s1, temp) <= (if s0 <= s1 { s1 } else { s0 }),
        temp == t0 ==> interpolate(t0, t1, s0, s1, temp) == s0,
        temp == t1 ==> interpolate(t0, t1, s0, s1, temp) == s1,
{
    let den = t1 - t0;
    let a = t1 - temp;
    let b = temp - t0;
    let num = s0 * a + s1 * b;
    let lo = if s0 <= s1 { s0 } else { s1 };
    let hi = if s0 <= s1 { s1 } else { s0 };
    assert(lo * den <= num <= hi * den) by (nonlinear_arith)
        requires
            a >= 0,
            b >= 0,
            a + b == den,
            lo <= s0 <= hi,
            lo <= s1 <= hi,
            num == s0 * a + s1 * b,
    ;
    let q = (2 * num + den) / (2 * den);
    assert(lo <= q <= hi) by (nonlinear_arith)
        requires
            den > 0,
            lo * den <= num <= hi * den,
            q == (2 * num + den) / (2 * den),
    ;
    if temp == t0 {
        assert(num == s0 * den) by (nonlinear_arith)
            requires
                num == s0 * a + s1 * b,
                b == 0,
                a == den,
        ;
        assert((2 * (s0 * den) + den) / (2 * den) == s0) by (nonlinear_arith)
            requires
                den > 0,
                s0 >= 0,
        ;
    }
    if temp == t1 {
        assert(num == s1 * den) by (nonlinear_arith)
            requires
                num == s0 * a + s1 * b,
                a == 0,
                b == den,
        ;
        assert((2 * (s1 * den) + den) / (2 * den) == s1) by (nonlinear_arith)
            requires
                den > 0,
                s1 >= 0,
        ;
    }
}

/// Interpolated duty on `[t0, t1]`, computed exactly in integers.
fn interpolate_exec(t0: i32, t1: i32, s0: u8, s1: u8, temp: i32) -> (r: u8)
    requires
        t0 <= temp <= t1,
    ensures
        r as int == interpolate(t0 as int, t1 as int, s0 as int, s1 as int, temp as int),
{
    if t1 == t0 {
        return if s0 > MAX_DUTY { MAX_DUTY } else { s0 };
    }
    let den: i64 = t1 as i64 - t0 as i64;
    let a: i64 = t1 as i64 - temp as i64;
    let b: i64 = temp as i64 - t0 as i64;
    assert(0 <= (s0 as i64) * a <= 255 * 0x1_0000_0000) by (nonlinear_arith)
        requires
            0 <= a <= 0x1_0000_0000,
            0 <= s0 <= 255,
    ;
    assert(0 <= (s1 as i64) * b <= 255 * 0x1_0000_0000) by (nonlinear_arith)
        requires
            0 <= b <= 0x1_0000_0000,
            0 <= s1 <= 255,
    ;
    let num: i64 = (s0 as i64) * a + (s1 as i64) * b;
    let q: i64 = (2 * num + den) / (2 * den);
    assert(q <= 2 * num + den) by (nonlinear_arith)
        requires
            den > 0,
            num >= 0,
            q == (2 * num + den) / (2 * den),
    ;
    if q > MAX_DUTY as i64 {
        MAX_DUTY
    } else {
        q as u8
    }
}

/// Evaluates a step curve: the first interval `[temps[i], temps[i+1]]` that
/// holds `temp` gives the interpolated duty; none gives `TemperatureOutOfRange`.
pub fn step_curve_speed(temps: &Vec<i32>, speeds: &Vec<u8>, temp: i32) -> (r: Result<u8, CurveError>)
    ensures
        match step_duty(temps@, speeds@, temp as int) {
            Some(d) => r == Ok::<u8, CurveError>(d as u8),
            None => r == Err::<u8, CurveError>(CurveError::TemperatureOutOfRange),
        },
{
    let n: usize = if temps.len() < speeds.len() { temps.len() } else { speeds.len() };
    let last: usize = if n == 0 { 0 } else { n - 1 };
    let mut i: usize = 0;
    while i < last
        invariant
            n as int == (if temps@.len() < speeds@.len() { temps@.len() } else { speeds@.len() }),
            last as int == step_intervals(temps@, speeds@),
            step_duty(temps@, speeds@, temp as int) == step_from(temps@, speeds@, temp as int, i as int),
        decreases last - i,
    {
        if temps[i] <= temp && temp <= temps[i + 1] {
            let d = interpolate_exec(temps[i], temps[i + 1], speeds[i], speeds[i + 1], temp);
            return Ok(d);
        }
        i = i + 1;
    }
    Err(CurveError::TemperatureOutOfRange)
}

/// Denominator of the Bézier parameter: `t` runs over `0..=T_SCALE`.
pub const T_SCALE: i64 = 65536;

/// Cube of `T_SCALE`: the scale of a Bézier coordinate computed by `bez`.
pub const T_SCALE_CUBED: i128 = 0x1_0000_0000_0000;

/// A cubic Bézier coordinate at `t / T_SCALE`, multiplied by `T_SCALE³`.
pub open spec fn bez(c0: int, c1: int, c2: int, c3: int, t: int) -> int {
    let u = T_SCALE as int - t;
    u * u * u * c0 + 3 * u * u * t * c1 + 3 * u * t * t * c2 + t * t * t * c3
}

pub open spec fn bez_x(pts: Seq<Point>, t: int) -> int {
    bez(pts[0].x as int, pts[1].x as int, pts[2].x as int, pts[3].x as int, t)
}

pub open spec fn bez_y(pts: Seq<Point>, t: int) -> int {
    bez(pts[0].y as int, pts[1].y as int, pts[2].y as int, pts[3].y as int, t)
}

/// Whether `B(t).x` is within a thousandth of a unit of `temp`.
pub open spec fn close_enough(pts: Seq<Point>, temp: int, t: int) -> bool {
    let d = bez_x(pts, t) - temp * T_SCALE_CUBED as int;
    -(T_SCALE_CUBED as int) < 1000 * d < T_SCALE_CUBED as int
}

/// The parameter a bisection over `[lo, hi]` settles on within `k` steps,
/// `mid` being the last midpoint taken.
pub open spec fn search_t(pts: Seq<Point>, temp: int, lo: int, hi: int, mid: int, k: nat) -> int
    decreases k,
{
    if k == 0 {
        mid
    } else {
        let m = (lo + hi) / 2;
        if close_enough(pts, temp, m) {
            m
        } else if bez_x(pts, m) < temp * T_SCALE_CUBED as int {
            search_t(pts, temp, m, hi, m, (k - 1) as nat)
        } else {
            search_t(pts, temp, lo, m, m, (k - 1) as nat)
        }
    }
}

/// Bisection steps the Bézier search takes at most.
pub const MAX_ITERATIONS: usize = 100;

/// `y` in thousandths at the parameter the search settles on, rounded down.
pub open spec fn bezier_y(pts: Seq<Point>, temp: int) -> int {
    bez_y(pts, search_t(pts, temp, 0, T_SCALE as int, 0, MAX_ITERATIONS as nat)) / T_SCALE_CUBED as int
}

/// Duty of a Bézier curve: its `y` clamped to `0..=100` percent, truncated.
pub open spec fn bezier_duty(pts: Seq<Point>, temp: int) -> int {
    let y = bezier_y(pts, temp);
    if y <= 0 {
        0
    } else if y >= 100_000 {
        MAX_DUTY as int
    } else {
        y / 1000
    }
}

proof fn lemma_bez_bound(c0: int, c1: int, c2: int, c3: int, t: int)
    requires
        0 <= t <= T_SCALE,
        -0x8000_0000 <= c0 < 0x8000_0000,
        -0x8000_0000 <= c1 < 0x8000_0000,
        -0x8000_0000 <= c2 < 0x8000_0000,
        -0x8000_0000 <= c3 < 0x8000_0000,
    ensures
        -0x10_0000_0000_0000_0000_0000 <= bez(c0, c1, c2, c3, t) <= 0x10_0000_0000_0000_0000_0000,
{
    let s = T_SCALE as int;
    let u = s - t;
    let m: int = 0x8000_0000;
    let cube: int = 0x1_0000_0000_0000;
    assert(0 <= u * u * u <= cube) by (nonlinear_arith)
        requires 0 <= u <= s, s == 65536, cube == s * s * s;
    assert(0 <= u * u * t <= cube) by (nonlinear_arith)
        requires 0 <= u <= s, 0 <= t <= s, s == 65536, cube == s * s * s;
    assert(0 <= u * t * t <= cube) by (nonlinear_arith)
        requires 0 <= u <= s, 0 <= t <= s, s == 65536, cube == s * s * s;
    assert(0 <= t * t * t <= cube) by (nonlinear_arith)
        requires 0 <= t <= s, s == 65536, cube == s * s * s;
    assert(-cube * m <= u * u * u * c0 <= cube * m) by (nonlinear_arith)
        requires 0 <= u * u * u <= cube, -m <= c0 <= m;
    assert(-3 * cube * m <= 3 * u * u * t * c1 <= 3 * cube * m) by (nonlinear_arith)
        requires 0 <= u * u * t <= cube, -m <= c1 <= m;
    assert(-3 * cube * m <= 3 * u * t * t * c2 <= 3 * cube * m) by (nonlinear_arith)
        requires 0 <= u * t * t <= cube, -m <= c2 <= m;
    assert(-cube * m <= t * t * t * c3 <= cube * m) by (nonlinear_arith)
        requires 0 <= t * t * t <= cube, -m <= c3 <= m;
}

/// A Bézier coordinate at `t / T_SCALE`, scaled by `T_SCALE³`.
fn bez_exec(c0: i32, c1: i32, c2: i32, c3: i32, t: i64) -> (r: i128)
    requires
        0 <= t <= T_SCALE,
    ensures
        r as int == bez(c0 as int, c1 as int, c2 as int, c3 as int, t as int),
{
    proof {
        lemma_bez_bound(c0 as int, c1 as int, c2 as int, c3 as int, t as int);
    }
    let u: i128 = (T_SCALE - t) as i128;
    let t: i128 = t as i128;
    let ghost cube: int = 0x1_0000_0000_0000;
    let ghost m: int = 0x8000_0000;
    assert(0 <= u * u <= 0x1_0000_0000 && 0 <= u * u * u <= cube) by (nonlinear_arith)
        requires 0 <= u <= 65536, cube == 65536 * 65536 * 65536;
    assert(0 <= u * u * t <= cube && 0 <= u * t <= 0x1_0000_0000) by (nonlinear_arith)
        requires 0 <= u <= 65536, 0 <= t <= 65536, cube == 65536 * 65536 * 65536;
    assert(0 <= u * t * t <= cube && 0 <= t * t <= 0x1_0000_0000) by (nonlinear_arith)
        requires 0 <= u <= 65536, 0 <= t <= 65536, cube == 65536 * 65536 * 65536;
    assert(0 <= t * t * t <= cube) by (nonlinear_arith)
        requires 0 <= t <= 65536, cube == 65536 * 65536 * 65536;
    assert(-cube * m <= u * u * u * c0 <= cube * m) by (nonlinear_arith)
        requires 0 <= u * u * u <= cube, -m <= c0 <= m;
    assert(-cube * m <= u * u * t * c1 <= cube * m) by (nonlinear_arith)
        requires 0 <= u * u * t <= cube, -m <= c1 <= m;
    assert(-cube * m <= u * t * t * c2 <= cube * m) by (nonlinear_arith)
        requires 0 <= u * t * t <= cube, -m <= c2 <= m;
    assert(-cube * m <= t * t * t * c3 <= cube * m) by (nonlinear_arith)
        requires 0 <= t * t * t <= cube, -m <= c3 <= m;
    let a: i128 = u * u * u * (c0 as i128);
    let b: i128 = u * u * t * (c1 as i128);
    let c: i128 = u * t * t * (c2 as i128);
    let d: i128 = t * t * t * (c3 as i128);
    assert(3 * u * u * t * c1 == 3 * b) by (nonlinear_arith)
        requires b == u * u * t * c1;
    assert(3 * u * t * t * c2 == 3 * c) by (nonlinear_arith)
        requires c == u * t * t * c2;
    a + 3 * b + 3 * c + d
}


/// `v / T_SCALE³` rounded down, for a `v` of the size `bez` produces.
fn floor_div_cube(v: i128) -> (r: i64)
    requires
        -0x10_0000_0000_0000_0000_0000 <= v <= 0x10_0000_0000_0000_0000_0000,
    ensures
        r as int == v as int / T_SCALE_CUBED as int,
{
    let d: i128 = T_SCALE_CUBED;
    let k: i128 = 0x100_0000_0000;
    assert(k * d == 0x100_0000_0000_0000_0000_0000) by (nonlinear_arith)
        requires k == 0x100_0000_0000, d == 0x1_0000_0000_0000;
    let w: i128 = v + k * d;
    let q: i128 = w / d;
    let rem: i128 = w % d;
    proof {
        vstd::arithmetic::div_mod::lemma_fundamental_div_mod(w as int, d as int);
        assert(v as int == (q - k) * d + rem) by (nonlinear_arith)
            requires
                w == d * q + rem,
                w == v + k * d,
        ;
        vstd::arithmetic::div_mod::lemma_fundamental_div_mod_converse(v as int, d as int, (q - k) as int, rem as int);
        assert(0 <= q <= 0x200_0000_0000) by (nonlinear_arith)
            requires
                w == d * q + rem,
                0 <= rem < d,
                0 <= w <= 0x200_0000_0000_0000_0000_0000,
                d == 0x1_0000_0000_0000,
        ;
    }
    (q - k) as i64
}

/// The parameter the bisection for `temp` settles on.
fn search_bezier_t(pts: &[Point], temp: i32) -> (r: i64)
    requires
        pts@.len() >= 4,
    ensures
        r as int == search_t(pts@, temp as int, 0, T_SCALE as int, 0, MAX_ITERATIONS as nat),
        0 <= r <= T_SCALE,
{
    let target: i128 = (temp as i128) * T_SCALE_CUBED;
    let mut lo: i64 = 0;
    let mut hi: i64 = T_SCALE;
    let mut mid: i64 = 0;
    let mut k: usize = 0;
    while k < MAX_ITERATIONS
        invariant
            k <= MAX_ITERATIONS,
            pts@.len() >= 4,
            0 <= lo <= hi <= T_SCALE,
            0 <= mid <= T_SCALE,
            target == temp * T_SCALE_CUBED,
            search_t(pts@, temp as int, 0, T_SCALE as int, 0, MAX_ITERATIONS as nat)
                == search_t(pts@, temp as int, lo as int, hi as int, mid as int, (MAX_ITERATIONS - k) as nat),
        decreases MAX_ITERATIONS - k,
    {
        mid = (lo + hi) / 2;
        let x = bez_exec(pts[0].x, pts[1].x, pts[2].x, pts[3].x, mid);
        proof {
            lemma_bez_bound(pts[0].x as int, pts[1].x as int, pts[2].x as int, pts[3].x as int, mid as int);
        }
        let diff: i128 = x - target;
        if -T_SCALE_CUBED < 1000 * diff && 1000 * diff < T_SCALE_CUBED {
            return mid;
        }
        if x < target {
            lo = mid;
        } else {
            hi = mid;
        }
        k = k + 1;
    }
    mid
}

/// The `y` coordinate, in thousandths and rounded down, of a Bézier curve at
/// `x == temp`, found by bisection over the curve parameter.
pub fn get_speed_for_temp(pts: &[Point], temp: i32) -> (r: i64)
    requires
        pts@.len() >= 4,
    ensures
        r as int == bezier_y(pts@, temp as int),
{
    let t = search_bezier_t(pts, temp);
    let y = bez_exec(pts[0].y, pts[1].y, pts[2].y, pts[3].y, t);
    proof {
        lemma_bez_bound(pts[0].y as int, pts[1].y as int, pts[2].y as int, pts[3].y as int, t as int);
    }
    floor_div_cube(y)
}

/// Duty of a Bézier curve with four control points at `temp`.
pub fn bezier_speed(pts: &[Point], temp: i32) -> (r: u8)
    requires
        pts@.len() >= 4,
    ensures
        r as int == bezier_duty(pts@, temp as int),
        r <= MAX_DUTY,
{
    let y = get_speed_for_temp(pts, temp);
    if y <= 0 {
        0
    } else if y >= 100_000 {
        MAX_DUTY
    } else {
        (y / 1000) as u8
    }
}


/// Result of evaluating a curve at `temp`.
pub open spec fn curve_duty(c: CurveModel, temp: int) -> Result<u8, CurveError> {
    match c {
        CurveModel::Constant(s) => Ok(s),
        CurveModel::Step { temps, speeds } => match step_duty(temps, speeds, temp) {
            Some(d) => Ok(d as u8),
            None => Err(CurveError::TemperatureOutOfRange),
        },
        CurveModel::Bezier { points } => if points.len() != 4 {
            Err(CurveError::BezierMustHaveFourPoints)
        } else {
            Ok(bezier_duty(points, temp) as u8)
        },
    }
}

impl FanCurve {
    /// Duty percentage for `temp` (thousandths of a degree Celsius).
    pub fn evaluate(&self, temp: i32) -> (r: Result<u8, CurveError>)
        ensures
            r == curve_duty(self@, temp as int),
    {
        match self {
            FanCurve::Constant(s) => Ok(*s),
            FanCurve::StepCurve { temps, speeds } => step_curve_speed(temps, speeds, temp),
            FanCurve::BezierCurve { points } => {
                if points.len() != 4 {
                    Err(CurveError::BezierMustHaveFourPoints)
                } else {
                    Ok(bezier_speed(points.as_slice(), temp))
                }
            },
        }
    }

    /// A copy of this curve with the same parameters.
    pub fn duplicate(&self) -> (r: FanCurve)
        ensures
            r@ == self@,
    {
        match self {
            FanCurve::Constant(s) => FanCurve::Constant(*s),
            FanCurve::StepCurve { temps, speeds } => {
                let t = temps.clone();
                let s = speeds.clone();
                assert(t@ =~= temps@);
                assert(s@ =~= speeds@);
                FanCurve::StepCurve { temps: t, speeds: s }
            },
            FanCurve::BezierCurve { points } => {
                let p = points.clone();
                assert(p@ =~= points@);
                FanCurve::BezierCurve { points: p }
            },
        }
    }
}

/// A constant curve gives its speed at every temperature.
pub proof fn lemma_constant_curve(speed: u8, temp: int)
    ensures
        curve_duty(CurveModel::Constant(speed), temp) == Ok::<u8, CurveError>(speed),
{
}

/// A Bézier curve of four points gives a duty within `0..=100`.
pub proof fn lemma_bezier_duty_in_range(points: Seq<Point>, temp: int)
    requires
        points.len() == 4,
    ensures
        curve_duty(CurveModel::Bezier { points }, temp) is Ok,
        curve_duty(CurveModel::Bezier { points }, temp)->Ok_0 <= MAX_DUTY,
{
    let y = bezier_y(points, temp);
    if 0 < y < 100_000 {
        assert(y / 1000 < 100);
    }
}

pub open spec fn strictly_ascending(s: Seq<i32>) -> bool {
    forall|a: int, b: int| 0 <= a < b < s.len() ==> s[a] < s[b]
}

pub open spec fn interval_holds(temps: Seq<i32>, i: int, temp: int) -> bool {
    temps[i] <= temp <= temps[i + 1]
}

/// Finds the first interval at or after `i` that holds `temp`.
proof fn lemma_step_from_found(temps: Seq<i32>, speeds: Seq<u8>, temp: int, i: int) -> (j: int)
    requires
        temps.len() == speeds.len(),
        temps.len() >= 2,
        0 <= i < temps.len() - 1,
        temps[i] <= temp <= temps[temps.len() - 1],
    ensures
        i <= j < temps.len() - 1,
        interval_holds(temps, j, temp),
        forall|m: int| i <= m < j ==> !interval_holds(temps, m, temp),
        step_from(temps, speeds, temp, i) == Some(
            interpolate(temps[j] as int, temps[j + 1] as int, speeds[j] as int, speeds[j + 1] as int, temp),
        ),
    decreases temps.len() - i,
{
    if interval_holds(temps, i, temp) {
        i
    } else {
        lemma_step_from_found(temps, speeds, temp, i + 1)
    }
}

/// On a valid step curve, every temperature between the first and last
/// breakpoint has a duty between the least and the greatest speed, and a
/// breakpoint's temperature gives exactly that breakpoint's speed.
pub proof fn lemma_step_curve_duty(temps: Seq<i32>, speeds: Seq<u8>, temp: int)
    requires
        temps.len() == speeds.len(),
        temps.len() >= 2,
        strictly_ascending(temps),
        forall|k: int| 0 <= k < speeds.len() ==> speeds[k] <= MAX_DUTY,
        temps[0] <= temp <= temps[temps.len() - 1],
    ensures
        curve_duty(CurveModel::Step { temps, speeds }, temp) is Ok,
        exists|a: int, b: int|
            #![trigger speeds[a], speeds[b]]
            0 <= a < speeds.len() && 0 <= b < speeds.len() && speeds[a] <= curve_duty(
                CurveModel::Step { temps, speeds },
                temp,
            )->Ok_0 <= speeds[b],
        forall|k: int|
            0 <= k < temps.len() && temp == temps[k] ==> curve_duty(
                CurveModel::Step { temps, speeds },
                temp,
            ) == Ok::<u8, CurveError>(speeds[k]),
{
    let j = lemma_step_from_found(temps, speeds, temp, 0);
    let (t0, t1, s0, s1) = (temps[j] as int, temps[j + 1] as int, speeds[j] as int, speeds[j + 1] as int);
    assert(t0 < t1);
    lemma_interpolate_between(t0, t1, s0, s1, temp);
    let d = interpolate(t0, t1, s0, s1, temp);
    if s0 <= s1 {
        assert(speeds[j] <= d as u8 <= speeds[j + 1]);
    } else {
        assert(speeds[j + 1] <= d as u8 <= speeds[j]);
    }
    assert forall|k: int| 0 <= k < temps.len() && temp == temps[k] implies curve_duty(
        CurveModel::Step { temps, speeds },
        temp,
    ) == Ok::<u8, CurveError>(speeds[k]) by {
        if k == 0 {
            assert(interval_holds(temps, 0, temp));
            assert(j == 0);
        } else {
            assert(interval_holds(temps, k - 1, temp));
            if j < k - 1 {
                assert(temps[j + 1] < temps[k]);
            }
            assert(j == k - 1);
        }
    }
}


/// What a curve entry of the configuration describes.
pub open spec fn cfg_model(c: CurveCfg) -> CurveModel {
    match c {
        CurveCfg::Constant { speed, .. } => CurveModel::Constant(speed),
        CurveCfg::StepCurve { tmps, spds, .. } => CurveModel::Step { temps: tmps@, speeds: spds@ },
        CurveCfg::Bezier { points, .. } => CurveModel::Bezier { points: points@ },
    }
}

impl FanCurve {
    /// The curve a configuration entry describes.
    pub fn from_cfg(curve_cfg: &CurveCfg) -> (r: FanCurve)
        ensures
            r@ == cfg_model(*curve_cfg),
            r.kind_spec() == curve_cfg.kind_spec(),
    {
        match curve_cfg {
            CurveCfg::Constant { speed, .. } => FanCurve::Constant(*speed),
            CurveCfg::StepCurve { tmps, spds, .. } => {
                let temps = tmps.clone();
                let speeds = spds.clone();
                assert(temps@ =~= tmps@);
                assert(speeds@ =~= spds@);
                FanCurve::StepCurve { temps, speeds }
            },
            CurveCfg::Bezier { points, .. } => {
                let p = points.clone();
                assert(p@ =~= points@);
                FanCurve::BezierCurve { points: p }
            },
        }
    }
}

impl<'a> From<&'a CurveCfg> for FanCurve {
    fn from(curve_cfg: &'a CurveCfg) -> (r: FanCurve)
        ensures
            r@ == cfg_model(*curve_cfg),
    {
        FanCurve::from_cfg(curve_cfg)
    }
}

impl<'a> vstd::std_specs::convert::FromSpecImpl<&'a CurveCfg> for FanCurve {
    open spec fn obeys_from_spec() -> bool {
        false
    }

    open spec fn from_spec(v: &'a CurveCfg) -> FanCurve {
        match *v {
            CurveCfg::Constant { speed, .. } => FanCurve::Constant(speed),
            CurveCfg::StepCurve { tmps, spds, .. } => FanCurve::StepCurve { temps: tmps, speeds: spds },
            CurveCfg::Bezier { points, .. } => FanCurve::BezierCurve { points },
        }
    }
}

/// A curve built from a configuration entry is of the entry's kind.
pub proof fn lemma_from_cfg_keeps_kind(c: CurveCfg)
    ensures
        cfg_model(c).kind() == c.kind_spec(),
{
}

} // verus!
