//! Dead-reckoned navigation arithmetic.
//!
//! The vehicle is piloted by relative moves and whole-degree rotations, so
//! the client can track its pose exactly in integers: positions in
//! millimeters, headings in degrees in `[0, 360)`.  Heading `0` is the `+Y`
//! axis and headings grow clockwise toward `+X`.  Trigonometry is done in
//! fixed point: sines and cosines scaled by `10000`, and a midpoint-tangent
//! table that rounds a bearing to its nearest whole degree.  The camera can
//! then be aimed at (or away from) a reference point with pure integer
//! comparisons, and every formula here carries a proof.

use vstd::prelude::*;

use vstd::arithmetic::div_mod::{
    lemma_div_by_multiple, lemma_div_is_ordered, lemma_div_pos_is_pos, lemma_fundamental_div_mod,
};

verus! {

/// A relative movement direction of the wire protocol.
#[derive(Clone, Copy, PartialEq, Eq, Structural, Debug)]
pub enum Direction {
    Forward,
    Back,
    Left,
    Right,
    Up,
    Down,
}

/// Sine of `d` degrees scaled by 10000, for `d` in `[0, 90]`.
pub open spec fn qsin(d: int) -> int {
    if d == 0 {
        0
    } else if d == 1 {
        175
    } else if d == 2 {
        349
    } else if d == 3 {
        523
    } else if d == 4 {
        698
    } else if d == 5 {
        872
    } else if d == 6 {
        1045
    } else if d == 7 {
        1219
    } else if d == 8 {
        1392
    } else if d == 9 {
        1564
    } else if d == 10 {
        1736
    } else if d == 11 {
        1908
    } else if d == 12 {
        2079
    } else if d == 13 {
        2250
    } else if d == 14 {
        2419
    } else if d == 15 {
        2588
    } else if d == 16 {
        2756
    } else if d == 17 {
        2924
    } else if d == 18 {
        3090
    } else if d == 19 {
        3256
    } else if d == 20 {
        3420
    } else if d == 21 {
        3584
    } else if d == 22 {
        3746
    } else if d == 23 {
        3907
    } else if d == 24 {
        4067
    } else if d == 25 {
        4226
    } else if d == 26 {
        4384
    } else if d == 27 {
        4540
    } else if d == 28 {
        4695
    } else if d == 29 {
        4848
    } else if d == 30 {
        5000
    } else if d == 31 {
        5150
    } else if d == 32 {
        5299
    } else if d == 33 {
        5446
    } else if d == 34 {
        5592
    } else if d == 35 {
        5736
    } else if d == 36 {
        5878
    } else if d == 37 {
        6018
    } else if d == 38 {
        6157
    } else if d == 39 {
        6293
    } else if d == 40 {
        6428
    } else if d == 41 {
        6561
    } else if d == 42 {
        6691
    } else if d == 43 {
        6820
    } else if d == 44 {
        6947
    } else if d == 45 {
        7071
    } else if d == 46 {
        7193
    } else if d == 47 {
        7314
    } else if d == 48 {
        7431
    } else if d == 49 {
        7547
    } else if d == 50 {
        7660
    } else if d == 51 {
        7771
    } else if d == 52 {
        7880
    } else if d == 53 {
        7986
    } else if d == 54 {
        8090
    } else if d == 55 {
        8192
    } else if d == 56 {
        8290
    } else if d == 57 {
        8387
    } else if d == 58 {
        8480
    } else if d == 59 {
        8572
    } else if d == 60 {
        8660
    } else if d == 61 {
        8746
    } else if d == 62 {
        8829
    } else if d == 63 {
        8910
    } else if d == 64 {
        8988
    } else if d == 65 {
        9063
    } else if d == 66 {
        9135
    } else if d == 67 {
        9205
    } else if d == 68 {
        9272
    } else if d == 69 {
        9336
    } else if d == 70 {
        9397
    } else if d == 71 {
        9455
    } else if d == 72 {
        9511
    } else if d == 73 {
        9563
    } else if d == 74 {
        9613
    } else if d == 75 {
        9659
    } else if d == 76 {
        9703
    } else if d == 77 {
        9744
    } else if d == 78 {
        9781
    } else if d == 79 {
        9816
    } else if d == 80 {
        9848
    } else if d == 81 {
        9877
    } else if d == 82 {
        9903
    } else if d == 83 {
        9925
    } else if d == 84 {
        9945
    } else if d == 85 {
        9962
    } else if d == 86 {
        9976
    } else if d == 87 {
        9986
    } else if d == 88 {
        9994
    } else if d == 89 {
        9998
    } else {
        10000
    }
}

/// Executable quarter-wave sine table; agrees with [`qsin`].
fn sin_quarter(d: u16) -> (s: i64)
    requires
        d <= 90,
    ensures
        s == qsin(d as int),
        0 <= s <= 10000,
{
    if d == 0 {
        0
    } else if d == 1 {
        175
    } else if d == 2 {
        349
    } else if d == 3 {
        523
    } else if d == 4 {
        698
    } else if d == 5 {
        872
    } else if d == 6 {
        1045
    } else if d == 7 {
        1219
    } else if d == 8 {
        1392
    } else if d == 9 {
        1564
    } else if d == 10 {
        1736
    } else if d == 11 {
        1908
    } else if d == 12 {
        2079
    } else if d == 13 {
        2250
    } else if d == 14 {
        2419
    } else if d == 15 {
        2588
    } else if d == 16 {
        2756
    } else if d == 17 {
        2924
    } else if d == 18 {
        3090
    } else if d == 19 {
        3256
    } else if d == 20 {
        3420
    } else if d == 21 {
        3584
    } else if d == 22 {
        3746
    } else if d == 23 {
        3907
    } else if d == 24 {
        4067
    } else if d == 25 {
        4226
    } else if d == 26 {
        4384
    } else if d == 27 {
        4540
    } else if d == 28 {
        4695
    } else if d == 29 {
        4848
    } else if d == 30 {
        5000
    } else if d == 31 {
        5150
    } else if d == 32 {
        5299
    } else if d == 33 {
        5446
    } else if d == 34 {
        5592
    } else if d == 35 {
        5736
    } else if d == 36 {
        5878
    } else if d == 37 {
        6018
    } else if d == 38 {
        6157
    } else if d == 39 {
        6293
    } else if d == 40 {
        6428
    } else if d == 41 {
        6561
    } else if d == 42 {
        6691
    } else if d == 43 {
        6820
    } else if d == 44 {
        6947
    } else if d == 45 {
        7071
    } else if d == 46 {
        7193
    } else if d == 47 {
        7314
    } else if d == 48 {
        7431
    } else if d == 49 {
        7547
    } else if d == 50 {
        7660
    } else if d == 51 {
        7771
    } else if d == 52 {
        7880
    } else if d == 53 {
        7986
    } else if d == 54 {
        8090
    } else if d == 55 {
        8192
    } else if d == 56 {
        8290
    } else if d == 57 {
        8387
    } else if d == 58 {
        8480
    } else if d == 59 {
        8572
    } else if d == 60 {
        8660
    } else if d == 61 {
        8746
    } else if d == 62 {
        8829
    } else if d == 63 {
        8910
    } else if d == 64 {
        8988
    } else if d == 65 {
        9063
    } else if d == 66 {
        9135
    } else if d == 67 {
        9205
    } else if d == 68 {
        9272
    } else if d == 69 {
        9336
    } else if d == 70 {
        9397
    } else if d == 71 {
        9455
    } else if d == 72 {
        9511
    } else if d == 73 {
        9563
    } else if d == 74 {
        9613
    } else if d == 75 {
        9659
    } else if d == 76 {
        9703
    } else if d == 77 {
        9744
    } else if d == 78 {
        9781
    } else if d == 79 {
        9816
    } else if d == 80 {
        9848
    } else if d == 81 {
        9877
    } else if d == 82 {
        9903
    } else if d == 83 {
        9925
    } else if d == 84 {
        9945
    } else if d == 85 {
        9962
    } else if d == 86 {
        9976
    } else if d == 87 {
        9986
    } else if d == 88 {
        9994
    } else if d == 89 {
        9998
    } else {
        10000
    }
}

/// Tangent of `d + 1/2` degrees scaled by 100000, for `d` in `[0, 45)`.
///
/// Comparing `dy/dx` against these midpoint tangents rounds an angle in the
/// first octant to its nearest whole degree.
pub open spec fn tan_half(d: int) -> int {
    if d == 0 {
        873
    } else if d == 1 {
        2619
    } else if d == 2 {
        4366
    } else if d == 3 {
        6116
    } else if d == 4 {
        7870
    } else if d == 5 {
        9629
    } else if d == 6 {
        11394
    } else if d == 7 {
        13165
    } else if d == 8 {
        14945
    } else if d == 9 {
        16734
    } else if d == 10 {
        18534
    } else if d == 11 {
        20345
    } else if d == 12 {
        22169
    } else if d == 13 {
        24008
    } else if d == 14 {
        25862
    } else if d == 15 {
        27732
    } else if d == 16 {
        29621
    } else if d == 17 {
        31530
    } else if d == 18 {
        33460
    } else if d == 19 {
        35412
    } else if d == 20 {
        37388
    } else if d == 21 {
        39391
    } else if d == 22 {
        41421
    } else if d == 23 {
        43481
    } else if d == 24 {
        45573
    } else if d == 25 {
        47698
    } else if d == 26 {
        49858
    } else if d == 27 {
        52057
    } else if d == 28 {
        54296
    } else if d == 29 {
        56577
    } else if d == 30 {
        58905
    } else if d == 31 {
        61280
    } else if d == 32 {
        63707
    } else if d == 33 {
        66189
    } else if d == 34 {
        68728
    } else if d == 35 {
        71329
    } else if d == 36 {
        73996
    } else if d == 37 {
        76733
    } else if d == 38 {
        79544
    } else if d == 39 {
        82434
    } else if d == 40 {
        85408
    } else if d == 41 {
        88473
    } else if d == 42 {
        91633
    } else if d == 43 {
        94896
    } else {
        98270
    }
}

/// Executable midpoint-tangent table; agrees with [`tan_half`].
fn tan_half_scaled(d: u16) -> (t: i64)
    requires
        d < 45,
    ensures
        t == tan_half(d as int),
        0 < t <= 100000,
{
    if d == 0 {
        873
    } else if d == 1 {
        2619
    } else if d == 2 {
        4366
    } else if d == 3 {
        6116
    } else if d == 4 {
        7870
    } else if d == 5 {
        9629
    } else if d == 6 {
        11394
    } else if d == 7 {
        13165
    } else if d == 8 {
        14945
    } else if d == 9 {
        16734
    } else if d == 10 {
        18534
    } else if d == 11 {
        20345
    } else if d == 12 {
        22169
    } else if d == 13 {
        24008
    } else if d == 14 {
        25862
    } else if d == 15 {
        27732
    } else if d == 16 {
        29621
    } else if d == 17 {
        31530
    } else if d == 18 {
        33460
    } else if d == 19 {
        35412
    } else if d == 20 {
        37388
    } else if d == 21 {
        39391
    } else if d == 22 {
        41421
    } else if d == 23 {
        43481
    } else if d == 24 {
        45573
    } else if d == 25 {
        47698
    } else if d == 26 {
        49858
    } else if d == 27 {
        52057
    } else if d == 28 {
        54296
    } else if d == 29 {
        56577
    } else if d == 30 {
        58905
    } else if d == 31 {
        61280
    } else if d == 32 {
        63707
    } else if d == 33 {
        66189
    } else if d == 34 {
        68728
    } else if d == 35 {
        71329
    } else if d == 36 {
        73996
    } else if d == 37 {
        76733
    } else if d == 38 {
        79544
    } else if d == 39 {
        82434
    } else if d == 40 {
        85408
    } else if d == 41 {
        88473
    } else if d == 42 {
        91633
    } else if d == 43 {
        94896
    } else {
        98270
    }
}

// ---------------------------------------------------------------------------
// Full-circle sine and cosine
// ---------------------------------------------------------------------------

/// Sine of `h` degrees scaled by 10000, for `h` in `[0, 360)`.
pub open spec fn sin_scaled(h: int) -> int {
    if h <= 90 {
        qsin(h)
    } else if h <= 180 {
        qsin(180 - h)
    } else if h <= 270 {
        -qsin(h - 180)
    } else {
        -qsin(360 - h)
    }
}

/// Cosine of `h` degrees scaled by 10000, for `h` in `[0, 360)`.
pub open spec fn cos_scaled(h: int) -> int {
    if h <= 90 {
        qsin(90 - h)
    } else if h <= 180 {
        -qsin(h - 90)
    } else if h <= 270 {
        -qsin(270 - h)
    } else {
        qsin(h - 270)
    }
}

/// Scaled sine of a heading.
pub fn sin_of_heading(h: u16) -> (s: i64)
    requires
        h < 360,
    ensures
        s == sin_scaled(h as int),
        -10000 <= s <= 10000,
{
    if h <= 90 {
        sin_quarter(h)
    } else if h <= 180 {
        sin_quarter(180 - h)
    } else if h <= 270 {
        -sin_quarter(h - 180)
    } else {
        -sin_quarter(360 - h)
    }
}

/// Scaled cosine of a heading.
pub fn cos_of_heading(h: u16) -> (c: i64)
    requires
        h < 360,
    ensures
        c == cos_scaled(h as int),
        -10000 <= c <= 10000,
{
    if h <= 90 {
        sin_quarter(90 - h)
    } else if h <= 180 {
        -sin_quarter(h - 90)
    } else if h <= 270 {
        -sin_quarter(270 - h)
    } else {
        sin_quarter(h - 270)
    }
}

// ---------------------------------------------------------------------------
// Relative moves
// ---------------------------------------------------------------------------

/// A distance times a scaled trigonometric factor, reduced back to
/// millimeters.  The magnitude is computed on non-negative values and the
/// sign reapplied, so the rounding always truncates toward zero.
pub open spec fn scaled_by_trig(d_mm: int, t: int) -> int {
    if t >= 0 {
        (d_mm * t) / 10000
    } else {
        -((d_mm * (-t)) / 10000)
    }
}

/// The heading along which a planar move travels: `Left` and `Right` are
/// perpendicular to the current heading, `Forward` and `Back` are along it.
pub open spec fn lateral_heading(h: int, dir: Direction) -> int {
    match dir {
        Direction::Left => (h + 270) % 360,
        Direction::Right => (h + 90) % 360,
        _ => h,
    }
}

/// `Back` moves against the travel heading; every other planar move follows it.
pub open spec fn planar_sign(dir: Direction) -> int {
    match dir {
        Direction::Back => -1,
        _ => 1,
    }
}

/// Change of the `x` coordinate (millimeters) for a move of `d_mm` in `dir`
/// at heading `h`.
pub open spec fn delta_x(h: int, dir: Direction, d_mm: int) -> int {
    match dir {
        Direction::Up => 0,
        Direction::Down => 0,
        _ => planar_sign(dir) * scaled_by_trig(d_mm, sin_scaled(lateral_heading(h, dir))),
    }
}

/// Change of the `y` coordinate (millimeters).
pub open spec fn delta_y(h: int, dir: Direction, d_mm: int) -> int {
    match dir {
        Direction::Up => 0,
        Direction::Down => 0,
        _ => planar_sign(dir) * scaled_by_trig(d_mm, cos_scaled(lateral_heading(h, dir))),
    }
}

/// Change of the `z` coordinate (millimeters).
pub open spec fn delta_z(dir: Direction, d_mm: int) -> int {
    match dir {
        Direction::Up => d_mm,
        Direction::Down => -d_mm,
        _ => 0,
    }
}

/// Multiply a distance by a scaled trigonometric factor and reduce.
fn scaled_product(d_mm: i64, t: i64) -> (r: i64)
    requires
        0 <= d_mm <= 10_000_000,
        -10000 <= t <= 10000,
    ensures
        r == scaled_by_trig(d_mm as int, t as int),
        -d_mm <= r <= d_mm,
{
    if t >= 0 {
        proof {
            assert(0 <= d_mm * t <= d_mm * 10000) by (nonlinear_arith)
                requires
                    0 <= d_mm,
                    0 <= t <= 10000,
            ;
            assert(d_mm * 10000 <= 100_000_000_000) by (nonlinear_arith)
                requires
                    0 <= d_mm <= 10_000_000,
            ;
            lemma_div_pos_is_pos(d_mm * t, 10000);
            lemma_div_is_ordered(d_mm * t, d_mm * 10000, 10000);
            lemma_div_by_multiple(d_mm as int, 10000);
        }
        (d_mm * t) / 10000
    } else {
        let u = -t;
        proof {
            assert(0 <= d_mm * u <= d_mm * 10000) by (nonlinear_arith)
                requires
                    0 <= d_mm,
                    0 <= u <= 10000,
            ;
            assert(d_mm * 10000 <= 100_000_000_000) by (nonlinear_arith)
                requires
                    0 <= d_mm <= 10_000_000,
            ;
            lemma_div_pos_is_pos(d_mm * u, 10000);
            lemma_div_is_ordered(d_mm * u, d_mm * 10000, 10000);
            lemma_div_by_multiple(d_mm as int, 10000);
        }
        -((d_mm * u) / 10000)
    }
}

/// The exact coordinate changes, in millimeters, of a relative move.
pub fn move_offsets(heading: u16, dir: Direction, distance_cm: i32) -> (r: (i64, i64, i64))
    requires
        heading < 360,
        0 < distance_cm <= 500,
    ensures
        r.0 == delta_x(heading as int, dir, 10 * distance_cm),
        r.1 == delta_y(heading as int, dir, 10 * distance_cm),
        r.2 == delta_z(dir, 10 * distance_cm),
        -5000 <= r.0 <= 5000,
        -5000 <= r.1 <= 5000,
        -5000 <= r.2 <= 5000,
{
    let d_mm: i64 = (distance_cm as i64) * 10;
    match dir {
        Direction::Up => (0, 0, d_mm),
        Direction::Down => (0, 0, -d_mm),
        _ => {
            let hl: u16 = match dir {
                Direction::Left => (heading + 270) % 360,
                Direction::Right => (heading + 90) % 360,
                _ => heading,
            };
            let s = sin_of_heading(hl);
            let c = cos_of_heading(hl);
            let px = scaled_product(d_mm, s);
            let py = scaled_product(d_mm, c);
            match dir {
                Direction::Back => (-px, -py, 0),
                _ => (px, py, 0),
            }
        },
    }
}

// ---------------------------------------------------------------------------
// Rotations
// ---------------------------------------------------------------------------

/// Heading after a clockwise rotation of `deg` degrees.
pub open spec fn rotated_cw(h: int, deg: int) -> int {
    (h + deg) % 360
}

/// Heading after a counter-clockwise rotation of `deg` degrees.
pub open spec fn rotated_ccw(h: int, deg: int) -> int {
    (h - deg + 360) % 360
}

/// Apply a rotation to a heading and normalize into `[0, 360)`.
pub fn apply_rotation(heading: u16, degrees: i32, clockwise: bool) -> (h2: u16)
    requires
        heading < 360,
        0 < degrees <= 360,
    ensures
        h2 < 360,
        clockwise ==> h2 as int == rotated_cw(heading as int, degrees as int),
        !clockwise ==> h2 as int == rotated_ccw(heading as int, degrees as int),
{
    if clockwise {
        (((heading as i32) + degrees) % 360) as u16
    } else {
        (((heading as i32) - degrees + 360) % 360) as u16
    }
}

/// Rotating one way and then undoing it the other way restores the heading.
pub proof fn lemma_rotation_round_trip(h: int, deg: int)
    requires
        0 <= h < 360,
        0 < deg <= 360,
    ensures
        rotated_ccw(rotated_cw(h, deg), deg) == h,
        rotated_cw(rotated_ccw(h, deg), deg) == h,
{
    if h + deg < 360 {
        assert((h + deg) % 360 == h + deg);
    } else {
        assert((h + deg) % 360 == h + deg - 360);
    }
    if h - deg + 360 < 360 {
        assert((h - deg + 360) % 360 == h - deg + 360);
    } else {
        assert((h - deg + 360) % 360 == h - deg);
    }
}

// ---------------------------------------------------------------------------
// Bearings
// ---------------------------------------------------------------------------

/// The number of midpoint tangents that `v / u` reaches: the nearest whole
/// degree of `atan(v / u)` for `0 <= v <= u`.
pub open spec fn octant_count_rec(u: int, v: int, n: int) -> int
    decreases n,
{
    if n <= 0 {
        0
    } else {
        octant_count_rec(u, v, n - 1) + if v * 100000 >= u * tan_half(n - 1) {
            1int
        } else {
            0int
        }
    }
}

/// Nearest whole degree of `atan(v / u)` within the first octant.
pub open spec fn octant_angle(u: int, v: int) -> int {
    octant_count_rec(u, v, 45)
}

/// Nearest whole degree of `atan(v / u)` for any `u, v >= 0` (first quadrant).
pub open spec fn quadrant_angle(u: int, v: int) -> int {
    if u >= v {
        octant_angle(u, v)
    } else {
        90 - octant_angle(v, u)
    }
}

/// Nearest whole degree of `atan2(dy, dx)`, normalized into `[0, 360)`;
/// `(0, 0)` maps to `0` by convention.
pub open spec fn atan2_degrees(dy: int, dx: int) -> int {
    if dx == 0 && dy == 0 {
        0
    } else {
        let ax = if dx >= 0 {
            dx
        } else {
            -dx
        };
        let ay = if dy >= 0 {
            dy
        } else {
            -dy
        };
        let b = quadrant_angle(ax, ay);
        if dx >= 0 && dy >= 0 {
            b
        } else if dx < 0 && dy >= 0 {
            180 - b
        } else if dx < 0 {
            180 + b
        } else {
            (360 - b) % 360
        }
    }
}

pub proof fn lemma_octant_count_range(u: int, v: int, n: int)
    requires
        n >= 0,
    ensures
        0 <= octant_count_rec(u, v, n) <= n,
    decreases n,
{
    if n > 0 {
        lemma_octant_count_range(u, v, n - 1);
    }
}

/// A bearing is always a normalized angle.
pub proof fn lemma_atan2_range(dy: int, dx: int)
    ensures
        0 <= atan2_degrees(dy, dx) < 360,
{
    if !(dx == 0 && dy == 0) {
        let ax = if dx >= 0 {
            dx
        } else {
            -dx
        };
        let ay = if dy >= 0 {
            dy
        } else {
            -dy
        };
        lemma_octant_count_range(ax, ay, 45);
        lemma_octant_count_range(ay, ax, 45);
    }
}

/// Count the octant degrees reached by `v / u`.
fn octant_count(u: i64, v: i64) -> (r: u16)
    requires
        0 <= u <= 400_000_000,
        0 <= v <= 400_000_000,
    ensures
        r as int == octant_angle(u as int, v as int),
        r <= 45,
{
    let mut count: u16 = 0;
    let mut d: u16 = 0;
    while d < 45
        invariant
            0 <= d <= 45,
            count <= d,
            0 <= u <= 400_000_000,
            0 <= v <= 400_000_000,
            count as int == octant_count_rec(u as int, v as int, d as int),
        decreases 45 - d,
    {
        let t = tan_half_scaled(d);
        proof {
            assert(u * t <= 400_000_000 * 100000) by (nonlinear_arith)
                requires
                    0 <= u <= 400_000_000,
                    0 <= t <= 100000,
            ;
            assert(u * t >= 0) by (nonlinear_arith)
                requires
                    0 <= u,
                    0 <= t,
            ;
        }
        if v * 100000 >= u * t {
            count += 1;
        }
        d += 1;
    }
    count
}

/// Nearest whole degree of `atan2(dy, dx)`, in `[0, 360)`.
pub fn atan2_to_degrees(dy: i64, dx: i64) -> (a: u16)
    requires
        -400_000_000 <= dy <= 400_000_000,
        -400_000_000 <= dx <= 400_000_000,
    ensures
        a as int == atan2_degrees(dy as int, dx as int),
        a < 360,
{
    proof {
        lemma_atan2_range(dy as int, dx as int);
    }
    if dx == 0 && dy == 0 {
        return 0;
    }
    let ax = if dx >= 0 {
        dx
    } else {
        -dx
    };
    let ay = if dy >= 0 {
        dy
    } else {
        -dy
    };
    let b: u16 = if ax >= ay {
        octant_count(ax, ay)
    } else {
        proof {
            lemma_octant_count_range(ay as int, ax as int, 45);
        }
        90 - octant_count(ay, ax)
    };
    if dx >= 0 && dy >= 0 {
        b
    } else if dx < 0 && dy >= 0 {
        180 - b
    } else if dx < 0 {
        180 + b
    } else {
        (360 - b) % 360
    }
}

// ---------------------------------------------------------------------------
// Aiming the camera
// ---------------------------------------------------------------------------

/// Bearing from `(x, y)` to `(cx, cy)`, as the protocol reckons it.
pub open spec fn bearing_to(x: int, y: int, cx: int, cy: int) -> int {
    atan2_degrees(cy - y, cx - x)
}

/// The heading that points the camera at `(cx, cy)`: the bearing shifted by
/// the protocol's forward-axis offset of `+90` degrees.
pub open spec fn face_heading(x: int, y: int, cx: int, cy: int) -> int {
    (bearing_to(x, y, cx, cy) + 90) % 360
}

/// The heading that points the camera away from `(cx, cy)`.
pub open spec fn away_heading(x: int, y: int, cx: int, cy: int) -> int {
    (bearing_to(x, y, cx, cy) + 270) % 360
}

/// The signed minimal rotation from heading `h` to heading `target`:
/// positive is clockwise, and the magnitude never exceeds 180 degrees.
pub open spec fn wrap_rotation(r: int) -> int {
    if r > 180 {
        r - 360
    } else if r < -180 {
        r + 360
    } else {
        r
    }
}

/// The signed minimal rotation between two normalized headings.
pub fn rotation_step(h: u16, target: u16) -> (r: i32)
    requires
        h < 360,
        target < 360,
    ensures
        r as int == wrap_rotation(target as int - h as int),
        -180 <= r <= 180,
{
    let diff: i32 = (target as i32) - (h as i32);
    if diff > 180 {
        diff - 360
    } else if diff < -180 {
        diff + 360
    } else {
        diff
    }
}

/// Applying the wrapped rotation from `h` toward `target` reaches `target`
/// exactly; the rotation never takes the long way around.
pub proof fn lemma_rotation_reaches_target(h: int, target: int)
    requires
        0 <= h < 360,
        0 <= target < 360,
    ensures
        ({
            let r = wrap_rotation(target - h);
            -180 <= r <= 180 && (r > 0 ==> rotated_cw(h, r) == target) && (r < 0 ==> rotated_ccw(
                h,
                -r,
            ) == target) && (r == 0 ==> h == target)
        }),
{
    let r = wrap_rotation(target - h);
    if r > 0 {
        if h + r < 360 {
            assert((h + r) % 360 == h + r);
        } else {
            assert((h + r) % 360 == h + r - 360);
        }
    } else if r < 0 {
        if h + r >= 0 {
            assert((h + r + 360) % 360 == h + r);
        } else {
            assert((h + r + 360) % 360 == h + r + 360);
        }
    }
}

/// Aiming the camera reaches its mark: the rotation computed from a pose
/// and a target, applied to the heading, lands exactly on the heading that
/// faces the target, and it is never the long way around.
pub proof fn lemma_camera_alignment(x: int, y: int, h: int, cx: int, cy: int)
    requires
        0 <= h < 360,
    ensures
        ({
            let t = face_heading(x, y, cx, cy);
            let r = wrap_rotation(t - h);
            0 <= t < 360 && -180 <= r <= 180 && (r > 0 ==> rotated_cw(h, r) == t) && (r < 0
                ==> rotated_ccw(h, -r) == t) && (r == 0 ==> h == t)
        }),
{
    lemma_atan2_range(cy - y, cx - x);
    lemma_rotation_reaches_target(h, face_heading(x, y, cx, cy));
}

/// Facing a point and facing away from it differ by exactly half a turn.
pub proof fn lemma_face_away_opposite(x: int, y: int, cx: int, cy: int)
    ensures
        (face_heading(x, y, cx, cy) - away_heading(x, y, cx, cy) + 360) % 360 == 180,
{
    let b = bearing_to(x, y, cx, cy);
    lemma_atan2_range(cy - y, cx - x);
    if b < 90 {
        assert((b + 90) % 360 == b + 90);
        assert((b + 270) % 360 == b + 270);
    } else if b < 270 {
        assert((b + 90) % 360 == b + 90);
        assert((b + 270) % 360 == b + 270 - 360);
    } else {
        assert((b + 90) % 360 == b + 90 - 360);
        assert((b + 270) % 360 == b + 270 - 360);
    }
}

// ---------------------------------------------------------------------------
// Displacement law
// ---------------------------------------------------------------------------

/// The squared norm of any scaled sine/cosine pair stays within a narrow
/// band around the exact `10000^2`.
#[verifier::rlimit(100)]
pub proof fn lemma_qsin_norm(d: int)
    requires
        0 <= d <= 90,
    ensures
        99_988_000 <= qsin(d) * qsin(d) + qsin(90 - d) * qsin(90 - d) <= 100_012_000,
{
}

/// The same band for the sine and cosine of any normalized heading.
pub proof fn lemma_trig_norm(h: int)
    requires
        0 <= h < 360,
    ensures
        99_988_000 <= sin_scaled(h) * sin_scaled(h) + cos_scaled(h) * cos_scaled(h)
            <= 100_012_000,
{
    let s = sin_scaled(h);
    let c = cos_scaled(h);
    if h <= 90 {
        lemma_qsin_norm(h);
    } else if h <= 180 {
        lemma_qsin_norm(180 - h);
        assert(s * s + c * c == qsin(180 - h) * qsin(180 - h) + qsin(h - 90) * qsin(h - 90))
            by (nonlinear_arith)
            requires
                s == qsin(180 - h),
                c == -qsin(h - 90),
        ;
    } else if h <= 270 {
        lemma_qsin_norm(h - 180);
        assert(s * s + c * c == qsin(h - 180) * qsin(h - 180) + qsin(270 - h) * qsin(270 - h))
            by (nonlinear_arith)
            requires
                s == -qsin(h - 180),
                c == -qsin(270 - h),
        ;
    } else {
        lemma_qsin_norm(360 - h);
        assert(s * s + c * c == qsin(360 - h) * qsin(360 - h) + qsin(h - 270) * qsin(h - 270))
            by (nonlinear_arith)
            requires
                s == -qsin(360 - h),
                c == qsin(h - 270),
        ;
    }
}

/// How far the square of one truncated component can sit below the exact
/// product: `a = (d*t)/10000` obeys
/// `10^8 a^2 <= (d t)^2 <= 10^8 a^2 + 3*10^8 d`.
proof fn lemma_scaled_sq_bounds(d: int, t: int)
    requires
        0 < d <= 5000,
        0 <= t <= 10000,
    ensures
        ({
            let a = (d * t) / 10000;
            0 <= a <= d && 100_000_000 * (a * a) <= (d * t) * (d * t) && (d * t) * (d * t)
                <= 100_000_000 * (a * a) + 300_000_000 * d
        }),
{
    let big = d * t;
    let a = big / 10000;
    assert(0 <= big <= d * 10000 && d * 10000 <= 50_000_000) by (nonlinear_arith)
        requires
            0 < d <= 5000,
            0 <= t <= 10000,
            big == d * t,
    ;
    lemma_div_pos_is_pos(big, 10000);
    lemma_div_is_ordered(big, d * 10000, 10000);
    lemma_div_by_multiple(d, 10000);
    lemma_fundamental_div_mod(big, 10000);
    let rem = big % 10000;
    assert(big == 10000 * a + rem && 0 <= rem < 10000);
    assert(big * big == 100_000_000 * (a * a) + 2 * 10000 * a * rem + rem * rem)
        by (nonlinear_arith)
        requires
            big == 10000 * a + rem,
    ;
    assert(0 <= 2 * 10000 * a * rem <= 199_980_000 * d) by (nonlinear_arith)
        requires
            0 <= a <= d,
            0 <= rem <= 9999,
    ;
    assert(0 <= rem * rem <= 100_000_000 * d) by (nonlinear_arith)
        requires
            0 <= rem <= 9999,
            d >= 1,
    ;
}

/// A truncated fixed-point product lands within one unit of the exact one:
/// `10000 * scaled_by_trig(d, t)` is within `10000` of `d * t`.
proof fn lemma_scaled_near(d: int, t: int)
    requires
        0 < d <= 5000,
        -10000 <= t <= 10000,
    ensures
        ({
            let a = scaled_by_trig(d, t);
            -10000 < 10000 * a - d * t && 10000 * a - d * t < 10000 && -d <= a <= d
        }),
{
    if t >= 0 {
        let big = d * t;
        assert(0 <= big <= d * 10000 && d * 10000 <= 50_000_000) by (nonlinear_arith)
            requires
                0 < d <= 5000,
                0 <= t <= 10000,
                big == d * t,
        ;
        lemma_div_pos_is_pos(big, 10000);
        lemma_div_is_ordered(big, d * 10000, 10000);
        lemma_div_by_multiple(d, 10000);
        lemma_fundamental_div_mod(big, 10000);
        let a = scaled_by_trig(d, t);
        assert(a == big / 10000);
        assert(big == 10000 * a + big % 10000 && 0 <= big % 10000 < 10000);
        assert(10000 * a - d * t == -(big % 10000));
        assert(0 <= a <= d);
    } else {
        let u = -t;
        let big = d * u;
        assert(0 <= big <= d * 10000 && d * 10000 <= 50_000_000) by (nonlinear_arith)
            requires
                0 < d <= 5000,
                0 <= u <= 10000,
                big == d * u,
        ;
        lemma_div_pos_is_pos(big, 10000);
        lemma_div_is_ordered(big, d * 10000, 10000);
        lemma_div_by_multiple(d, 10000);
        lemma_fundamental_div_mod(big, 10000);
        let a = scaled_by_trig(d, t);
        assert(a == -(big / 10000));
        assert(big == 10000 * (big / 10000) + big % 10000 && 0 <= big % 10000 < 10000);
        assert(d * t == -big) by (nonlinear_arith)
            requires
                big == d * u,
                u == -t,
        ;
        assert(10000 * a - d * t == big % 10000);
        assert(-d <= a <= 0);
    }
}

/// The geometry of a truncated sine/cosine pair: the cross product with the
/// exact direction vector nearly vanishes, and the dot product is nearly
/// the full length.
proof fn lemma_scaled_pair_geometry(d: int, s: int, c: int)
    requires
        0 < d <= 5000,
        -10000 <= s <= 10000,
        -10000 <= c <= 10000,
        99_988_000 <= s * s + c * c <= 100_012_000,
    ensures
        ({
            let a = scaled_by_trig(d, s);
            let b = scaled_by_trig(d, c);
            -20000 <= a * c - b * s <= 20000 && 10000 * (a * s + b * c) >= 99_988_000 * d
                - 200_000_000
        }),
{
    lemma_scaled_near(d, s);
    lemma_scaled_near(d, c);
    let a = scaled_by_trig(d, s);
    let b = scaled_by_trig(d, c);
    let e1 = 10000 * a - d * s;
    let e2 = 10000 * b - d * c;
    assert(10000 * (a * c - b * s) == e1 * c - e2 * s) by (nonlinear_arith)
        requires
            e1 == 10000 * a - d * s,
            e2 == 10000 * b - d * c,
    ;
    assert(-100_000_000 < e1 * c < 100_000_000 && -100_000_000 < e2 * s < 100_000_000)
        by (nonlinear_arith)
        requires
            -10000 < e1 < 10000,
            -10000 < e2 < 10000,
            -10000 <= c <= 10000,
            -10000 <= s <= 10000,
    ;
    assert(-20000 <= a * c - b * s <= 20000);
    assert(10000 * (a * s + b * c) == d * (s * s + c * c) + e1 * s + e2 * c) by (nonlinear_arith)
        requires
            e1 == 10000 * a - d * s,
            e2 == 10000 * b - d * c,
    ;
    assert(d * (s * s + c * c) >= 99_988_000 * d) by (nonlinear_arith)
        requires
            d > 0,
            s * s + c * c >= 99_988_000,
    ;
    assert(e1 * s > -100_000_000 && e2 * c > -100_000_000) by (nonlinear_arith)
        requires
            -10000 < e1 < 10000,
            -10000 < e2 < 10000,
            -10000 <= s <= 10000,
            -10000 <= c <= 10000,
    ;
}

/// Direction law for relative moves: a planar move travels along the
/// heading it was commanded on.  The displacement's cross product with the
/// travel heading's direction vector stays within the fixed-point rounding
/// band (under two millimeters of sideways drift for any legal distance),
/// and its dot product with that vector is positive and nearly the full
/// commanded length.
pub proof fn lemma_move_direction(h: int, dir: Direction, distance_cm: int)
    requires
        0 <= h < 360,
        0 < distance_cm <= 500,
    ensures
        ({
            let d = 10 * distance_cm;
            let hl = lateral_heading(h, dir);
            let s = sin_scaled(hl);
            let c = cos_scaled(hl);
            let dx = delta_x(h, dir, d);
            let dy = delta_y(h, dir, d);
            match dir {
                Direction::Up => true,
                Direction::Down => true,
                _ => -20000 <= dx * c - dy * s <= 20000 && 10000 * (planar_sign(dir) * (dx * s + dy
                    * c)) >= 99_988_000 * d - 200_000_000,
            }
        }),
{
    let d = 10 * distance_cm;
    match dir {
        Direction::Up => {
        },
        Direction::Down => {
        },
        _ => {
            let hl = lateral_heading(h, dir);
            assert(0 <= hl < 360);
            let s = sin_scaled(hl);
            let c = cos_scaled(hl);
            lemma_trig_norm(hl);
            lemma_scaled_pair_geometry(d, s, c);
            let a = scaled_by_trig(d, s);
            let b = scaled_by_trig(d, c);
            let dx = delta_x(h, dir, d);
            let dy = delta_y(h, dir, d);
            let sg = planar_sign(dir);
            assert(dx == sg * a && dy == sg * b);
            assert(dx * c - dy * s == sg * (a * c - b * s) && sg * (dx * s + dy * c) == (sg * sg) *
            (a * s + b * c) && sg * sg == 1) by (nonlinear_arith)
                requires
                    dx == sg * a,
                    dy == sg * b,
                    sg == 1 || sg == -1,
            ;
        },
    }
}

/// Displacement law for relative moves: a planar move of `d` centimeters
/// travels `10 d` millimeters within the fixed-point tolerance.  Scaled by
/// `10^8`, the squared displacement sits between
/// `99988000 (10d)^2 - 6*10^8 (10d)` and `100012000 (10d)^2`: about one
/// part in eight thousand, plus a rounding term linear in the distance,
/// which keeps the displacement within a few millimeters of the commanded
/// length for every legal distance.  A vertical move travels exactly
/// `10 d` millimeters.
pub proof fn lemma_move_displacement(h: int, dir: Direction, distance_cm: int)
    requires
        0 <= h < 360,
        0 < distance_cm <= 500,
    ensures
        ({
            let d = 10 * distance_cm;
            let dx = delta_x(h, dir, d);
            let dy = delta_y(h, dir, d);
            let dz = delta_z(dir, d);
            match dir {
                Direction::Up => dx == 0 && dy == 0 && dz == d,
                Direction::Down => dx == 0 && dy == 0 && dz == -d,
                _ => dz == 0 && 99_988_000 * (d * d) - 600_000_000 * d <= 100_000_000 * (dx * dx
                    + dy * dy) && 100_000_000 * (dx * dx + dy * dy) <= 100_012_000 * (d * d),
            }
        }),
{
    let d = 10 * distance_cm;
    match dir {
        Direction::Up => {
        },
        Direction::Down => {
        },
        _ => {
            let hl = lateral_heading(h, dir);
            assert(0 <= hl < 360);
            let s = sin_scaled(hl);
            let c = cos_scaled(hl);
            let st = if s >= 0 {
                s
            } else {
                -s
            };
            let ct = if c >= 0 {
                c
            } else {
                -c
            };
            lemma_trig_norm(hl);
            assert(st * st == s * s && ct * ct == c * c) by (nonlinear_arith)
                requires
                    st == if s >= 0 {
                        s
                    } else {
                        -s
                    },
                    ct == if c >= 0 {
                        c
                    } else {
                        -c
                    },
            ;
            assert(0 <= st <= 10000 && 0 <= ct <= 10000);
            let a = (d * st) / 10000;
            let b = (d * ct) / 10000;
            let dx = delta_x(h, dir, d);
            let dy = delta_y(h, dir, d);
            assert(dx == a || dx == -a);
            assert(dy == b || dy == -b);
            assert(dx * dx == a * a && dy * dy == b * b) by (nonlinear_arith)
                requires
                    dx == a || dx == -a,
                    dy == b || dy == -b,
            ;
            lemma_scaled_sq_bounds(d, st);
            lemma_scaled_sq_bounds(d, ct);
            assert((d * st) * (d * st) == (d * d) * (st * st) && (d * ct) * (d * ct) == (d * d) * (
            ct * ct)) by (nonlinear_arith);
            assert((d * d) * 99_988_000 <= (d * d) * (st * st + ct * ct) <= (d * d) * 100_012_000)
                by (nonlinear_arith)
                requires
                    99_988_000 <= st * st + ct * ct <= 100_012_000,
                    d * d >= 0,
            ;
            assert((d * d) * (st * st) + (d * d) * (ct * ct) == (d * d) * (st * st + ct * ct))
                by (nonlinear_arith);
            assert(100_000_000 * (a * a) + 100_000_000 * (b * b) == 100_000_000 * (a * a + b * b));
            assert(100_000_000 * (a * a + b * b) <= 100_012_000 * (d * d));
            assert(99_988_000 * (d * d) - 600_000_000 * d <= 100_000_000 * (a * a + b * b));
        },
    }
}

} // verus!
