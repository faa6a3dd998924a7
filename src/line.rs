//! The digital-line rule: which logical points a segment between two
//! endpoints covers, independent of the order of the endpoints.

use vstd::prelude::*;

verus! {

/// The distance between two integers.
pub open spec fn abs_diff(a: int, b: int) -> int {
    if a >= b {
        a - b
    } else {
        b - a
    }
}

/// A segment is steep when it spans more rows than columns: `|dx| < |dy|`.
/// A steep segment steps along y instead of x.
pub open spec fn is_steep(x1: int, y1: int, x2: int, y2: int) -> bool {
    abs_diff(x1, x2) < abs_diff(y1, y2)
}

/// The segment in stepping coordinates (major axis first), ordered so that
/// the major coordinate grows: `(start_major, start_minor, end_major, end_minor)`.
pub open spec fn stepping_frame(x1: int, y1: int, x2: int, y2: int) -> (int, int, int, int) {
    let (a1, b1, a2, b2) = if is_steep(x1, y1, x2, y2) {
        (y1, x1, y2, x2)
    } else {
        (x1, y1, x2, y2)
    };
    if a1 > a2 {
        (a2, b2, a1, b1)
    } else {
        (a1, b1, a2, b2)
    }
}

/// The minor coordinate at major coordinate `m`:
/// `round(sb + (eb - sb) * (m - sa) / (ea - sa))`, halves rounded up.
pub open spec fn interpolate(sa: int, sb: int, ea: int, eb: int, m: int) -> int {
    if ea == sa {
        sb
    } else {
        (2 * sb * (ea - sa) + 2 * (eb - sb) * (m - sa) + (ea - sa)) / (2 * (ea - sa))
    }
}

/// The number of points of the segment: one per step of the major axis.
pub open spec fn line_len(x1: int, y1: int, x2: int, y2: int) -> int {
    let (sa, sb, ea, eb) = stepping_frame(x1, y1, x2, y2);
    ea - sa + 1
}

/// The `k`-th point of the segment, as logical `(x, y)`.
pub open spec fn line_point(x1: int, y1: int, x2: int, y2: int, k: int) -> (int, int) {
    let (sa, sb, ea, eb) = stepping_frame(x1, y1, x2, y2);
    let m = sa + k;
    let n = interpolate(sa, sb, ea, eb, m);
    if is_steep(x1, y1, x2, y2) {
        (n, m)
    } else {
        (m, n)
    }
}

/// The set of logical points that the segment covers.
pub open spec fn line_points(x1: int, y1: int, x2: int, y2: int) -> Set<(int, int)> {
    Set::new(
        |p: (int, int)|
            exists|k: int| 0 <= k < line_len(x1, y1, x2, y2) && #[trigger] line_point(x1, y1, x2, y2, k) == p,
    )
}

/// The interpolated coordinate lies between the two endpoint coordinates.
pub proof fn lemma_interpolate_bounds(sa: int, sb: int, ea: int, eb: int, m: int)
    requires
        sa <= m <= ea,
    ensures
        sb <= eb ==> sb <= interpolate(sa, sb, ea, eb, m) <= eb,
        eb < sb ==> eb <= interpolate(sa, sb, ea, eb, m) <= sb,
{
    if ea != sa {
        let d = ea - sa;
        let t = m - sa;
        let num = 2 * sb * d + 2 * (eb - sb) * t + d;
        let q = num / (2 * d);
        vstd::arithmetic::div_mod::lemma_fundamental_div_mod(num, 2 * d);
        let r = num % (2 * d);
        assert(num == 2 * d * q + r && 0 <= r < 2 * d);
        if sb <= eb {
            assert(0 <= (eb - sb) * t <= (eb - sb) * d) by (nonlinear_arith)
                requires
                    0 <= t <= d,
                    sb <= eb,
            ;
            assert(sb <= q <= eb) by (nonlinear_arith)
                requires
                    num == 2 * d * q + r,
                    0 <= r < 2 * d,
                    num == 2 * sb * d + 2 * (eb - sb) * t + d,
                    0 <= (eb - sb) * t <= (eb - sb) * d,
                    d > 0,
            ;
        } else {
            assert(0 <= (sb - eb) * t <= (sb - eb) * d) by (nonlinear_arith)
                requires
                    0 <= t <= d,
                    eb < sb,
            ;
            assert((eb - sb) * t == -((sb - eb) * t)) by (nonlinear_arith);
            assert(eb <= q <= sb) by (nonlinear_arith)
                requires
                    num == 2 * d * q + r,
                    0 <= r < 2 * d,
                    num == 2 * sb * d + 2 * (eb - sb) * t + d,
                    (eb - sb) * t == -((sb - eb) * t),
                    0 <= (sb - eb) * t <= (sb - eb) * d,
                    d > 0,
            ;
        }
    }
}

/// Swapping the endpoints does not change how the segment is stepped.
pub proof fn lemma_stepping_frame_symmetric(x1: int, y1: int, x2: int, y2: int)
    ensures
        is_steep(x1, y1, x2, y2) == is_steep(x2, y2, x1, y1),
        stepping_frame(x1, y1, x2, y2) == stepping_frame(x2, y2, x1, y1),
{
}

/// A segment and its reverse cover the same logical points, one by one.
pub proof fn lemma_line_symmetric(x1: int, y1: int, x2: int, y2: int)
    ensures
        line_len(x1, y1, x2, y2) == line_len(x2, y2, x1, y1),
        forall|k: int| #[trigger]
            line_point(x1, y1, x2, y2, k) == line_point(x2, y2, x1, y1, k),
        line_points(x1, y1, x2, y2) == line_points(x2, y2, x1, y1),
{
    lemma_stepping_frame_symmetric(x1, y1, x2, y2);
    assert forall|k: int| #[trigger]
        line_point(x1, y1, x2, y2, k) == line_point(x2, y2, x1, y1, k) by {}
    assert forall|p: (int, int)|
        line_points(x1, y1, x2, y2).contains(p) <==> line_points(x2, y2, x1, y1).contains(p) by {
        if line_points(x1, y1, x2, y2).contains(p) {
            let k = choose|k: int|
                0 <= k < line_len(x1, y1, x2, y2) && #[trigger] line_point(x1, y1, x2, y2, k) == p;
            assert(line_point(x2, y2, x1, y1, k) == p);
        }
        if line_points(x2, y2, x1, y1).contains(p) {
            let k = choose|k: int|
                0 <= k < line_len(x2, y2, x1, y1) && #[trigger] line_point(x2, y2, x1, y1, k) == p;
            assert(line_point(x1, y1, x2, y2, k) == p);
        }
    }
    assert(line_points(x1, y1, x2, y2) =~= line_points(x2, y2, x1, y1));
}

/// A segment whose endpoints coincide covers exactly that one point.
pub proof fn lemma_line_degenerate(x: int, y: int)
    ensures
        line_len(x, y, x, y) == 1,
        line_point(x, y, x, y, 0) == (x, y),
        line_points(x, y, x, y) == set![(x, y)],
{
    assert(line_point(x, y, x, y, 0) == (x, y));
    assert(line_points(x, y, x, y) =~= set![(x, y)]);
}

/// `|a - b|` of two `u32`.
pub fn u32_abs_diff(a: u32, b: u32) -> (d: u32)
    ensures
        d as int == abs_diff(a as int, b as int),
{
    if a >= b {
        a - b
    } else {
        b - a
    }
}

/// The minor coordinate of a segment at major coordinate `m`.
pub fn interpolate_u32(sa: u32, sb: u32, ea: u32, eb: u32, m: u32) -> (n: u32)
    requires
        sa <= m <= ea,
    ensures
        n as int == interpolate(sa as int, sb as int, ea as int, eb as int, m as int),
{
    proof {
        lemma_interpolate_bounds(sa as int, sb as int, ea as int, eb as int, m as int);
    }
    if ea == sa {
        return sb;
    }
    let d: u128 = (ea - sa) as u128;
    let t: u128 = (m - sa) as u128;
    assert(t <= d);
    assert(2 * (sb as u128) * d <= 2 * 0xffff_ffffu128 * 0xffff_ffffu128) by (nonlinear_arith)
        requires
            sb <= 0xffff_ffffu128,
            d <= 0xffff_ffffu128,
    ;
    let base: u128 = 2 * (sb as u128) * d + d;
    let num: u128 = if sb <= eb {
        let up: u128 = (eb - sb) as u128;
        assert(up * t <= 0xffff_ffffu128 * 0xffff_ffffu128) by (nonlinear_arith)
            requires
                up <= 0xffff_ffffu128,
                t <= 0xffff_ffffu128,
        ;
        base + 2 * (up * t)
    } else {
        let down: u128 = (sb - eb) as u128;
        assert(down * t <= (sb as u128) * d) by (nonlinear_arith)
            requires
                down <= sb,
                t <= d,
        ;
        assert(down * t <= 0xffff_ffffu128 * 0xffff_ffffu128) by (nonlinear_arith)
            requires
                down <= 0xffff_ffffu128,
                t <= 0xffff_ffffu128,
        ;
        let dt: u128 = down * t;
        assert(2 * (sb as u128) * d == 2 * ((sb as u128) * d)) by (nonlinear_arith);
        assert(2 * dt <= base);
        base - 2 * dt
    };
    assert(num as int == 2 * sb * (ea - sa) + 2 * (eb - sb) * (m - sa) + (ea - sa)) by (nonlinear_arith)
        requires
            d == ea - sa,
            t == m - sa,
            sb <= eb ==> num == 2 * sb * d + d + 2 * ((eb - sb) * t),
            eb < sb ==> num == 2 * sb * d + d - 2 * ((sb - eb) * t),
    ;
    (num / (2 * d)) as u32
}

} // verus!
