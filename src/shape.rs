use vstd::prelude::*;

verus! {

/// Sub-pixel units in one pixel.
pub const SUBPIXELS: i64 = 1_000_000;

/// Largest size a shape may have, in sub-pixels.
pub const MAX_SIZE: i64 = 1_099_511_627_776;

/// A moving entity: a position (its center), a size, a speed along its
/// axis of travel and a flag set once it has been hit.
#[derive(Clone, Copy, Debug, PartialEq, Eq, Structural)]
pub struct Shape {
    pub size: i64,
    pub speed: i64,
    pub x: i64,
    pub y: i64,
    pub collided: bool,
}

pub open spec fn abs(v: int) -> int {
    if v < 0 { -v } else { v }
}

/// Twice the distance, along one axis, from a coordinate lying `d` away from
/// the center of a square of side `side` to that square (zero inside it).
pub open spec fn gap2(d: int, side: int) -> int {
    if 2 * abs(d) > side { 2 * abs(d) - side } else { 0 }
}

/// The closed disc of center `(cx, cy)` and radius `r` meets the closed
/// axis-aligned square of center `(sx, sy)` and side `side`: the point of the
/// square nearest to the center lies within the radius.
pub open spec fn circle_meets_square(cx: int, cy: int, r: int, sx: int, sy: int, side: int) -> bool {
    let ex = gap2(cx - sx, side);
    let ey = gap2(cy - sy, side);
    ex * ex + ey * ey <= 4 * r * r
}

/// The circle of `a` (radius `a.size`) meets the square of `b` (side `b.size`).
pub open spec fn hits(a: Shape, b: Shape) -> bool {
    circle_meets_square(a.x as int, a.y as int, a.size as int, b.x as int, b.y as int, b.size as int)
}

pub open spec fn clamp_i64(v: int) -> int {
    if v < i64::MIN {
        i64::MIN as int
    } else if v > i64::MAX {
        i64::MAX as int
    } else {
        v
    }
}

/// `s` after falling for `dt` microseconds: `y` grows by `speed * dt`.
pub open spec fn fallen(s: Shape, dt: int) -> Shape {
    Shape { y: clamp_i64(s.y + s.speed * dt) as i64, ..s }
}

/// `s` after rising for `dt` microseconds: `y` shrinks by `speed * dt`.
pub open spec fn risen(s: Shape, dt: int) -> Shape {
    Shape { y: clamp_i64(s.y - s.speed * dt) as i64, ..s }
}

/// `s` with its hit flag set.
pub open spec fn struck(s: Shape) -> Shape {
    Shape { collided: true, ..s }
}

/// Whole pixels in `size` sub-pixels, rounded half up.
pub open spec fn pixels_rounded(size: int) -> int {
    (size + SUBPIXELS / 2) / (SUBPIXELS as int)
}

proof fn lemma_square_le(a: int, b: int)
    requires
        0 <= a <= b,
    ensures
        a * a <= b * b,
{
    assert(a * a <= b * b) by (nonlinear_arith)
        requires
            0 <= a <= b,
    ;
}

proof fn lemma_move_fits(speed: i64, dt: u32)
    ensures
        -0x8000_0000_0000_0000_0000_0000 <= speed * dt <= 0x8000_0000_0000_0000_0000_0000,
{
    assert(-0x8000_0000_0000_0000_0000_0000 <= speed * dt <= 0x8000_0000_0000_0000_0000_0000)
        by (nonlinear_arith)
        requires
            -0x8000_0000_0000_0000 <= speed < 0x8000_0000_0000_0000,
            0 <= dt < 0x1_0000_0000,
    ;
}

fn saturate(v: i128) -> (r: i64)
    ensures
        r == clamp_i64(v as int),
{
    if v < i64::MIN as i128 {
        i64::MIN
    } else if v > i64::MAX as i128 {
        i64::MAX
    } else {
        v as i64
    }
}

/// The point with doubled coordinates `(qx, qy)` (half sub-pixels) lies in
/// the closed square of `b`.
pub open spec fn in_square2(qx: int, qy: int, b: Shape) -> bool {
    abs(qx - 2 * b.x) <= b.size && abs(qy - 2 * b.y) <= b.size
}

/// The point with doubled coordinates `(qx, qy)` lies in the closed disc of `a`.
pub open spec fn in_circle2(qx: int, qy: int, a: Shape) -> bool {
    (qx - 2 * a.x) * (qx - 2 * a.x) + (qy - 2 * a.y) * (qy - 2 * a.y) <= 4 * a.size * a.size
}

/// The point `(qx / k, qy / k)` lies in the closed square of `b`.
pub open spec fn in_square_at(qx: int, qy: int, k: int, b: Shape) -> bool {
    2 * abs(qx - k * b.x) <= k * b.size && 2 * abs(qy - k * b.y) <= k * b.size
}

/// The point `(qx / k, qy / k)` lies in the closed disc of `a`.
pub open spec fn in_circle_at(qx: int, qy: int, k: int, a: Shape) -> bool {
    (qx - k * a.x) * (qx - k * a.x) + (qy - k * a.y) * (qy - k * a.y) <= k * k * (a.size * a.size)
}

proof fn lemma_scaled_gap(d: int, q: int, k: int, side: int)
    requires
        k > 0,
        side > 0,
        2 * abs(q + k * d) <= k * side,
    ensures
        0 <= k * gap2(d, side) <= 2 * abs(q),
{
    assert(k * abs(d) == abs(k * d)) by (nonlinear_arith)
        requires
            k > 0,
    ;
    assert(k * gap2(d, side) == (if 2 * abs(d) > side { 2 * (k * abs(d)) - k * side } else { 0 })) by (nonlinear_arith)
        requires
            k > 0,
    ;
    assert(k * gap2(d, side) >= 0) by (nonlinear_arith)
        requires
            k > 0,
            gap2(d, side) >= 0,
    ;
}

proof fn lemma_rational_point_hits(a: Shape, b: Shape, qx: int, qy: int, k: int)
    requires
        a.wf(),
        b.wf(),
        k > 0,
        in_square_at(qx, qy, k, b),
        in_circle_at(qx, qy, k, a),
    ensures
        hits(a, b),
{
    let ex = gap2(a.x - b.x, b.size as int);
    let ey = gap2(a.y - b.y, b.size as int);
    let ux = qx - k * a.x;
    let uy = qy - k * a.y;
    assert(qx - k * b.x == ux + k * (a.x - b.x)) by (nonlinear_arith)
        requires
            ux == qx - k * a.x,
    ;
    assert(qy - k * b.y == uy + k * (a.y - b.y)) by (nonlinear_arith)
        requires
            uy == qy - k * a.y,
    ;
    lemma_scaled_gap(a.x - b.x, ux, k, b.size as int);
    lemma_scaled_gap(a.y - b.y, uy, k, b.size as int);
    lemma_square_le(k * ex, 2 * abs(ux));
    lemma_square_le(k * ey, 2 * abs(uy));
    let r = a.size as int;
    assert((2 * abs(ux)) * (2 * abs(ux)) == 4 * (ux * ux)) by (nonlinear_arith);
    assert((2 * abs(uy)) * (2 * abs(uy)) == 4 * (uy * uy)) by (nonlinear_arith);
    assert(ex * ex + ey * ey <= 4 * r * r) by (nonlinear_arith)
        requires
            k > 0,
            (k * ex) * (k * ex) <= 4 * (ux * ux),
            (k * ey) * (k * ey) <= 4 * (uy * uy),
            ux * ux + uy * uy <= k * k * (r * r),
    ;
}

/// The circle of `a` is reported to meet the square of `b` exactly when some
/// point (with coordinates in half sub-pixels) lies both in the disc of `a`
/// and in the square of `b`; any point with rational coordinates common to
/// both makes them collide; and shapes whose centers lie farther
/// apart along an axis than the radius of `a` plus half the side of `b` never
/// collide.
pub proof fn lemma_collision_geometry(a: Shape, b: Shape)
    requires
        a.wf(),
        b.wf(),
    ensures
        hits(a, b) <==> exists|qx: int, qy: int| in_square2(qx, qy, b) && in_circle2(qx, qy, a),
        forall|qx: int, qy: int, k: int|
            k > 0 && #[trigger] in_square_at(qx, qy, k, b) && #[trigger] in_circle_at(qx, qy, k, a) ==> hits(a, b),
        2 * abs(a.x - b.x) > b.size + 2 * a.size ==> !hits(a, b),
        2 * abs(a.y - b.y) > b.size + 2 * a.size ==> !hits(a, b),
{
    assert forall|qx: int, qy: int, k: int|
        k > 0 && #[trigger] in_square_at(qx, qy, k, b) && #[trigger] in_circle_at(qx, qy, k, a) implies hits(a, b) by {
        lemma_rational_point_hits(a, b, qx, qy, k);
    }
    let side = b.size as int;
    let dx = 2 * (a.x - b.x);
    let dy = 2 * (a.y - b.y);
    let cx = if dx < -side { -side } else if dx > side { side } else { dx };
    let cy = if dy < -side { -side } else if dy > side { side } else { dy };
    let qx = 2 * b.x + cx;
    let qy = 2 * b.y + cy;
    if hits(a, b) {
        assert(abs(qx - 2 * a.x) == gap2(a.x - b.x, side));
        assert(abs(qy - 2 * a.y) == gap2(a.y - b.y, side));
        assert(abs(qx - 2 * a.x) * abs(qx - 2 * a.x) == (qx - 2 * a.x) * (qx - 2 * a.x)) by (nonlinear_arith);
        assert(abs(qy - 2 * a.y) * abs(qy - 2 * a.y) == (qy - 2 * a.y) * (qy - 2 * a.y)) by (nonlinear_arith);
        assert(in_square2(qx, qy, b) && in_circle2(qx, qy, a));
    }
    assert forall|px: int, py: int| in_square2(px, py, b) && in_circle2(px, py, a) implies hits(a, b) by {
        assert(4 * a.size * a.size == 2 * 2 * (a.size * a.size)) by (nonlinear_arith);
        assert(in_circle_at(px, py, 2, a));
        lemma_rational_point_hits(a, b, px, py, 2);
    }
    let r = a.size as int;
    let ex = gap2(a.x - b.x, side);
    let ey = gap2(a.y - b.y, side);
    if ex > 2 * r || ey > 2 * r {
        assert(ex * ex + ey * ey > 4 * r * r) by (nonlinear_arith)
            requires
                ex >= 0,
                ey >= 0,
                r > 0,
                ex > 2 * r || ey > 2 * r,
        ;
    }
}

pub proof fn lemma_same_sign_moves(speed: int, dt1: nat, dt2: nat)
    ensures
        speed * (dt1 + dt2) == speed * dt1 + speed * dt2,
        speed >= 0 ==> speed * dt1 >= 0 && speed * dt2 >= 0,
        speed <= 0 ==> speed * dt1 <= 0 && speed * dt2 <= 0,
{
    assert(speed * (dt1 + dt2) == speed * dt1 + speed * dt2) by (nonlinear_arith);
    assert(speed >= 0 ==> speed * dt1 >= 0 && speed * dt2 >= 0) by (nonlinear_arith);
    assert(speed <= 0 ==> speed * dt1 <= 0 && speed * dt2 <= 0) by (nonlinear_arith);
}

/// Falling for `dt1` then for `dt2` ends where falling once for `dt1 + dt2`
/// does (both moves go the same way, so saturation agrees too).
pub proof fn lemma_fall_linear(s: Shape, dt1: nat, dt2: nat)
    ensures
        fallen(fallen(s, dt1 as int), dt2 as int) == fallen(s, (dt1 + dt2) as int),
{
    lemma_same_sign_moves(s.speed as int, dt1, dt2);
}

/// Rising for `dt1` then for `dt2` ends where rising once for `dt1 + dt2`
/// does (both moves go the same way, so saturation agrees too).
pub proof fn lemma_rise_linear(s: Shape, dt1: nat, dt2: nat)
    ensures
        risen(risen(s, dt1 as int), dt2 as int) == risen(s, (dt1 + dt2) as int),
{
    lemma_same_sign_moves(s.speed as int, dt1, dt2);
}

impl Shape {
    pub open spec fn wf(self) -> bool {
        0 < self.size <= MAX_SIZE
    }

    /// A fresh, unhit shape.
    pub fn new(x: i64, y: i64, size: i64, speed: i64) -> (r: Shape)
        requires
            0 < size <= MAX_SIZE,
        ensures
            r == (Shape { size, speed, x, y, collided: false }),
            r.wf(),
    {
        Shape { size, speed, x, y, collided: false }
    }

    /// Whether the circle of `self` (radius `self.size`) overlaps the square
    /// of `other` (side `other.size`), both centered on their positions.
    /// Not symmetric.
    pub fn collides_with(&self, other: &Shape) -> (r: bool)
        requires
            self.wf(),
            other.wf(),
        ensures
            r == hits(*self, *other),
    {
        let dx: i128 = if self.x >= other.x {
            self.x as i128 - other.x as i128
        } else {
            other.x as i128 - self.x as i128
        };
        let dy: i128 = if self.y >= other.y {
            self.y as i128 - other.y as i128
        } else {
            other.y as i128 - self.y as i128
        };
        let side = other.size as i128;
        let r = self.size as i128;
        if 2 * dx > side + 2 * r || 2 * dy > side + 2 * r {
            assert(!hits(*self, *other)) by {
                let ex = gap2(self.x - other.x, other.size as int);
                let ey = gap2(self.y - other.y, other.size as int);
                assert(ex >= 0 && ey >= 0);
                assert(ex > 2 * r || ey > 2 * r);
                assert(ex * ex + ey * ey > 4 * r * r) by (nonlinear_arith)
                    requires
                        ex >= 0,
                        ey >= 0,
                        r > 0,
                        ex > 2 * r || ey > 2 * r,
                ;
            }
            return false;
        }
        if 2 * dx <= side || 2 * dy <= side {
            assert(hits(*self, *other)) by {
                let ex = gap2(self.x - other.x, other.size as int);
                let ey = gap2(self.y - other.y, other.size as int);
                assert(0 <= ex <= 2 * r && 0 <= ey <= 2 * r);
                assert(ex == 0 || ey == 0);
                assert(ex * ex + ey * ey <= 4 * r * r) by (nonlinear_arith)
                    requires
                        0 <= ex <= 2 * r,
                        0 <= ey <= 2 * r,
                        ex == 0 || ey == 0,
                ;
            }
            return true;
        }
        let lhs = 2 * dx - side;
        let rhs = 2 * dy - side;
        let r2 = 2 * r;
        proof {
            lemma_square_le(lhs as int, r2 as int);
            lemma_square_le(rhs as int, r2 as int);
            lemma_square_le(r2 as int, 2 * MAX_SIZE);
            assert((2 * r) * (2 * r) == 4 * r * r) by (nonlinear_arith);
        }
        lhs * lhs + rhs * rhs <= r2 * r2
    }

    /// Moves down by `speed * dt` (saturating at the bounds of `i64`).
    pub fn fall(&mut self, dt: u32)
        ensures
            *final(self) == fallen(*old(self), dt as int),
    {
        proof {
            lemma_move_fits(self.speed, dt);
        }
        let d = self.speed as i128 * dt as i128;
        self.y = saturate(self.y as i128 + d);
    }

    /// Moves up by `speed * dt` (saturating at the bounds of `i64`).
    pub fn rise(&mut self, dt: u32)
        ensures
            *final(self) == risen(*old(self), dt as int),
    {
        proof {
            lemma_move_fits(self.speed, dt);
        }
        let d = self.speed as i128 * dt as i128;
        self.y = saturate(self.y as i128 - d);
    }

    /// The size in whole pixels, rounded half up.
    pub fn rounded_size(&self) -> (r: u32)
        requires
            self.wf(),
        ensures
            r == pixels_rounded(self.size as int),
    {
        ((self.size + SUBPIXELS / 2) / SUBPIXELS) as u32
    }
}

} // verus!
