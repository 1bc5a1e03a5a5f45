//! Rectangle primitives and anchor math.
//!
//! Every length, coordinate and animation scalar in this crate is a
//! fixed-point number: an `i64` counting milli-units, `UNIT` of them to one
//! screen unit. Coordinates are kept inside `[-COORD_MAX, COORD_MAX]`;
//! arithmetic that could leave that window saturates at the ceiling, a
//! defined stand-in for the unbounded drift the geometry would otherwise
//! allow. Divisions round toward zero.

use vstd::prelude::*;

verus! {

/// Milli-units per screen unit: `1500` is one and a half units.
pub const UNIT: i64 = 1000;

/// Largest magnitude a stored coordinate or length may take.
pub const COORD_MAX: i64 = 1_000_000_000;

/// Largest scale factor: `SCALE_MAX` milli-units, that is a factor of 1000.
pub const SCALE_MAX: i64 = 1_000_000;

/// Most children one container may hold, so that measuring passes cannot
/// overflow.
pub const LIST_MAX: usize = 1_000_000;

pub open spec fn coord_ok(v: int) -> bool {
    -COORD_MAX <= v <= COORD_MAX
}

/// Saturate a computed coordinate into the representable window.
pub open spec fn clamp_coord(v: int) -> int {
    if v < -COORD_MAX as int {
        -COORD_MAX as int
    } else if v > COORD_MAX as int {
        COORD_MAX as int
    } else {
        v
    }
}

/// Division rounding toward zero, the rounding every ratio in this crate uses.
pub open spec fn div_tz(a: int, b: int) -> int
    recommends
        b > 0,
{
    if a >= 0 {
        a / b
    } else {
        -((-a) / b)
    }
}

/// Clamp `v` into `[lo, hi]`.
pub open spec fn clamp_between(v: int, lo: int, hi: int) -> int
    recommends
        lo <= hi,
{
    if v < lo {
        lo
    } else if v > hi {
        hi
    } else {
        v
    }
}

/// Exec counterpart of [`clamp_between`].
pub fn clamp_i64(v: i64, lo: i64, hi: i64) -> (r: i64)
    requires
        lo <= hi,
    ensures
        r == clamp_between(v as int, lo as int, hi as int),
{
    if v < lo {
        lo
    } else if v > hi {
        hi
    } else {
        v
    }
}

/// Saturating coordinate addition.
pub fn cadd(a: i64, b: i64) -> (r: i64)
    requires
        coord_ok(a as int) || -2 * COORD_MAX <= a <= 2 * COORD_MAX,
        coord_ok(b as int) || -2 * COORD_MAX <= b <= 2 * COORD_MAX,
    ensures
        r == clamp_coord(a + b),
{
    clamp64(a + b)
}

/// Saturate an already-computed `i64` into the coordinate window.
pub fn clamp64(v: i64) -> (r: i64)
    ensures
        r == clamp_coord(v as int),
{
    if v < -COORD_MAX {
        -COORD_MAX
    } else if v > COORD_MAX {
        COORD_MAX
    } else {
        v
    }
}

/// Exec counterpart of [`div_tz`] for positive divisors.
pub fn div_tz64(a: i64, b: i64) -> (r: i64)
    requires
        b > 0,
        -0x4000_0000_0000_0000 <= a <= 0x4000_0000_0000_0000,
    ensures
        r == div_tz(a as int, b as int),
{
    if a >= 0 {
        a / b
    } else {
        -((-a) / b)
    }
}

#[derive(Clone, Copy, Debug, PartialEq, Eq, Structural)]
pub struct Position {
    pub x: i64,
    pub y: i64,
}

impl Position {
    pub open spec fn wf(self) -> bool {
        coord_ok(self.x as int) && coord_ok(self.y as int)
    }
}

#[derive(Clone, Copy, Debug, PartialEq, Eq, Structural)]
pub struct Size {
    pub w: i64,
    pub h: i64,
}

impl Size {
    pub open spec fn wf(self) -> bool {
        coord_ok(self.w as int) && coord_ok(self.h as int)
    }

    /// Well-formed and nonnegative, as every natural content size is.
    pub open spec fn wf_min(self) -> bool {
        0 <= self.w <= COORD_MAX && 0 <= self.h <= COORD_MAX
    }

    pub open spec fn zero_spec() -> Size {
        Size { w: 0 as i64, h: 0 as i64 }
    }

    #[verifier::when_used_as_spec(zero_spec)]
    pub fn zero() -> (s: Size)
        ensures
            s == Size::zero_spec(),
    {
        Size { w: 0, h: 0 }
    }
}

#[derive(Clone, Copy, Debug, PartialEq, Eq, Structural)]
pub struct Bounds {
    pub x: i64,
    pub y: i64,
    pub size: Size,
}

impl Bounds {
    pub open spec fn wf(self) -> bool {
        coord_ok(self.x as int) && coord_ok(self.y as int) && self.size.wf()
    }

    pub open spec fn contains_spec(self, p: Position) -> bool {
        p.x >= self.x && p.y >= self.y && p.x <= self.x + self.size.w && p.y <= self.y
            + self.size.h
    }

    /// Edge-inclusive point-in-rectangle test.
    pub fn contains(&self, position: Position) -> (r: bool)
        requires
            self.wf(),
        ensures
            r == self.contains_spec(position),
    {
        position.x >= self.x && position.y >= self.y && position.x <= self.x + self.size.w
            && position.y <= self.y + self.size.h
    }

    pub open spec fn zero_spec() -> Bounds {
        Bounds { x: 0 as i64, y: 0 as i64, size: Size { w: 0 as i64, h: 0 as i64 } }
    }

    #[verifier::when_used_as_spec(zero_spec)]
    pub fn zero() -> (b: Bounds)
        ensures
            b == Bounds::zero_spec(),
    {
        Bounds { x: 0, y: 0, size: Size { w: 0, h: 0 } }
    }
}

/// Per-axis fractional multiplier in milli-units; `UNIT` is a factor of one.
#[derive(Clone, Copy, Debug, PartialEq, Eq, Structural)]
pub struct Scale {
    pub x: i64,
    pub y: i64,
}

impl Scale {
    pub open spec fn wf(self) -> bool {
        0 <= self.x <= SCALE_MAX && 0 <= self.y <= SCALE_MAX
    }
}

/// What a length scaled by a milli-unit factor comes to, saturated.
pub open spec fn scaled(v: int, s: int) -> int {
    clamp_coord(div_tz(v * s, UNIT as int))
}

/// The product of two nonnegative numbers stays under the product of their
/// bounds.
pub proof fn lemma_mul_bounds(v: int, s: int, vb: int, sb: int)
    by (nonlinear_arith)
    requires
        0 <= v <= vb,
        0 <= s <= sb,
    ensures
        0 <= v * s <= vb * sb,
{
}

/// Exec counterpart of [`scaled`].
pub fn scale_len(v: i64, s: i64) -> (r: i64)
    requires
        coord_ok(v as int),
        0 <= s <= SCALE_MAX,
    ensures
        r == scaled(v as int, s as int),
{
    if v >= 0 {
        proof {
            lemma_mul_bounds(v as int, s as int, COORD_MAX as int, SCALE_MAX as int);
        }
        clamp64((v * s) / UNIT)
    } else {
        proof {
            lemma_mul_bounds(-v as int, s as int, COORD_MAX as int, SCALE_MAX as int);
            assert((-v as int) * (s as int) == -((v as int) * (s as int))) by (nonlinear_arith);
        }
        clamp64(-(((-v) * s) / UNIT))
    }
}

/// Sizing policy: consume the distributed remainder, or only the natural size.
#[derive(Clone, Copy, Debug, PartialEq, Eq, Structural)]
pub enum Space {
    Fill,
    Minimize,
}

#[derive(Clone, Copy, Debug, PartialEq, Eq, Structural)]
pub enum AnchorX {
    Left,
    Middle,
    Right,
}

#[derive(Clone, Copy, Debug, PartialEq, Eq, Structural)]
pub enum AnchorY {
    Top,
    Middle,
    Bottom,
}

/// Alignment pair selecting a reference point within a rectangle.
#[derive(Clone, Copy, Debug, PartialEq, Eq, Structural)]
pub struct Anchor {
    pub x: AnchorX,
    pub y: AnchorY,
}

impl Anchor {
    /// Where the anchor's reference point sits inside a rectangle of `size`,
    /// horizontally.
    pub open spec fn point_x(self, size: Size) -> int {
        match self.x {
            AnchorX::Left => 0,
            AnchorX::Middle => div_tz(size.w as int, 2),
            AnchorX::Right => size.w as int,
        }
    }

    /// Same, vertically.
    pub open spec fn point_y(self, size: Size) -> int {
        match self.y {
            AnchorY::Top => 0,
            AnchorY::Middle => div_tz(size.h as int, 2),
            AnchorY::Bottom => size.h as int,
        }
    }

    /// Map a rectangle size to the anchor's reference point inside it.
    pub fn get_point(&self, size: Size) -> (p: Position)
        requires
            size.wf(),
        ensures
            p.x == self.point_x(size),
            p.y == self.point_y(size),
            p.wf(),
    {
        let mut position = Position { x: 0, y: 0 };
        match self.x {
            AnchorX::Left => (),
            AnchorX::Middle => {
                position.x = if size.w >= 0 {
                    size.w / 2
                } else {
                    -((-size.w) / 2)
                };
            },
            AnchorX::Right => {
                position.x = size.w;
            },
        }
        match self.y {
            AnchorY::Top => (),
            AnchorY::Middle => {
                position.y = if size.h >= 0 {
                    size.h / 2
                } else {
                    -((-size.h) / 2)
                };
            },
            AnchorY::Bottom => {
                position.y = size.h;
            },
        }
        position
    }

    /// Re-interpret the origin of `bounds` as the location of this anchor's
    /// reference point: the result is shifted so that the anchor point of the
    /// new bounds lands on the original origin, size unchanged.
    pub fn apply_to(&self, bounds: Bounds) -> (r: Bounds)
        requires
            bounds.wf(),
        ensures
            r.x == clamp_coord(bounds.x - self.point_x(bounds.size)),
            r.y == clamp_coord(bounds.y - self.point_y(bounds.size)),
            r.size == bounds.size,
            r.wf(),
    {
        let position = self.get_point(bounds.size);
        Bounds { x: cadd(bounds.x, -position.x), y: cadd(bounds.y, -position.y), size: bounds.size }
    }
}

} // verus!
