//! Integer points, vectors and axis-aligned rectangles used by the GUI.
use vstd::prelude::*;

verus! {

/// Whether an integer fits in `i32`.
pub open spec fn fits_i32(v: int) -> bool {
    i32::MIN <= v <= i32::MAX
}

/// Two dimensional integer vector (also used as a point).
#[derive(Copy, Clone, Debug, PartialEq, Eq, Default, Structural)]
pub struct Vec2i {
    pub x: i32,
    pub y: i32,
}

impl Vec2i {
    /// Constructs a new vector.
    pub fn new(x: i32, y: i32) -> (r: Vec2i)
        ensures
            r == (Vec2i { x, y }),
    {
        Vec2i { x, y }
    }

    /// The zero vector.
    pub fn zero() -> (r: Vec2i)
        ensures
            r == (Vec2i { x: 0, y: 0 }),
    {
        Vec2i { x: 0, y: 0 }
    }

    /// Whether `self + rhs` does not overflow.
    pub open spec fn can_add(self, rhs: Vec2i) -> bool {
        fits_i32(self.x + rhs.x) && fits_i32(self.y + rhs.y)
    }

    /// Whether `self - rhs` does not overflow.
    pub open spec fn can_sub(self, rhs: Vec2i) -> bool {
        fits_i32(self.x - rhs.x) && fits_i32(self.y - rhs.y)
    }

    /// Component-wise sum.
    pub fn add(self, rhs: Vec2i) -> (r: Vec2i)
        requires
            self.can_add(rhs),
        ensures
            r.x == self.x + rhs.x,
            r.y == self.y + rhs.y,
    {
        Vec2i { x: self.x + rhs.x, y: self.y + rhs.y }
    }

    /// Component-wise difference.
    pub fn sub(self, rhs: Vec2i) -> (r: Vec2i)
        requires
            self.can_sub(rhs),
        ensures
            r.x == self.x - rhs.x,
            r.y == self.y - rhs.y,
    {
        Vec2i { x: self.x - rhs.x, y: self.y - rhs.y }
    }
}

/// Axis-aligned integer rectangle from `mins` (inclusive) to `maxs`.
#[derive(Copy, Clone, Debug, PartialEq, Eq, Default, Structural)]
pub struct Bounds2i {
    pub mins: Vec2i,
    pub maxs: Vec2i,
}

/// Rectangle with the given corner coordinates.
pub open spec fn rect(x0: int, y0: int, x1: int, y1: int) -> Bounds2i {
    Bounds2i { mins: Vec2i { x: x0 as i32, y: y0 as i32 }, maxs: Vec2i { x: x1 as i32, y: y1 as i32 } }
}

impl Bounds2i {
    /// Constructs a rectangle from its corners.
    pub fn new(mins: Vec2i, maxs: Vec2i) -> (r: Bounds2i)
        ensures
            r == (Bounds2i { mins, maxs }),
    {
        Bounds2i { mins, maxs }
    }

    /// Constructs a rectangle from its corner coordinates.
    pub fn from_coords(x0: i32, y0: i32, x1: i32, y1: i32) -> (r: Bounds2i)
        ensures
            r == rect(x0 as int, y0 as int, x1 as int, y1 as int),
    {
        Bounds2i { mins: Vec2i { x: x0, y: y0 }, maxs: Vec2i { x: x1, y: y1 } }
    }

    /// The rectangle from the origin to `size`.
    pub fn vec(size: Vec2i) -> (r: Bounds2i)
        ensures
            r == (Bounds2i { mins: Vec2i { x: 0, y: 0 }, maxs: size }),
    {
        Bounds2i { mins: Vec2i { x: 0, y: 0 }, maxs: size }
    }

    /// The zero rectangle.
    pub fn zero() -> (r: Bounds2i)
        ensures
            r == rect(0, 0, 0, 0),
    {
        Bounds2i { mins: Vec2i { x: 0, y: 0 }, maxs: Vec2i { x: 0, y: 0 } }
    }

    pub open spec fn spec_width(self) -> int {
        self.maxs.x - self.mins.x
    }

    pub open spec fn spec_height(self) -> int {
        self.maxs.y - self.mins.y
    }

    /// Whether width and height fit in `i32`.
    pub open spec fn size_fits(self) -> bool {
        fits_i32(self.spec_width()) && fits_i32(self.spec_height())
    }

    /// X coordinate of the left side.
    pub fn left(&self) -> (r: i32)
        ensures
            r == self.mins.x,
    {
        self.mins.x
    }

    /// Y coordinate of the top side.
    pub fn top(&self) -> (r: i32)
        ensures
            r == self.mins.y,
    {
        self.mins.y
    }

    /// X coordinate of the right side.
    pub fn right(&self) -> (r: i32)
        ensures
            r == self.maxs.x,
    {
        self.maxs.x
    }

    /// Y coordinate of the bottom side.
    pub fn bottom(&self) -> (r: i32)
        ensures
            r == self.maxs.y,
    {
        self.maxs.y
    }

    /// Width of the rectangle.
    pub fn width(&self) -> (r: i32)
        requires
            fits_i32(self.spec_width()),
        ensures
            r == self.spec_width(),
    {
        self.maxs.x - self.mins.x
    }

    /// Height of the rectangle.
    pub fn height(&self) -> (r: i32)
        requires
            fits_i32(self.spec_height()),
        ensures
            r == self.spec_height(),
    {
        self.maxs.y - self.mins.y
    }

    /// Size of the rectangle.
    pub fn size(&self) -> (r: Vec2i)
        requires
            self.size_fits(),
        ensures
            r.x == self.spec_width(),
            r.y == self.spec_height(),
    {
        Vec2i { x: self.maxs.x - self.mins.x, y: self.maxs.y - self.mins.y }
    }

    /// Whether the point lies inside (edges included).
    pub open spec fn spec_contains(self, p: Vec2i) -> bool {
        self.mins.x <= p.x && self.mins.y <= p.y && p.x <= self.maxs.x && p.y <= self.maxs.y
    }

    /// Returns whether the point `p` is contained within `self` (edges included).
    pub fn contains(&self, p: Vec2i) -> (r: bool)
        ensures
            r == self.spec_contains(p),
    {
        p.x >= self.mins.x && p.y >= self.mins.y && p.x <= self.maxs.x && p.y <= self.maxs.y
    }

    /// Whether translating by `v` does not overflow.
    pub open spec fn can_translate(self, v: Vec2i) -> bool {
        self.mins.can_add(v) && self.maxs.can_add(v)
    }

    /// The rectangle moved by `v`.
    pub open spec fn spec_translate(self, v: Vec2i) -> Bounds2i {
        rect(self.mins.x + v.x, self.mins.y + v.y, self.maxs.x + v.x, self.maxs.y + v.y)
    }

    /// Returns the rectangle moved by `v`.
    pub fn translate(&self, v: Vec2i) -> (r: Bounds2i)
        requires
            self.can_translate(v),
        ensures
            r == self.spec_translate(v),
    {
        Bounds2i { mins: self.mins.add(v), maxs: self.maxs.add(v) }
    }

    /// The rectangle shrunk by `amount` on every side.
    pub open spec fn spec_inset(self, amount: int) -> Bounds2i {
        rect(self.mins.x + amount, self.mins.y + amount, self.maxs.x - amount, self.maxs.y - amount)
    }

    /// Returns the rectangle inset by the given amount in all directions.
    pub fn inset(&self, amount: i32) -> (r: Bounds2i)
        requires
            fits_i32(self.mins.x + amount),
            fits_i32(self.mins.y + amount),
            fits_i32(self.maxs.x - amount),
            fits_i32(self.maxs.y - amount),
        ensures
            r == self.spec_inset(amount as int),
    {
        Bounds2i {
            mins: Vec2i { x: self.mins.x + amount, y: self.mins.y + amount },
            maxs: Vec2i { x: self.maxs.x - amount, y: self.maxs.y - amount },
        }
    }

    /// The overlapping area, if any.
    pub open spec fn spec_intersect(self, rhs: Bounds2i) -> Option<Bounds2i> {
        let x0 = if self.mins.x >= rhs.mins.x { self.mins.x } else { rhs.mins.x };
        let y0 = if self.mins.y >= rhs.mins.y { self.mins.y } else { rhs.mins.y };
        let x1 = if self.maxs.x <= rhs.maxs.x { self.maxs.x } else { rhs.maxs.x };
        let y1 = if self.maxs.y <= rhs.maxs.y { self.maxs.y } else { rhs.maxs.y };
        if x0 <= x1 && y0 <= y1 {
            Some(Bounds2i { mins: Vec2i { x: x0, y: y0 }, maxs: Vec2i { x: x1, y: y1 } })
        } else {
            None
        }
    }

    /// Returns the overlapping area (if any) between `rhs` and `self`.
    pub fn intersect(&self, rhs: Bounds2i) -> (r: Option<Bounds2i>)
        ensures
            r == self.spec_intersect(rhs),
    {
        let x0 = if self.mins.x >= rhs.mins.x { self.mins.x } else { rhs.mins.x };
        let y0 = if self.mins.y >= rhs.mins.y { self.mins.y } else { rhs.mins.y };
        let x1 = if self.maxs.x <= rhs.maxs.x { self.maxs.x } else { rhs.maxs.x };
        let y1 = if self.maxs.y <= rhs.maxs.y { self.maxs.y } else { rhs.maxs.y };
        if x0 <= x1 && y0 <= y1 {
            Some(Bounds2i { mins: Vec2i { x: x0, y: y0 }, maxs: Vec2i { x: x1, y: y1 } })
        } else {
            None
        }
    }
}

/// Whether the point `(x, y)` lies inside `b` (edges included).
pub open spec fn contains_at(b: Bounds2i, x: int, y: int) -> bool {
    b.mins.x <= x && b.mins.y <= y && x <= b.maxs.x && y <= b.maxs.y
}

/// The part of `local`, given relative to `parent.mins`, that lies inside `parent`.
pub open spec fn clip_to_parent(local: Bounds2i, parent: Bounds2i) -> Option<Bounds2i> {
    let x0 = spec_max(local.mins.x + parent.mins.x, parent.mins.x as int);
    let y0 = spec_max(local.mins.y + parent.mins.y, parent.mins.y as int);
    let x1 = spec_min(local.maxs.x + parent.mins.x, parent.maxs.x as int);
    let y1 = spec_min(local.maxs.y + parent.mins.y, parent.maxs.y as int);
    if x0 <= x1 && y0 <= y1 {
        Some(rect(x0, y0, x1, y1))
    } else {
        None
    }
}

/// Clipping a child to its parent is moving it by the parent's corner and
/// intersecting it with the parent, wherever the move does not overflow.
pub proof fn law_clip_is_translate_then_intersect(local: Bounds2i, parent: Bounds2i)
    requires
        local.can_translate(parent.mins),
    ensures
        clip_to_parent(local, parent) == local.spec_translate(parent.mins).spec_intersect(parent),
{
}

/// Returns the part of `local`, given relative to `parent.mins`, that lies inside `parent`.
pub fn clip_child(local: Bounds2i, parent: Bounds2i) -> (r: Option<Bounds2i>)
    ensures
        r == clip_to_parent(local, parent),
{
    let px = parent.mins.x as i64;
    let py = parent.mins.y as i64;
    let ax = local.mins.x as i64 + px;
    let ay = local.mins.y as i64 + py;
    let bx = local.maxs.x as i64 + px;
    let by = local.maxs.y as i64 + py;
    let x0 = if ax >= px { ax } else { px };
    let y0 = if ay >= py { ay } else { py };
    let x1 = if bx <= parent.maxs.x as i64 { bx } else { parent.maxs.x as i64 };
    let y1 = if by <= parent.maxs.y as i64 { by } else { parent.maxs.y as i64 };
    if x0 <= x1 && y0 <= y1 {
        Some(Bounds2i { mins: Vec2i { x: x0 as i32, y: y0 as i32 }, maxs: Vec2i { x: x1 as i32, y: y1 as i32 } })
    } else {
        None
    }
}

/// `value` limited to `[lo, hi]`, as `Ord::clamp` computes it.
pub open spec fn spec_clamp(value: int, lo: int, hi: int) -> int {
    if value < lo { lo } else if value > hi { hi } else { value }
}

/// Limits `value` to `[lo, hi]`; `lo` must not exceed `hi`.
pub fn clamp_i32(value: i32, lo: i32, hi: i32) -> (r: i32)
    requires
        lo <= hi,
    ensures
        r == spec_clamp(value as int, lo as int, hi as int),
{
    if value < lo { lo } else if value > hi { hi } else { value }
}

/// The larger of two integers.
pub open spec fn spec_max(a: int, b: int) -> int {
    if a >= b { a } else { b }
}

/// The smaller of two integers.
pub open spec fn spec_min(a: int, b: int) -> int {
    if a <= b { a } else { b }
}

/// Returns the larger of two integers.
pub fn max_i32(a: i32, b: i32) -> (r: i32)
    ensures
        r == spec_max(a as int, b as int),
{
    if a >= b { a } else { b }
}

/// Returns the smaller of two integers.
pub fn min_i32(a: i32, b: i32) -> (r: i32)
    ensures
        r == spec_min(a as int, b as int),
{
    if a <= b { a } else { b }
}

} // verus!
