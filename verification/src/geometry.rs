//! Points, sizes and rectangles on the infinite canvas.
//!
//! Coordinates are 64-bit integers. Sums of two coordinates are taken in 128 bits, so no
//! placement on the canvas can overflow.

use vstd::prelude::*;

verus! {

/// Half of `v`, rounded toward zero.
pub open spec fn half(v: int) -> int {
    if v >= 0 {
        v / 2
    } else {
        -((-v) / 2)
    }
}

/// The coordinate nearest to `v`.
pub open spec fn saturated(v: int) -> int {
    if v > i64::MAX {
        i64::MAX as int
    } else if v < i64::MIN {
        i64::MIN as int
    } else {
        v
    }
}

/// The coordinate nearest to `v`.
pub fn saturate(v: i128) -> (r: i64)
    ensures
        r == saturated(v as int),
{
    if v > i64::MAX as i128 {
        i64::MAX
    } else if v < i64::MIN as i128 {
        i64::MIN
    } else {
        v as i64
    }
}

#[derive(Clone, Copy, Debug, Eq, PartialEq, Structural)]
pub struct Point {
    pub x: i64,
    pub y: i64,
}

impl Point {
    /// The point (0, 0).
    pub fn origin() -> (r: Self)
        ensures
            r == (Point { x: 0, y: 0 }),
    {
        Point { x: 0, y: 0 }
    }

    pub fn new(x: i64, y: i64) -> (r: Self)
        ensures
            r == (Point { x, y }),
    {
        Point { x, y }
    }
}

impl Default for Point {
    fn default() -> (r: Self)
        ensures
            r == (Point { x: 0, y: 0 }),
    {
        Point { x: 0, y: 0 }
    }
}

#[derive(Clone, Copy, Debug, Eq, PartialEq, Structural)]
pub struct Size {
    pub width: i64,
    pub height: i64,
}

impl Size {
    pub fn new(width: i64, height: i64) -> (r: Self)
        ensures
            r == (Size { width, height }),
    {
        Size { width, height }
    }

    pub open spec fn valid(self) -> bool {
        self.width > 0 && self.height > 0
    }

    /// Whether both extents are positive.
    pub fn is_valid(self) -> (r: bool)
        ensures
            r == self.valid(),
    {
        self.width > 0 && self.height > 0
    }
}

impl Default for Size {
    fn default() -> (r: Self)
        ensures
            r == (Size { width: 0, height: 0 }),
    {
        Size { width: 0, height: 0 }
    }
}

/// A rectangle: the points from `origin` up to, and without, `origin + size`.
#[derive(Clone, Copy, Debug, Eq, PartialEq, Structural)]
pub struct Rect {
    pub origin: Point,
    pub size: Size,
}

impl Default for Rect {
    fn default() -> (r: Self)
        ensures
            r == (Rect { origin: Point { x: 0, y: 0 }, size: Size { width: 0, height: 0 } }),
    {
        Rect { origin: Point { x: 0, y: 0 }, size: Size { width: 0, height: 0 } }
    }
}

/// Half of an extent, rounded toward zero.
fn half_extent(v: i64) -> (r: i64)
    ensures
        r == half(v as int),
{
    if v >= 0 {
        v / 2
    } else {
        let magnitude: i128 = -(v as i128);
        (-(magnitude / 2)) as i64
    }
}

impl Rect {
    pub fn new(x: i64, y: i64, width: i64, height: i64) -> (r: Self)
        ensures
            r == (Rect { origin: Point { x, y }, size: Size { width, height } }),
    {
        Rect { origin: Point { x, y }, size: Size { width, height } }
    }

    /// The rectangle of `size` whose centre is `center`.
    pub open spec fn around(center: Point, size: Size) -> Self {
        Rect {
            origin: Point {
                x: saturated(center.x - half(size.width as int)) as i64,
                y: saturated(center.y - half(size.height as int)) as i64,
            },
            size,
        }
    }

    pub fn centered_at(center: Point, size: Size) -> (r: Self)
        ensures
            r == Self::around(center, size),
    {
        let x: i64 = saturate(center.x as i128 - half_extent(size.width) as i128);
        let y: i64 = saturate(center.y as i128 - half_extent(size.height) as i128);
        Rect { origin: Point { x, y }, size }
    }

    pub open spec fn middle(self) -> Point {
        Point {
            x: saturated(self.origin.x + half(self.size.width as int)) as i64,
            y: saturated(self.origin.y + half(self.size.height as int)) as i64,
        }
    }

    pub fn center(self) -> (r: Point)
        ensures
            r == self.middle(),
    {
        let x: i64 = saturate(self.origin.x as i128 + half_extent(self.size.width) as i128);
        let y: i64 = saturate(self.origin.y as i128 + half_extent(self.size.height) as i128);
        Point { x, y }
    }

    pub open spec fn moved_to(self, to: Point) -> Self {
        Rect { origin: to, size: self.size }
    }

    /// The rectangle of the same size whose origin is (`x`, `y`).
    pub fn translated(self, x: i64, y: i64) -> (r: Self)
        ensures
            r == self.moved_to(Point { x, y }),
    {
        Rect { origin: Point { x, y }, size: self.size }
    }

    /// Whether fewer than `gap` units (zero, where `gap` is negative) lie between the two
    /// rectangles on both axes.
    pub open spec fn conflicting(self, other: Self, gap: int) -> bool {
        let g = if gap > 0 {
            gap
        } else {
            0
        };
        &&& self.origin.x < other.origin.x + other.size.width + g
        &&& other.origin.x < self.origin.x + self.size.width + g
        &&& self.origin.y < other.origin.y + other.size.height + g
        &&& other.origin.y < self.origin.y + self.size.height + g
    }

    pub fn conflicts(self, other: Self, gap: i64) -> (r: bool)
        ensures
            r == self.conflicting(other, gap as int),
    {
        let gap: i128 = if gap > 0 {
            gap as i128
        } else {
            0
        };
        let left: i128 = self.origin.x as i128;
        let top: i128 = self.origin.y as i128;
        let right: i128 = left + self.size.width as i128;
        let bottom: i128 = top + self.size.height as i128;
        let other_left: i128 = other.origin.x as i128;
        let other_top: i128 = other.origin.y as i128;
        let other_right: i128 = other_left + other.size.width as i128;
        let other_bottom: i128 = other_top + other.size.height as i128;
        left < other_right + gap && right + gap > other_left && top < other_bottom + gap && bottom
            + gap > other_top
    }

    /// Two rectangles conflict or not, whichever of them is asked.
    pub proof fn conflict_is_symmetric(self, other: Self, gap: int)
        ensures
            self.conflicting(other, gap) == other.conflicting(self, gap),
    {
    }

    /// Rectangles that keep a gap keep every smaller one.
    pub proof fn smaller_gap_keeps_clear(self, other: Self, gap: int, smaller: int)
        requires
            smaller <= gap,
            !self.conflicting(other, gap),
        ensures
            !self.conflicting(other, smaller),
    {
    }

    /// A rectangle placed around a point is centred on it, wherever the canvas has room for
    /// both of its edges.
    pub proof fn around_is_centered(center: Point, size: Size)
        requires
            i64::MIN <= center.x - half(size.width as int) <= i64::MAX,
            i64::MIN <= center.y - half(size.height as int) <= i64::MAX,
        ensures
            Self::around(center, size).middle() == center,
            Self::around(center, size).size == size,
    {
    }
}

/// A vector of the plane. The components are the bit patterns of IEEE 754 binary64 numbers: the
/// library hands directions on and compares them, and does no arithmetic on them. Where a direction
/// has to be normalized, the vector that this gives is handed in beside it.
#[derive(Clone, Copy, Debug, Eq, PartialEq, Structural)]
pub struct Direction {
    pub x_bits: u64,
    pub y_bits: u64,
}

impl Direction {
    pub open spec fn rightward() -> Self {
        Direction { x_bits: 0x3ff0_0000_0000_0000, y_bits: 0 }
    }

    /// The vector (1, 0).
    pub fn right() -> (r: Self)
        ensures
            r == Self::rightward(),
    {
        Direction { x_bits: 0x3ff0_0000_0000_0000, y_bits: 0 }
    }
}

} // verus!
