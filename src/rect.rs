use vstd::prelude::*;

verus! {

/// An axis-aligned rectangle of tiles, used to lay out rooms.
/// The corners are inclusive: `(x1, y1)` and `(x2, y2)` both belong to it.
#[derive(Debug, Clone, Copy, PartialEq, Eq, Structural)]
pub struct Rect {
    pub x1: i32,
    pub y1: i32,
    pub x2: i32,
    pub y2: i32,
}

/// Inclusive overlap of two rectangles: rectangles that merely share a border overlap.
pub open spec fn rects_overlap(a: Rect, b: Rect) -> bool {
    a.x1 <= b.x2 && a.x2 >= b.x1 && a.y1 <= b.y2 && a.y2 >= b.y1
}

/// Half of `v`, rounded toward zero as integer division does.
pub open spec fn half(v: int) -> int {
    if v >= 0 {
        v / 2
    } else {
        -((-v) / 2)
    }
}

/// The center of a rectangle, rounded toward zero on each axis.
pub open spec fn center_of(r: Rect) -> (int, int) {
    (half(r.x1 + r.x2), half(r.y1 + r.y2))
}

/// Whether `(x, y)` lies strictly inside `r`, off its one-tile wall border.
pub open spec fn interior_contains(r: Rect, x: int, y: int) -> bool {
    r.x1 < x < r.x2 && r.y1 < y < r.y2
}

impl Rect {
    /// A rectangle with top-left corner `(x, y)`, `w` tiles wide and `h` tiles high.
    pub fn new(x: i32, y: i32, w: i32, h: i32) -> (r: Rect)
        requires
            i32::MIN <= x + w <= i32::MAX,
            i32::MIN <= y + h <= i32::MAX,
        ensures
            r == (Rect { x1: x, y1: y, x2: (x + w) as i32, y2: (y + h) as i32 }),
    {
        Rect { x1: x, y1: y, x2: x + w, y2: y + h }
    }

    /// The coordinates of the rectangle's center.
    pub fn get_center(&self) -> (c: (i32, i32))
        ensures
            c.0 == center_of(*self).0,
            c.1 == center_of(*self).1,
    {
        let cx = ((self.x1 as i64 + self.x2 as i64) / 2) as i32;
        let cy = ((self.y1 as i64 + self.y2 as i64) / 2) as i32;
        (cx, cy)
    }

    /// Whether this rectangle overlaps `other`, edges included.
    pub fn intersects_with(&self, other: &Rect) -> (b: bool)
        ensures
            b == rects_overlap(*self, *other),
    {
        (self.x1 <= other.x2) && (self.x2 >= other.x1) && (self.y1 <= other.y2) && (self.y2
            >= other.y1)
    }
}

} // verus!
