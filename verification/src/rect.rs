//! Axis-aligned rectangles with inclusive-exclusive extents, used for cursor
//! image extents, damage regions and window geometry.

use vstd::prelude::*;

verus! {

/// A rectangle spanning `x1..x2` horizontally and `y1..y2` vertically.
/// Well-formed rectangles never have negative width or height.
#[derive(Copy, Clone, Debug, PartialEq, Eq, Structural)]
pub struct Rect {
    pub x1: i32,
    pub y1: i32,
    pub x2: i32,
    pub y2: i32,
}

impl Rect {
    /// Well-formedness: the corners are ordered and the side lengths are
    /// representable.
    pub open spec fn wf(self) -> bool {
        &&& self.x1 <= self.x2
        &&& self.y1 <= self.y2
        &&& self.x2 - self.x1 <= i32::MAX
        &&& self.y2 - self.y1 <= i32::MAX
    }

    pub open spec fn spec_x1(self) -> i32 {
        self.x1
    }

    pub open spec fn spec_y1(self) -> i32 {
        self.y1
    }

    pub open spec fn spec_x2(self) -> i32 {
        self.x2
    }

    pub open spec fn spec_y2(self) -> i32 {
        self.y2
    }

    pub open spec fn spec_width(self) -> int {
        self.x2 - self.x1
    }

    pub open spec fn spec_height(self) -> int {
        self.y2 - self.y1
    }

    /// Two rectangles overlap in a region of positive area.
    pub open spec fn spec_intersects(self, other: Rect) -> bool {
        self.x1 < other.x2 && other.x1 < self.x2 && self.y1 < other.y2 && other.y1 < self.y2
    }

    /// A rectangle of the given position and size, or `None` when the size is
    /// negative or a corner does not fit in `i32`.
    pub fn new_sized(x: i32, y: i32, width: i32, height: i32) -> (r: Option<Rect>)
        ensures
            match r {
                Some(rect) => {
                    &&& width >= 0
                    &&& height >= 0
                    &&& x + width <= i32::MAX
                    &&& y + height <= i32::MAX
                    &&& rect.x1 == x
                    &&& rect.y1 == y
                    &&& rect.x2 == x + width
                    &&& rect.y2 == y + height
                    &&& rect.wf()
                },
                None => width < 0 || height < 0 || x + width > i32::MAX || y + height > i32::MAX,
            },
    {
        if width < 0 || height < 0 {
            return None;
        }
        let x2 = x.checked_add(width)?;
        let y2 = y.checked_add(height)?;
        Some(Rect { x1: x, y1: y, x2, y2 })
    }

    /// The empty rectangle at a point.
    pub fn new_empty(x: i32, y: i32) -> (r: Rect)
        ensures
            r.x1 == x && r.y1 == y && r.x2 == x && r.y2 == y,
            r.wf(),
    {
        Rect { x1: x, y1: y, x2: x, y2: y }
    }

    pub fn x1(&self) -> (r: i32)
        ensures
            r == self.x1,
    {
        self.x1
    }

    pub fn y1(&self) -> (r: i32)
        ensures
            r == self.y1,
    {
        self.y1
    }

    pub fn x2(&self) -> (r: i32)
        ensures
            r == self.x2,
    {
        self.x2
    }

    pub fn y2(&self) -> (r: i32)
        ensures
            r == self.y2,
    {
        self.y2
    }

    /// The position of the top-left corner.
    pub fn position(&self) -> (r: (i32, i32))
        ensures
            r.0 == self.x1 && r.1 == self.y1,
    {
        (self.x1, self.y1)
    }

    pub fn width(&self) -> (r: i32)
        requires
            self.wf(),
        ensures
            r == self.spec_width(),
    {
        self.x2 - self.x1
    }

    pub fn height(&self) -> (r: i32)
        requires
            self.wf(),
        ensures
            r == self.spec_height(),
    {
        self.y2 - self.y1
    }

    pub fn is_empty(&self) -> (r: bool)
        requires
            self.wf(),
        ensures
            r == (self.spec_width() == 0 || self.spec_height() == 0),
    {
        self.x1 == self.x2 || self.y1 == self.y2
    }

    /// The rectangle translated by `(dx, dy)`.
    pub fn move_(&self, dx: i32, dy: i32) -> (r: Rect)
        requires
            i32::MIN <= self.x1 + dx <= i32::MAX,
            i32::MIN <= self.x2 + dx <= i32::MAX,
            i32::MIN <= self.y1 + dy <= i32::MAX,
            i32::MIN <= self.y2 + dy <= i32::MAX,
        ensures
            r.x1 == self.x1 + dx,
            r.y1 == self.y1 + dy,
            r.x2 == self.x2 + dx,
            r.y2 == self.y2 + dy,
            self.wf() ==> r.wf(),
    {
        Rect { x1: self.x1 + dx, y1: self.y1 + dy, x2: self.x2 + dx, y2: self.y2 + dy }
    }

    /// Whether the two rectangles overlap in a region of positive area.
    pub fn intersects(&self, other: &Rect) -> (r: bool)
        ensures
            r == self.spec_intersects(*other),
    {
        self.x1 < other.x2 && other.x1 < self.x2 && self.y1 < other.y2 && other.y1 < self.y2
    }

    /// The intersection of two rectangles: the overlapping region when one
    /// exists, otherwise an empty rectangle at the clamped corner.
    pub open spec fn spec_intersect(self, other: Rect) -> Rect {
        let ix1 = if self.x1 >= other.x1 {
            self.x1
        } else {
            other.x1
        };
        let iy1 = if self.y1 >= other.y1 {
            self.y1
        } else {
            other.y1
        };
        let ix2 = if self.x2 <= other.x2 {
            self.x2
        } else {
            other.x2
        };
        let iy2 = if self.y2 <= other.y2 {
            self.y2
        } else {
            other.y2
        };
        if ix1 < ix2 && iy1 < iy2 {
            Rect { x1: ix1, y1: iy1, x2: ix2, y2: iy2 }
        } else {
            Rect { x1: ix1, y1: iy1, x2: ix1, y2: iy1 }
        }
    }

    /// The intersection, clamped to an empty rectangle when the two do not
    /// overlap.
    pub fn intersect(&self, other: Rect) -> (r: Rect)
        requires
            self.wf(),
            other.wf(),
        ensures
            r == self.spec_intersect(other),
            r.wf(),
    {
        let x1 = if self.x1 >= other.x1 {
            self.x1
        } else {
            other.x1
        };
        let y1 = if self.y1 >= other.y1 {
            self.y1
        } else {
            other.y1
        };
        let x2 = if self.x2 <= other.x2 {
            self.x2
        } else {
            other.x2
        };
        let y2 = if self.y2 <= other.y2 {
            self.y2
        } else {
            other.y2
        };
        if x1 < x2 && y1 < y2 {
            Rect { x1, y1, x2, y2 }
        } else {
            Rect { x1, y1: y1, x2: x1, y2: y1 }
        }
    }
}

} // verus!
