//! Points and rectangles in window pixels.

use vstd::prelude::*;

verus! {

#[derive(Clone, Copy, Debug, PartialEq, Eq, Structural)]
pub struct UiPoint {
    pub x: i32,
    pub y: i32,
}

/// A rectangle; it holds its left and top edge, not its right and bottom one.
#[derive(Clone, Copy, Debug, PartialEq, Eq, Structural)]
pub struct UiRect {
    pub x: i32,
    pub y: i32,
    pub width: i32,
    pub height: i32,
}

impl UiRect {
    /// Whether the pixel at a point belongs to the rectangle.
    pub open spec fn covers(self, x: int, y: int) -> bool {
        &&& self.x <= x < self.x + self.width
        &&& self.y <= y < self.y + self.height
    }

    pub fn contains(&self, point: UiPoint) -> (inside: bool)
        ensures
            inside == self.covers(point.x as int, point.y as int),
    {
        let right: i64 = self.x as i64 + self.width as i64;
        let bottom: i64 = self.y as i64 + self.height as i64;
        self.x <= point.x && (point.x as i64) < right && self.y <= point.y && (point.y as i64)
            < bottom
    }
}

/// A rectangle holds its first pixel and its last, and none of those beside it;
/// an empty one holds none.
pub proof fn law_rectangle_holds_its_pixels(rect: UiRect, x: int, y: int)
    ensures
        rect.width > 0 && rect.height > 0 ==> {
            &&& rect.covers(rect.x as int, rect.y as int)
            &&& rect.covers(rect.x + rect.width - 1, rect.y + rect.height - 1)
        },
        !rect.covers(rect.x - 1, y),
        !rect.covers(x, rect.y - 1),
        !rect.covers(rect.x + rect.width, y),
        !rect.covers(x, rect.y + rect.height),
        rect.width <= 0 || rect.height <= 0 ==> !rect.covers(x, y),
{
}

} // verus!
