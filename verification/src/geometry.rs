//! Positions and rectangles.
//!
//! Two units are in use. The points of an outline, and the point where a text
//! starts, are measured in thousandths of a pixel ([`Point`]). The bounding box of
//! a glyph lies on pixel boundaries, so its corners are measured in whole pixels
//! ([`Pixel`]). Both use `i32`, so `1000 * pixel + point` always fits in an `i64`.

use vstd::prelude::*;

verus! {

/// The number of [`Point`] units in one pixel.
pub const UNITS_PER_PIXEL: i32 = 1000;

/// A position in thousandths of a pixel. The y axis points down.
#[derive(Clone, Copy, Debug, PartialEq, Eq, Structural)]
pub struct Point {
    pub x: i32,
    pub y: i32,
}

/// A position on the pixel grid, in whole pixels. The y axis points down.
#[derive(Clone, Copy, Debug, PartialEq, Eq, Structural)]
pub struct Pixel {
    pub x: i32,
    pub y: i32,
}

/// A rectangle on the pixel grid, with its top-left corner at `min` and its
/// bottom-right corner at `max`.
#[derive(Clone, Copy, Debug, PartialEq, Eq, Structural)]
pub struct Rect {
    pub min: Pixel,
    pub max: Pixel,
}

impl Rect {
    /// Whether `min` is at or before `max` on both axes.
    pub open spec fn is_ordered(self) -> bool {
        self.min.x <= self.max.x && self.min.y <= self.max.y
    }

    /// Whether `other` lies inside `self`, edges included.
    pub open spec fn covers(self, other: Rect) -> bool {
        &&& self.min.x <= other.min.x
        &&& self.min.y <= other.min.y
        &&& other.max.x <= self.max.x
        &&& other.max.y <= self.max.y
    }

    /// Whether `self` is `other` moved by `dx` pixels to the right and `dy` pixels down.
    pub open spec fn is_shift_of(self, other: Rect, dx: int, dy: int) -> bool {
        &&& self.min.x == other.min.x + dx
        &&& self.min.y == other.min.y + dy
        &&& self.max.x == other.max.x + dx
        &&& self.max.y == other.max.y + dy
    }

    /// The union of two rectangles: the smaller of each `min` coordinate and the
    /// larger of each `max` coordinate.
    pub open spec fn spec_union(self, other: Rect) -> Rect {
        Rect {
            min: Pixel {
                x: if self.min.x <= other.min.x { self.min.x } else { other.min.x },
                y: if self.min.y <= other.min.y { self.min.y } else { other.min.y },
            },
            max: Pixel {
                x: if self.max.x >= other.max.x { self.max.x } else { other.max.x },
                y: if self.max.y >= other.max.y { self.max.y } else { other.max.y },
            },
        }
    }

    /// The union covers both rectangles, and each of its edges is an edge of one
    /// of them. Where one of the two is ordered, so is the union.
    pub proof fn lemma_union_is_the_least_cover(self, other: Rect)
        ensures
            self.spec_union(other).covers(self),
            self.spec_union(other).covers(other),
            forall|r: Rect| r.covers(self) && r.covers(other) ==> r.covers(self.spec_union(other)),
            self.is_ordered() || other.is_ordered() ==> self.spec_union(other).is_ordered(),
    {
    }

    /// The union of two rectangles.
    #[verifier::when_used_as_spec(spec_union)]
    pub fn union(self, other: Rect) -> (r: Rect)
        ensures
            r == self.spec_union(other),
    {
        Rect {
            min: Pixel {
                x: if self.min.x <= other.min.x { self.min.x } else { other.min.x },
                y: if self.min.y <= other.min.y { self.min.y } else { other.min.y },
            },
            max: Pixel {
                x: if self.max.x >= other.max.x { self.max.x } else { other.max.x },
                y: if self.max.y >= other.max.y { self.max.y } else { other.max.y },
            },
        }
    }
}

/// The bounding box `bounds` of what was seen so far, grown to hold `next`.
/// `None` is the box of nothing.
pub open spec fn spec_enclose(bounds: Option<Rect>, next: Rect) -> Option<Rect> {
    match bounds {
        None => Some(next),
        Some(seen) => Some(seen.spec_union(next)),
    }
}

/// Grows a bounding box to hold `next`.
#[verifier::when_used_as_spec(spec_enclose)]
pub fn enclose(bounds: Option<Rect>, next: Rect) -> (r: Option<Rect>)
    ensures
        r == spec_enclose(bounds, next),
{
    match bounds {
        None => Some(next),
        Some(seen) => Some(seen.union(next)),
    }
}

} // verus!
