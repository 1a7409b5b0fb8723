//! Fixed-point 2D geometry: vectors, axis-aligned rectangles and the
//! saturating arithmetic that keeps every coordinate inside the world.
use vstd::prelude::*;

verus! {

/// Sub-pixel units in one pixel: every length, position and velocity is an
/// integer count of these.
pub const UNIT: i64 = 1000;

/// Largest magnitude a coordinate, a length or a velocity may take. Results
/// that would leave `[-COORD_LIMIT, COORD_LIMIT]` saturate at its ends.
pub const COORD_LIMIT: i64 = 1_099_511_627_776;

/// Bound on the intermediate values that rectangle arithmetic works with.
pub const WIDE_LIMIT: i64 = 1_152_921_504_606_846_976;

/// `v` lies inside the world.
pub open spec fn in_range(v: int) -> bool {
    -COORD_LIMIT <= v <= COORD_LIMIT
}

/// `v` lies inside the range that offsets and intersections accept.
pub open spec fn in_wide_range(v: int) -> bool {
    -WIDE_LIMIT <= v <= WIDE_LIMIT
}

/// `v` moved to the nearest value inside the world.
pub open spec fn clamp(v: int) -> int {
    if v > COORD_LIMIT {
        COORD_LIMIT as int
    } else if v < -COORD_LIMIT {
        -COORD_LIMIT
    } else {
        v
    }
}

/// Saturates a wide intermediate value to the world's range.
pub fn saturate(v: i128) -> (r: i64)
    ensures
        r == clamp(v as int),
{
    if v > COORD_LIMIT as i128 {
        COORD_LIMIT
    } else if v < -(COORD_LIMIT as i128) {
        -COORD_LIMIT
    } else {
        v as i64
    }
}

/// One of the two directions along which collisions are resolved.
#[derive(Clone, Copy, Debug, PartialEq, Eq, Structural)]
pub enum Axis {
    X,
    Y,
}

/// A vector in sub-pixel units.
#[derive(Clone, Copy, Debug, PartialEq, Eq, Structural)]
pub struct Vec2 {
    pub x: i64,
    pub y: i64,
}

impl Vec2 {
    pub fn new(x: i64, y: i64) -> (r: Vec2)
        ensures
            r.x == x,
            r.y == y,
    {
        Vec2 { x, y }
    }

    pub fn zero() -> (r: Vec2)
        ensures
            r.x == 0,
            r.y == 0,
    {
        Vec2 { x: 0, y: 0 }
    }

    /// Both components lie inside the world.
    pub open spec fn wf(&self) -> bool {
        in_range(self.x as int) && in_range(self.y as int)
    }

    /// The component along `axis`, that is the dot product with its unit vector.
    pub open spec fn along(&self, axis: Axis) -> i64 {
        match axis {
            Axis::X => self.x,
            Axis::Y => self.y,
        }
    }

    /// This vector with its component along `axis` replaced by `v`.
    pub open spec fn with_along(&self, axis: Axis, v: i64) -> Vec2 {
        match axis {
            Axis::X => Vec2 { x: v, y: self.y },
            Axis::Y => Vec2 { x: self.x, y: v },
        }
    }

    /// The component along `axis`.
    pub fn component(&self, axis: Axis) -> (r: i64)
        ensures
            r == self.along(axis),
    {
        match axis {
            Axis::X => self.x,
            Axis::Y => self.y,
        }
    }

    /// Replaces the component along `axis` by `v`.
    pub fn set_component(&mut self, axis: Axis, v: i64)
        ensures
            *final(self) == old(self).with_along(axis, v),
    {
        match axis {
            Axis::X => self.x = v,
            Axis::Y => self.y = v,
        }
    }
}

/// An axis-aligned rectangle: top-left corner, width and height, in sub-pixel
/// units. Y grows downward.
#[derive(Clone, Copy, Debug, PartialEq, Eq, Structural)]
pub struct Rect {
    pub x: i64,
    pub y: i64,
    pub w: i64,
    pub h: i64,
}

/// `a` moved by `d`.
pub open spec fn offset_of(a: Rect, d: Vec2) -> Rect {
    Rect { x: (a.x + d.x) as i64, y: (a.y + d.y) as i64, w: a.w, h: a.h }
}

pub open spec fn max_of(a: int, b: int) -> int {
    if a >= b { a } else { b }
}

pub open spec fn min_of(a: int, b: int) -> int {
    if a <= b { a } else { b }
}

/// The overlap of `a` and `b`: `None` where they are apart; a rectangle of zero
/// width or height where they only touch.
pub open spec fn intersection_of(a: Rect, b: Rect) -> Option<Rect> {
    let left = max_of(a.x as int, b.x as int);
    let top = max_of(a.y as int, b.y as int);
    let right = min_of(a.x + a.w, b.x + b.w);
    let bottom = min_of(a.y + a.h, b.y + b.h);
    if right < left || bottom < top {
        None
    } else {
        Some(
            Rect {
                x: left as i64,
                y: top as i64,
                w: (right - left) as i64,
                h: (bottom - top) as i64,
            },
        )
    }
}

impl Rect {
    pub fn new(x: i64, y: i64, w: i64, h: i64) -> (r: Rect)
        ensures
            r == (Rect { x, y, w, h }),
    {
        Rect { x, y, w, h }
    }

    /// All four fields lie inside the world.
    pub open spec fn wf(&self) -> bool {
        in_range(self.x as int) && in_range(self.y as int) && in_range(self.w as int)
            && in_range(self.h as int)
    }

    /// All four fields lie inside the range that `intersect` accepts.
    pub open spec fn wide(&self) -> bool {
        in_wide_range(self.x as int) && in_wide_range(self.y as int) && in_wide_range(
            self.w as int,
        ) && in_wide_range(self.h as int)
    }

    /// The extent along `axis`: the width for X, the height for Y.
    pub open spec fn extent(&self, axis: Axis) -> i64 {
        match axis {
            Axis::X => self.w,
            Axis::Y => self.h,
        }
    }

    /// The extent across `axis`: the height for X, the width for Y.
    pub open spec fn across(&self, axis: Axis) -> i64 {
        match axis {
            Axis::X => self.h,
            Axis::Y => self.w,
        }
    }

    /// The rectangle moved by `d`.
    pub fn offset(&self, d: Vec2) -> (r: Rect)
        requires
            i64::MIN <= self.x + d.x <= i64::MAX,
            i64::MIN <= self.y + d.y <= i64::MAX,
        ensures
            r == offset_of(*self, d),
    {
        Rect { x: self.x + d.x, y: self.y + d.y, w: self.w, h: self.h }
    }

    /// The overlap of two rectangles.
    pub fn intersect(&self, other: &Rect) -> (r: Option<Rect>)
        requires
            self.wide(),
            other.wide(),
        ensures
            r == intersection_of(*self, *other),
    {
        let left = if self.x >= other.x { self.x } else { other.x };
        let top = if self.y >= other.y { self.y } else { other.y };
        let sr = self.x + self.w;
        let or = other.x + other.w;
        let right = if sr <= or { sr } else { or };
        let sb = self.y + self.h;
        let ob = other.y + other.h;
        let bottom = if sb <= ob { sb } else { ob };
        if right < left || bottom < top {
            None
        } else {
            Some(Rect { x: left, y: top, w: right - left, h: bottom - top })
        }
    }

    /// The rectangle reflected left to right inside a frame `width` wide.
    pub fn mirror_x(&self, width: i64) -> (r: Rect)
        requires
            self.wf(),
            in_range(width as int),
        ensures
            r == (Rect { x: clamp(width - self.x - self.w) as i64, ..*self }),
    {
        let x = saturate(width as i128 - self.x as i128 - self.w as i128);
        Rect { x, y: self.y, w: self.w, h: self.h }
    }

    /// The rectangle reflected top to bottom inside a frame `height` high.
    pub fn mirror_y(&self, height: i64) -> (r: Rect)
        requires
            self.wf(),
            in_range(height as int),
        ensures
            r == (Rect { y: clamp(height - self.y - self.h) as i64, ..*self }),
    {
        let y = saturate(height as i128 - self.y as i128 - self.h as i128);
        Rect { x: self.x, y, w: self.w, h: self.h }
    }
}

} // verus!
