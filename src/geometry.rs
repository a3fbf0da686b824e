use vstd::prelude::*;

verus! {

/// A point on the integer pixel grid.
#[derive(Debug, Clone, Copy, PartialEq, Eq, Structural, Hash)]
pub struct Point {
    pub x: i32,
    pub y: i32,
}

/// A width and a height; a rectangle's may be negative, an image's may not.
#[derive(Debug, Clone, Copy, PartialEq, Eq, Structural, Hash)]
pub struct Size {
    pub width: i32,
    pub height: i32,
}

/// A rectangle given by an origin and a size; a negative size extends the
/// rectangle to the left of or above its origin.
#[derive(Debug, Clone, Copy, PartialEq, Eq, Structural, Hash)]
pub struct Rect {
    pub origin: Point,
    pub size: Size,
}

/// Offsets in each of the four directions.
#[derive(Debug, Clone, Copy, PartialEq, Eq, Structural, Hash)]
pub struct EdgeInsets {
    pub top: i32,
    pub left: i32,
    pub bottom: i32,
    pub right: i32,
}

pub open spec fn in_i32(v: int) -> bool {
    i32::MIN <= v <= i32::MAX
}

pub open spec fn min_int(a: int, b: int) -> int {
    if a <= b {
        a
    } else {
        b
    }
}

pub open spec fn max_int(a: int, b: int) -> int {
    if a >= b {
        a
    } else {
        b
    }
}

pub open spec fn abs_int(a: int) -> int {
    if a < 0 {
        -a
    } else {
        a
    }
}

/// The far edges of the rectangle can be computed without overflow.
pub open spec fn edges_fit(r: Rect) -> bool {
    in_i32(r.origin.x + r.size.width) && in_i32(r.origin.y + r.size.height)
}

/// The smallest x of the rectangle.
pub open spec fn left(r: Rect) -> int {
    min_int(r.origin.x + r.size.width, r.origin.x as int)
}

/// The largest x of the rectangle, one past its last column.
pub open spec fn right(r: Rect) -> int {
    max_int(r.origin.x + r.size.width, r.origin.x as int)
}

/// The smallest y of the rectangle.
pub open spec fn top(r: Rect) -> int {
    min_int(r.origin.y + r.size.height, r.origin.y as int)
}

/// The largest y of the rectangle, one past its last row.
pub open spec fn bottom(r: Rect) -> int {
    max_int(r.origin.y + r.size.height, r.origin.y as int)
}

/// The pixel at `(x, y)` lies in the rectangle, its far edges excluded.
pub open spec fn covers(r: Rect, x: int, y: int) -> bool {
    left(r) <= x < right(r) && top(r) <= y < bottom(r)
}

impl Point {
    /// The origin.
    pub fn zero() -> (p: Point)
        ensures
            p.x == 0 && p.y == 0,
    {
        Point { x: 0, y: 0 }
    }

    /// Returns the coordinates as an array.
    pub fn to_array(&self) -> (a: [i32; 2])
        ensures
            a@ == seq![self.x, self.y],
    {
        let a = [self.x, self.y];
        assert(a@ =~= seq![self.x, self.y]);
        a
    }

    /// Negates both coordinates.
    pub fn invert(&mut self)
        requires
            old(self).x != i32::MIN,
            old(self).y != i32::MIN,
        ensures
            final(self).x == -old(self).x,
            final(self).y == -old(self).y,
    {
        self.x = -self.x;
        self.y = -self.y;
    }
}

impl Size {
    /// The empty size.
    pub fn zero() -> (s: Size)
        ensures
            s.width == 0 && s.height == 0,
    {
        Size { width: 0, height: 0 }
    }

    /// Returns the dimensions as an array.
    pub fn to_array(&self) -> (a: [i32; 2])
        ensures
            a@ == seq![self.width, self.height],
    {
        let a = [self.width, self.height];
        assert(a@ =~= seq![self.width, self.height]);
        a
    }
}

impl EdgeInsets {
    /// Creates edge insets.
    pub fn new(top: i32, left: i32, bottom: i32, right: i32) -> (e: EdgeInsets)
        ensures
            e == (EdgeInsets { top, left, bottom, right }),
    {
        EdgeInsets { top, left, bottom, right }
    }

    /// Creates edge insets with the same value on every side.
    pub fn all(value: i32) -> (e: EdgeInsets)
        ensures
            e == (EdgeInsets { top: value, left: value, bottom: value, right: value }),
    {
        EdgeInsets { top: value, left: value, bottom: value, right: value }
    }

    /// Edge insets of zero.
    pub fn zero() -> (e: EdgeInsets)
        ensures
            e == (EdgeInsets { top: 0, left: 0, bottom: 0, right: 0 }),
    {
        EdgeInsets { top: 0, left: 0, bottom: 0, right: 0 }
    }
}

impl Rect {
    /// Creates a rectangle.
    pub fn new(x: i32, y: i32, width: i32, height: i32) -> (r: Rect)
        ensures
            r == (Rect { origin: Point { x, y }, size: Size { width, height } }),
    {
        Rect { origin: Point { x, y }, size: Size { width, height } }
    }

    /// The rectangle of zero origin and size.
    pub fn zero() -> (r: Rect)
        ensures
            r == (Rect { origin: Point { x: 0, y: 0 }, size: Size { width: 0, height: 0 } }),
    {
        Rect::new(0, 0, 0, 0)
    }

    /// Returns the smallest x.
    pub fn min_x(&self) -> (v: i32)
        requires
            edges_fit(*self),
        ensures
            v == left(*self),
    {
        let right_edge = self.origin.x + self.size.width;
        if right_edge <= self.origin.x {
            right_edge
        } else {
            self.origin.x
        }
    }

    /// Returns the largest x.
    pub fn max_x(&self) -> (v: i32)
        requires
            edges_fit(*self),
        ensures
            v == right(*self),
    {
        let right_edge = self.origin.x + self.size.width;
        if right_edge >= self.origin.x {
            right_edge
        } else {
            self.origin.x
        }
    }

    /// Returns the smallest y.
    pub fn min_y(&self) -> (v: i32)
        requires
            edges_fit(*self),
        ensures
            v == top(*self),
    {
        let bottom_edge = self.origin.y + self.size.height;
        if bottom_edge <= self.origin.y {
            bottom_edge
        } else {
            self.origin.y
        }
    }

    /// Returns the largest y.
    pub fn max_y(&self) -> (v: i32)
        requires
            edges_fit(*self),
        ensures
            v == bottom(*self),
    {
        let bottom_edge = self.origin.y + self.size.height;
        if bottom_edge >= self.origin.y {
            bottom_edge
        } else {
            self.origin.y
        }
    }

    /// Returns the absolute width.
    pub fn width(&self) -> (v: i32)
        requires
            self.size.width != i32::MIN,
        ensures
            v == abs_int(self.size.width as int),
    {
        if self.size.width < 0 {
            -self.size.width
        } else {
            self.size.width
        }
    }

    /// Returns the absolute height.
    pub fn height(&self) -> (v: i32)
        requires
            self.size.height != i32::MIN,
        ensures
            v == abs_int(self.size.height as int),
    {
        if self.size.height < 0 {
            -self.size.height
        } else {
            self.size.height
        }
    }

    /// Returns whether the point lies in the rectangle, its far edges
    /// included.
    pub fn contains(&self, point: Point) -> (b: bool)
        requires
            edges_fit(*self),
        ensures
            b == (left(*self) <= point.x <= right(*self) && top(*self) <= point.y <= bottom(
                *self,
            )),
    {
        point.x >= self.min_x() && point.y >= self.min_y() && point.x <= self.max_x() && point.y
            <= self.max_y()
    }

    /// Returns the intersection of two rectangles, or `None` where they are
    /// apart; rectangles that only touch meet in an empty rectangle.
    pub fn intersection(&self, other: &Rect) -> (r: Option<Rect>)
        requires
            edges_fit(*self),
            edges_fit(*other),
            self.size.width != i32::MIN,
            self.size.height != i32::MIN,
        ensures
            ({
                let l = max_int(left(*self), left(*other));
                let rr = min_int(right(*self), right(*other));
                let t = max_int(top(*self), top(*other));
                let b = min_int(bottom(*self), bottom(*other));
                match r {
                    None => rr < l || b < t,
                    Some(i) => l <= rr && t <= b && i.origin.x == l && i.origin.y == t
                        && i.size.width == rr - l && i.size.height == b - t,
                }
            }),
    {
        let (a_min_x, b_min_x) = (self.min_x(), other.min_x());
        let (a_max_x, b_max_x) = (self.max_x(), other.max_x());
        let (a_min_y, b_min_y) = (self.min_y(), other.min_y());
        let (a_max_y, b_max_y) = (self.max_y(), other.max_y());
        let min_x = if a_min_x >= b_min_x { a_min_x } else { b_min_x };
        let max_x = if a_max_x <= b_max_x { a_max_x } else { b_max_x };
        let min_y = if a_min_y >= b_min_y { a_min_y } else { b_min_y };
        let max_y = if a_max_y <= b_max_y { a_max_y } else { b_max_y };
        if max_x < min_x || max_y < min_y {
            return None;
        }
        Some(Rect::new(min_x, min_y, max_x - min_x, max_y - min_y))
    }

    /// Returns whether two rectangles intersect (touching counts).
    pub fn intersects(&self, other: &Rect) -> (b: bool)
        requires
            edges_fit(*self),
            edges_fit(*other),
            self.size.width != i32::MIN,
            self.size.height != i32::MIN,
        ensures
            b == (max_int(left(*self), left(*other)) <= min_int(right(*self), right(*other))
                && max_int(top(*self), top(*other)) <= min_int(bottom(*self), bottom(*other))),
    {
        self.intersection(other).is_some()
    }

    /// Moves the origin so that width and height are not negative, keeping
    /// the area covered.
    pub fn normalize(&mut self)
        requires
            edges_fit(*old(self)),
            old(self).size.width != i32::MIN,
            old(self).size.height != i32::MIN,
        ensures
            final(self).origin.x == left(*old(self)),
            final(self).origin.y == top(*old(self)),
            final(self).size.width == abs_int(old(self).size.width as int),
            final(self).size.height == abs_int(old(self).size.height as int),
    {
        if self.size.width < 0 {
            self.origin.x = self.origin.x + self.size.width;
            self.size.width = -self.size.width;
        }
        if self.size.height < 0 {
            self.origin.y = self.origin.y + self.size.height;
            self.size.height = -self.size.height;
        }
    }

    /// Raises width and height to at least one.
    pub fn ensure_non_zero_dimension(&mut self)
        ensures
            final(self).origin == old(self).origin,
            final(self).size.width == max_int(old(self).size.width as int, 1),
            final(self).size.height == max_int(old(self).size.height as int, 1),
    {
        if self.size.width < 1 {
            self.size.width = 1;
        }
        if self.size.height < 1 {
            self.size.height = 1;
        }
    }

    /// Raises width and height to at least zero.
    pub fn ensure_positive_dimension(&mut self)
        ensures
            final(self).origin == old(self).origin,
            final(self).size.width == max_int(old(self).size.width as int, 0),
            final(self).size.height == max_int(old(self).size.height as int, 0),
    {
        if self.size.width < 0 {
            self.size.width = 0;
        }
        if self.size.height < 0 {
            self.size.height = 0;
        }
    }

    /// Returns the rectangle spanned by two points, normalised, at least one
    /// pixel wide and high.
    pub fn containing(point_a: &Point, point_b: &Point) -> (r: Rect)
        requires
            in_i32(point_b.x - point_a.x),
            in_i32(point_b.y - point_a.y),
            point_b.x - point_a.x != i32::MIN,
            point_b.y - point_a.y != i32::MIN,
        ensures
            r.origin.x == min_int(point_a.x as int, point_b.x as int),
            r.origin.y == min_int(point_a.y as int, point_b.y as int),
            r.size.width == max_int(abs_int(point_b.x - point_a.x), 1),
            r.size.height == max_int(abs_int(point_b.y - point_a.y), 1),
    {
        let width = point_b.x - point_a.x;
        let height = point_b.y - point_a.y;
        let mut rect = Rect::new(point_a.x, point_a.y, width, height);
        rect.normalize();
        rect.ensure_non_zero_dimension();
        rect
    }

    /// Returns the rectangle whose sides are moved inwards by the insets,
    /// normalised.
    pub fn inset(&self, insets: &EdgeInsets) -> (r: Rect)
        requires
            in_i32(self.origin.x + insets.left),
            in_i32(self.origin.y + insets.top),
            in_i32(self.size.width - insets.left),
            in_i32(self.size.width - insets.left - insets.right),
            in_i32(self.size.height - insets.top),
            in_i32(self.size.height - insets.top - insets.bottom),
            self.size.width - insets.left - insets.right != i32::MIN,
            self.size.height - insets.top - insets.bottom != i32::MIN,
            in_i32(self.origin.x + self.size.width - insets.right),
            in_i32(self.origin.y + self.size.height - insets.bottom),
        ensures
            ({
                let w = self.size.width - insets.left - insets.right;
                let h = self.size.height - insets.top - insets.bottom;
                let x = self.origin.x + insets.left;
                let y = self.origin.y + insets.top;
                r.origin.x == min_int(x, x + w) && r.origin.y == min_int(y, y + h)
                    && r.size.width == abs_int(w) && r.size.height == abs_int(h)
            }),
    {
        let x = self.origin.x + insets.left;
        let y = self.origin.y + insets.top;
        let width = self.size.width - insets.left - insets.right;
        let height = self.size.height - insets.top - insets.bottom;
        let mut result = Rect::new(x, y, width, height);
        result.normalize();
        result
    }

    /// Returns the rectangle with both sides set to the smaller absolute
    /// dimension, keeping the signs of width and height.
    pub fn aspect_locked(&self) -> (r: Rect)
        requires
            self.size.width != i32::MIN,
            self.size.height != i32::MIN,
        ensures
            ({
                let d = min_int(abs_int(self.size.width as int), abs_int(self.size.height as int));
                r.origin == self.origin && r.size.width == (if self.size.width < 0 {
                    -d
                } else {
                    d
                }) && r.size.height == (if self.size.height < 0 {
                    -d
                } else {
                    d
                })
            }),
    {
        let w = self.width();
        let h = self.height();
        let dimension = if w <= h { w } else { h };
        let mut width = dimension;
        let mut height = dimension;
        if self.size.width < 0 {
            width = -width;
        }
        if self.size.height < 0 {
            height = -height;
        }
        Rect { origin: self.origin, size: Size { width, height } }
    }

    /// Returns the smallest rectangle holding every point, each as a whole
    /// pixel, or `None` for no points.
    pub fn containing_points(points: &Vec<Point>) -> (r: Option<Rect>)
        requires
            forall|i: int, j: int|
                0 <= i < points@.len() && 0 <= j < points@.len() ==> in_i32(
                    points@[i].x - points@[j].x + 1,
                ) && in_i32(points@[i].y - points@[j].y + 1),
        ensures
            points@.len() == 0 <==> r is None,
            r is Some ==> {
                let rect = r->0;
                &&& exists|i: int| 0 <= i < points@.len() && #[trigger] points@[i].x == rect.origin.x
                &&& exists|i: int| 0 <= i < points@.len() && #[trigger] points@[i].y == rect.origin.y
                &&& exists|i: int|
                    0 <= i < points@.len() && #[trigger] points@[i].x == rect.origin.x
                        + rect.size.width - 1
                &&& exists|i: int|
                    0 <= i < points@.len() && #[trigger] points@[i].y == rect.origin.y
                        + rect.size.height - 1
                &&& forall|i: int|
                    0 <= i < points@.len() ==> rect.origin.x <= #[trigger] points@[i].x
                        < rect.origin.x + rect.size.width && rect.origin.y <= points@[i].y
                        < rect.origin.y + rect.size.height
            },
    {
        if points.len() == 0 {
            return None;
        }
        let mut min_x = points[0].x;
        let mut max_x = points[0].x;
        let mut min_y = points[0].y;
        let mut max_y = points[0].y;
        let ghost mut ix: (int, int, int, int) = (0, 0, 0, 0);
        let mut k: usize = 1;
        while k < points.len()
            invariant
                1 <= k <= points@.len(),
                0 <= ix.0 < k && points@[ix.0].x == min_x,
                0 <= ix.1 < k && points@[ix.1].x == max_x,
                0 <= ix.2 < k && points@[ix.2].y == min_y,
                0 <= ix.3 < k && points@[ix.3].y == max_y,
                forall|i: int|
                    0 <= i < k ==> min_x <= #[trigger] points@[i].x <= max_x && min_y
                        <= points@[i].y <= max_y,
            decreases points@.len() - k,
        {
            let p = points[k];
            if p.x < min_x {
                min_x = p.x;
                proof {
                    ix.0 = k as int;
                }
            }
            if p.x > max_x {
                max_x = p.x;
                proof {
                    ix.1 = k as int;
                }
            }
            if p.y < min_y {
                min_y = p.y;
                proof {
                    ix.2 = k as int;
                }
            }
            if p.y > max_y {
                max_y = p.y;
                proof {
                    ix.3 = k as int;
                }
            }
            k = k + 1;
        }
        proof {
            assert(in_i32(points@[ix.1].x - points@[ix.0].x + 1));
            assert(in_i32(points@[ix.3].y - points@[ix.2].y + 1));
        }
        let result = Rect::new(min_x, min_y, max_x - min_x + 1, max_y - min_y + 1);
        assert(points@[ix.0].x == result.origin.x);
        assert(points@[ix.2].y == result.origin.y);
        assert(points@[ix.1].x == result.origin.x + result.size.width - 1);
        assert(points@[ix.3].y == result.origin.y + result.size.height - 1);
        Some(result)
    }
}

impl Size {
    /// The size of one by one.
    pub fn one() -> (s: Size)
        ensures
            s.width == 1 && s.height == 1,
    {
        Size { width: 1, height: 1 }
    }

    /// Whether both dimensions are zero.
    pub fn is_zero(&self) -> (b: bool)
        ensures
            b == (self.width == 0 && self.height == 0),
    {
        self.width == 0 && self.height == 0
    }
}

} // verus!
