//! Screen geometry: points and axis-aligned rectangles on the character grid.

use std::cmp::Ordering;
use vstd::prelude::*;

verus! {

/// A position on the character grid. The origin is the top-left corner and
/// `y` grows downward.
///
/// The row is declared first so that the derived total order is row-major:
/// points compare by `(y, x)`.
#[derive(Clone, Copy, Debug, PartialEq, Eq, Structural, Ord)]
pub struct Point {
    pub y: u16,
    pub x: u16,
}

/// Whether `a` comes strictly before `b` in row-major order: on an earlier
/// row, or on the same row in an earlier column.
pub open spec fn point_before(a: Point, b: Point) -> bool {
    a.y < b.y || (a.y == b.y && a.x < b.x)
}

/// Row-major comparison of two points: first by row, then by column.
pub open spec fn point_order(a: Point, b: Point) -> Ordering {
    if point_before(a, b) {
        Ordering::Less
    } else if a == b {
        Ordering::Equal
    } else {
        Ordering::Greater
    }
}

impl Point {
    pub fn new(x: u16, y: u16) -> (p: Point)
        ensures
            p.x == x,
            p.y == y,
    {
        Point { y, x }
    }
}

impl PartialOrd for Point {
    fn partial_cmp(&self, other: &Point) -> (r: Option<Ordering>) {
        if self.y < other.y {
            Some(Ordering::Less)
        } else if self.y > other.y {
            Some(Ordering::Greater)
        } else if self.x < other.x {
            Some(Ordering::Less)
        } else if self.x > other.x {
            Some(Ordering::Greater)
        } else {
            Some(Ordering::Equal)
        }
    }
}

impl vstd::std_specs::cmp::PartialOrdSpecImpl for Point {
    open spec fn obeys_partial_cmp_spec() -> bool {
        true
    }

    open spec fn partial_cmp_spec(&self, other: &Point) -> Option<Ordering> {
        Some(point_order(*self, *other))
    }
}

/// The larger of two coordinates.
pub open spec fn max_coord(a: u16, b: u16) -> u16 {
    if a >= b { a } else { b }
}

/// The smaller of two coordinates.
pub open spec fn min_coord(a: u16, b: u16) -> u16 {
    if a <= b { a } else { b }
}

fn larger(a: u16, b: u16) -> (r: u16)
    ensures
        r == max_coord(a, b),
{
    if a >= b { a } else { b }
}

fn smaller(a: u16, b: u16) -> (r: u16)
    ensures
        r == min_coord(a, b),
{
    if a <= b { a } else { b }
}

/// An axis-aligned rectangle given by its top-left and bottom-right corners.
///
/// The top-left corner never lies to the right of or below the bottom-right
/// corner. A rectangle whose corners share a column or a row has area zero.
#[derive(Clone, Copy, Debug, PartialEq, Eq, Structural)]
pub struct Rect {
    top_left: Point,
    bottom_right: Point,
}

impl Rect {
    /// The corners are ordered on both axes.
    #[verifier::type_invariant]
    pub closed spec fn wf(self) -> bool {
        &&& self.top_left.x <= self.bottom_right.x
        &&& self.top_left.y <= self.bottom_right.y
    }

    pub closed spec fn spec_top_left(&self) -> Point {
        self.top_left
    }

    pub closed spec fn spec_bottom_right(&self) -> Point {
        self.bottom_right
    }

    pub open spec fn spec_x(&self) -> u16 {
        self.spec_top_left().x
    }

    pub open spec fn spec_y(&self) -> u16 {
        self.spec_top_left().y
    }

    /// Horizontal extent; meaningful for well-formed rectangles.
    pub open spec fn spec_width(self) -> int {
        self.spec_bottom_right().x - self.spec_top_left().x
    }

    /// Vertical extent; meaningful for well-formed rectangles.
    pub open spec fn spec_height(self) -> int {
        self.spec_bottom_right().y - self.spec_top_left().y
    }

    pub open spec fn spec_area(self) -> int {
        self.spec_width() * self.spec_height()
    }

    /// Both rectangles enclose at least one cell and their column ranges and
    /// row ranges meet, the bottom-right corner counting as part of a range.
    pub open spec fn spec_intersects(self, other: Rect) -> bool {
        &&& self.spec_area() > 0
        &&& other.spec_area() > 0
        &&& max_coord(self.spec_top_left().x, other.spec_top_left().x) <= min_coord(
            self.spec_bottom_right().x,
            other.spec_bottom_right().x,
        )
        &&& max_coord(self.spec_top_left().y, other.spec_top_left().y) <= min_coord(
            self.spec_bottom_right().y,
            other.spec_bottom_right().y,
        )
    }

    /// The overlap of two rectangles: the corner-wise maximum of the two
    /// top-left corners and the corner-wise minimum of the two bottom-right
    /// corners, present exactly when the rectangles intersect.
    pub closed spec fn spec_intersection(self, other: Rect) -> Option<Rect> {
        if self.spec_intersects(other) {
            Some(
                Rect {
                    top_left: Point {
                        y: max_coord(self.top_left.y, other.top_left.y),
                        x: max_coord(self.top_left.x, other.top_left.x),
                    },
                    bottom_right: Point {
                        y: min_coord(self.bottom_right.y, other.bottom_right.y),
                        x: min_coord(self.bottom_right.x, other.bottom_right.x),
                    },
                },
            )
        } else {
            None
        }
    }

    /// The rectangle anchored at the origin that spans the given number of
    /// columns and rows.
    pub closed spec fn spec_from_size(size: (u16, u16)) -> Rect {
        Rect { top_left: Point { y: 0, x: 0 }, bottom_right: Point { y: size.1, x: size.0 } }
    }

    /// The rectangle with top-left corner `(x, y)` that spans `width` columns
    /// and `height` rows. The bottom-right corner must be addressable.
    pub fn new(x: u16, y: u16, width: u16, height: u16) -> (r: Rect)
        requires
            x + width <= u16::MAX,
            y + height <= u16::MAX,
        ensures
            r.wf(),
            r.spec_top_left() == (Point { y, x }),
            r.spec_bottom_right() == (Point { y: (y + height) as u16, x: (x + width) as u16 }),
            r.spec_width() == width,
            r.spec_height() == height,
    {
        Rect { top_left: Point { y, x }, bottom_right: Point { y: y + height, x: x + width } }
    }

    #[verifier::when_used_as_spec(spec_top_left)]
    pub fn top_left(&self) -> (p: Point)
        ensures
            p == self.spec_top_left(),
    {
        self.top_left
    }

    #[verifier::when_used_as_spec(spec_bottom_right)]
    pub fn bottom_right(&self) -> (p: Point)
        ensures
            p == self.spec_bottom_right(),
    {
        self.bottom_right
    }

    #[verifier::when_used_as_spec(spec_x)]
    pub fn x(&self) -> (r: u16)
        ensures
            r == self.spec_x(),
    {
        self.top_left.x
    }

    #[verifier::when_used_as_spec(spec_y)]
    pub fn y(&self) -> (r: u16)
        ensures
            r == self.spec_y(),
    {
        self.top_left.y
    }

    pub fn width(&self) -> (r: u16)
        ensures
            r == self.spec_width(),
    {
        proof {
            use_type_invariant(self);
        }
        self.bottom_right.x - self.top_left.x
    }

    pub fn height(&self) -> (r: u16)
        ensures
            r == self.spec_height(),
    {
        proof {
            use_type_invariant(self);
        }
        self.bottom_right.y - self.top_left.y
    }

    pub fn area(&self) -> (r: u32)
        ensures
            r == self.spec_area(),
    {
        let w: u32 = self.width() as u32;
        let h: u32 = self.height() as u32;
        assert(w * h <= 0xffff * 0xffff) by (nonlinear_arith)
            requires
                w <= 0xffff,
                h <= 0xffff,
        ;
        w * h
    }

    pub fn intersects(&self, other: &Rect) -> (r: bool)
        ensures
            r == self.spec_intersects(*other),
    {
        proof {
            use_type_invariant(self);
            use_type_invariant(other);
        }
        self.area() > 0 && other.area() > 0 && larger(self.top_left.x, other.top_left.x)
            <= smaller(self.bottom_right.x, other.bottom_right.x) && larger(
            self.top_left.y,
            other.top_left.y,
        ) <= smaller(self.bottom_right.y, other.bottom_right.y)
    }

    pub fn intersection(&self, other: &Rect) -> (r: Option<Rect>)
        ensures
            r == self.spec_intersection(*other),
            r is Some <==> self.spec_intersects(*other),
            r matches Some(i) ==> {
                &&& i.wf()
                &&& i.spec_top_left().x == max_coord(self.spec_top_left().x, other.spec_top_left().x)
                &&& i.spec_top_left().y == max_coord(self.spec_top_left().y, other.spec_top_left().y)
                &&& i.spec_bottom_right().x == min_coord(
                    self.spec_bottom_right().x,
                    other.spec_bottom_right().x,
                )
                &&& i.spec_bottom_right().y == min_coord(
                    self.spec_bottom_right().y,
                    other.spec_bottom_right().y,
                )
            },
    {
        if self.intersects(other) {
            Some(
                Rect {
                    top_left: Point {
                        y: larger(self.top_left.y, other.top_left.y),
                        x: larger(self.top_left.x, other.top_left.x),
                    },
                    bottom_right: Point {
                        y: smaller(self.bottom_right.y, other.bottom_right.y),
                        x: smaller(self.bottom_right.x, other.bottom_right.x),
                    },
                },
            )
        } else {
            None
        }
    }
}

impl Rect {
    /// The rectangle of a size starts at the origin and ends at the size.
    pub proof fn lemma_from_size(size: (u16, u16))
        ensures
            Rect::spec_from_size(size).wf(),
            Rect::spec_from_size(size).spec_top_left() == (Point { y: 0, x: 0 }),
            Rect::spec_from_size(size).spec_bottom_right() == (Point { y: size.1, x: size.0 }),
            Rect::spec_from_size(size).spec_width() == size.0,
            Rect::spec_from_size(size).spec_height() == size.1,
    {
    }

    /// Two rectangles with the same corners are the same rectangle.
    pub proof fn lemma_corners_determine(a: Rect, b: Rect)
        requires
            a.spec_top_left() == b.spec_top_left(),
            a.spec_bottom_right() == b.spec_bottom_right(),
        ensures
            a == b,
    {
    }

    /// A well-formed rectangle has area zero exactly when its corners share
    /// a column or a row; in particular when they coincide.
    pub proof fn lemma_zero_area(a: Rect)
        requires
            a.wf(),
        ensures
            a.spec_area() >= 0,
            a.spec_area() == 0 <==> (a.spec_width() == 0 || a.spec_height() == 0),
            a.spec_top_left() == a.spec_bottom_right() ==> a.spec_area() == 0,
    {
        let w = a.spec_width();
        let h = a.spec_height();
        assert(w * h >= 0 && (w * h == 0 <==> (w == 0 || h == 0))) by (nonlinear_arith)
            requires
                w >= 0,
                h >= 0,
        ;
    }

    /// Whether two rectangles intersect does not depend on the order in
    /// which they are given.
    pub proof fn lemma_intersects_symmetric(a: Rect, b: Rect)
        ensures
            a.spec_intersects(b) == b.spec_intersects(a),
    {
    }

    /// A rectangle of area zero intersects nothing, and nothing intersects it.
    pub proof fn lemma_zero_area_never_intersects(a: Rect, b: Rect)
        ensures
            a.spec_area() == 0 || b.spec_area() == 0 ==> !a.spec_intersects(b),
            a.spec_area() == 0 || b.spec_area() == 0 ==> a.spec_intersection(b) is None,
    {
    }

    /// The overlap of two rectangles is the same whichever is taken first.
    pub proof fn lemma_intersection_commutes(a: Rect, b: Rect)
        ensures
            a.spec_intersection(b) == b.spec_intersection(a),
    {
    }

    /// The overlap of two well-formed rectangles, where there is one, is
    /// well formed and lies within both.
    pub proof fn lemma_intersection_within(a: Rect, b: Rect)
        requires
            a.wf(),
            b.wf(),
        ensures
            a.spec_intersection(b) is Some <==> a.spec_intersects(b),
            a.spec_intersection(b) matches Some(i) ==> {
                &&& i.wf()
                &&& a.spec_top_left().x <= i.spec_top_left().x
                &&& a.spec_top_left().y <= i.spec_top_left().y
                &&& i.spec_bottom_right().x <= a.spec_bottom_right().x
                &&& i.spec_bottom_right().y <= a.spec_bottom_right().y
                &&& b.spec_top_left().x <= i.spec_top_left().x
                &&& b.spec_top_left().y <= i.spec_top_left().y
                &&& i.spec_bottom_right().x <= b.spec_bottom_right().x
                &&& i.spec_bottom_right().y <= b.spec_bottom_right().y
            },
    {
    }
}

impl From<(u16, u16)> for Rect {
    /// The rectangle anchored at the origin that spans the given number of
    /// columns and rows.
    fn from(value: (u16, u16)) -> (r: Rect)
        ensures
            r == Rect::spec_from_size(value),
            r.wf(),
            r.spec_top_left() == (Point { y: 0, x: 0 }),
            r.spec_bottom_right() == (Point { y: value.1, x: value.0 }),
    {
        Rect { top_left: Point { y: 0, x: 0 }, bottom_right: Point { y: value.1, x: value.0 } }
    }
}

impl vstd::std_specs::convert::FromSpecImpl<(u16, u16)> for Rect {
    open spec fn obeys_from_spec() -> bool {
        true
    }

    open spec fn from_spec(value: (u16, u16)) -> Rect {
        Rect::spec_from_size(value)
    }
}

/// The order on points is the row-major order of the cells they address:
/// on a grid of any width that holds both columns, the earlier point has the
/// smaller cell index.
pub proof fn lemma_point_order_is_row_major(a: Point, b: Point, width: int)
    requires
        a.x < width,
        b.x < width,
    ensures
        point_before(a, b) <==> a.y * width + a.x < b.y * width + b.x,
        a == b <==> a.y * width + a.x == b.y * width + b.x,
{
    let ay = a.y as int;
    let by = b.y as int;
    if ay < by {
        assert((ay + 1) * width <= by * width) by (nonlinear_arith)
            requires
                ay + 1 <= by,
                width > 0,
        ;
        assert((ay + 1) * width == ay * width + width) by (nonlinear_arith);
    } else if by < ay {
        assert((by + 1) * width <= ay * width) by (nonlinear_arith)
            requires
                by + 1 <= ay,
                width > 0,
        ;
        assert((by + 1) * width == by * width + width) by (nonlinear_arith);
    }
}

} // verus!
