use vstd::prelude::*;

verus! {

pub open spec fn min_int(a: int, b: int) -> int {
    if a <= b { a } else { b }
}

pub open spec fn max_int(a: int, b: int) -> int {
    if a >= b { a } else { b }
}

/// The cursor after moving from `lo` by `t` towards `hi`, stopping at `hi`.
pub open spec fn advance(lo: int, hi: int, t: int) -> int {
    min_int(lo + t, hi)
}

/// The cursor after moving from `hi` by `t` towards `lo`, stopping at `lo`.
pub open spec fn retreat(lo: int, hi: int, t: int) -> int {
    max_int(hi - t, lo)
}

/// Moves `lo` by `t` towards `hi` without passing it.
pub fn advance_exec(lo: i64, hi: i64, t: u64) -> (r: i64)
    requires
        lo <= hi,
    ensures
        r == advance(lo as int, hi as int, t as int),
        lo <= r <= hi,
{
    if (t as i128) >= (hi as i128) - (lo as i128) {
        hi
    } else {
        ((lo as i128) + (t as i128)) as i64
    }
}

/// Moves `hi` by `t` towards `lo` without passing it.
pub fn retreat_exec(lo: i64, hi: i64, t: u64) -> (r: i64)
    requires
        lo <= hi,
    ensures
        r == retreat(lo as int, hi as int, t as int),
        lo <= r <= hi,
{
    if (t as i128) >= (hi as i128) - (lo as i128) {
        lo
    } else {
        ((hi as i128) - (t as i128)) as i64
    }
}

/// Fixed insets on each side of a rectangle.
#[derive(Clone, Copy, Debug, PartialEq, Eq, Structural)]
pub struct Padding {
    pub top: u32,
    pub right: u32,
    pub bottom: u32,
    pub left: u32,
}

impl Padding {
    pub fn new(top: u32, right: u32, bottom: u32, left: u32) -> (r: Padding)
        ensures
            r == (Padding { top, right, bottom, left }),
    {
        Padding { top, right, bottom, left }
    }

    pub open spec fn from_spec(v: u32) -> Padding {
        Padding { top: v, right: v, bottom: v, left: v }
    }

    /// The same inset on every side.
    pub fn from(v: u32) -> (r: Padding)
        ensures
            r == Padding::from_spec(v),
    {
        Padding { top: v, right: v, bottom: v, left: v }
    }

    pub fn zero() -> (r: Padding)
        ensures
            r == (Padding { top: 0, right: 0, bottom: 0, left: 0 }),
    {
        Padding::from(0)
    }

    /// Horizontal space taken: left and right insets.
    pub fn width(&self) -> (r: u64)
        ensures
            r == self.left + self.right,
    {
        self.left as u64 + self.right as u64
    }

    /// Vertical space taken: top and bottom insets.
    pub fn height(&self) -> (r: u64)
        ensures
            r == self.top + self.bottom,
    {
        self.top as u64 + self.bottom as u64
    }
}

/// An axis-aligned rectangle. The y axis grows downwards in pixel space.
#[derive(Clone, Copy, Debug, PartialEq, Eq, Structural)]
pub struct Bounds {
    pub left: i64,
    pub top: i64,
    pub right: i64,
    pub bottom: i64,
}

impl Bounds {
    /// Neither side is inverted.
    pub open spec fn wf(&self) -> bool {
        self.left <= self.right && self.top <= self.bottom
    }

    pub open spec fn width_spec(&self) -> int {
        self.right - self.left
    }

    pub open spec fn height_spec(&self) -> int {
        self.bottom - self.top
    }

    pub open spec fn centre_x_spec(&self) -> int {
        self.left + (self.right - self.left) / 2
    }

    pub open spec fn centre_y_spec(&self) -> int {
        self.top + (self.bottom - self.top) / 2
    }

    /// What `apply_padding` makes of these bounds.
    pub open spec fn padded(&self, p: Padding) -> Bounds {
        let left = advance(self.left as int, self.right as int, p.left as int);
        let right = retreat(left, self.right as int, p.right as int);
        let top = advance(self.top as int, self.bottom as int, p.top as int);
        let bottom = retreat(top, self.bottom as int, p.bottom as int);
        Bounds { left: left as i64, top: top as i64, right: right as i64, bottom: bottom as i64 }
    }

    /// The rectangle spanned by corners `(x0, y0)` and `(x1, y1)`.
    pub open spec fn from_points_spec(x0: i64, y0: i64, x1: i64, y1: i64) -> Bounds {
        Bounds {
            left: min_int(x0 as int, x1 as int) as i64,
            top: min_int(y0 as int, y1 as int) as i64,
            right: max_int(x0 as int, x1 as int) as i64,
            bottom: max_int(y0 as int, y1 as int) as i64,
        }
    }

    /// The rectangle spanned by two corners, given in any order.
    pub fn from_points(x0: i64, y0: i64, x1: i64, y1: i64) -> (r: Bounds)
        ensures
            r == Bounds::from_points_spec(x0, y0, x1, y1),
            r.wf(),
    {
        let (left, right) = if x0 <= x1 { (x0, x1) } else { (x1, x0) };
        let (top, bottom) = if y0 <= y1 { (y0, y1) } else { (y1, y0) };
        Bounds { left, top, right, bottom }
    }

    /// A rectangle of the given size with its top-left corner at the origin.
    pub fn from_size(width: u32, height: u32) -> (r: Bounds)
        ensures
            r == (Bounds { left: 0, top: 0, right: width as i64, bottom: height as i64 }),
            r.wf(),
    {
        Bounds { left: 0, top: 0, right: width as i64, bottom: height as i64 }
    }

    pub fn width(&self) -> (r: u64)
        requires
            self.wf(),
        ensures
            r == self.width_spec(),
    {
        ((self.right as i128) - (self.left as i128)) as u64
    }

    pub fn height(&self) -> (r: u64)
        requires
            self.wf(),
        ensures
            r == self.height_spec(),
    {
        ((self.bottom as i128) - (self.top as i128)) as u64
    }

    pub fn left_x(&self) -> (r: i64)
        ensures
            r == self.left,
    {
        self.left
    }

    pub fn right_x(&self) -> (r: i64)
        ensures
            r == self.right,
    {
        self.right
    }

    pub fn top_y(&self) -> (r: i64)
        ensures
            r == self.top,
    {
        self.top
    }

    pub fn bottom_y(&self) -> (r: i64)
        ensures
            r == self.bottom,
    {
        self.bottom
    }

    /// Horizontal centre, rounded towards the left.
    pub fn centre_x(&self) -> (r: i64)
        requires
            self.wf(),
        ensures
            r == self.centre_x_spec(),
            self.left <= r <= self.right,
    {
        let w = self.width();
        ((self.left as i128) + ((w / 2) as i128)) as i64
    }

    /// Vertical centre, rounded towards the top.
    pub fn centre_y(&self) -> (r: i64)
        requires
            self.wf(),
        ensures
            r == self.centre_y_spec(),
            self.top <= r <= self.bottom,
    {
        let h = self.height();
        ((self.top as i128) + ((h / 2) as i128)) as i64
    }

    /// Shrinks the rectangle by the padding's insets. Where the insets of two
    /// opposite sides meet or cross, that side collapses to zero size at the
    /// point the first inset (left, top) reaches.
    pub fn apply_padding(&self, p: Padding) -> (r: Bounds)
        requires
            self.wf(),
        ensures
            r == self.padded(p),
            r.wf(),
            r.width_spec() == max_int(0, self.width_spec() - p.left - p.right),
            r.height_spec() == max_int(0, self.height_spec() - p.top - p.bottom),
            self.left <= r.left && r.right <= self.right,
            self.top <= r.top && r.bottom <= self.bottom,
    {
        let left = advance_exec(self.left, self.right, p.left as u64);
        let right = retreat_exec(left, self.right, p.right as u64);
        let top = advance_exec(self.top, self.bottom, p.top as u64);
        let bottom = retreat_exec(top, self.bottom, p.bottom as u64);
        Bounds { left, top, right, bottom }
    }
}

/// `from_points` gives well-formed bounds whatever order the corners come
/// in, and the same bounds for either diagonal given either way round.
pub proof fn from_points_is_normalised(x0: i64, y0: i64, x1: i64, y1: i64)
    ensures
        Bounds::from_points_spec(x0, y0, x1, y1).wf(),
        Bounds::from_points_spec(x0, y0, x1, y1) == Bounds::from_points_spec(x1, y1, x0, y0),
        Bounds::from_points_spec(x0, y0, x1, y1) == Bounds::from_points_spec(x0, y1, x1, y0),
{
}

/// Zero padding leaves well-formed bounds as they are.
pub proof fn zero_padding_is_identity(b: Bounds)
    requires
        b.wf(),
    ensures
        b.padded(Padding { top: 0, right: 0, bottom: 0, left: 0 }) == b,
{
}

} // verus!
