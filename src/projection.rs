use vstd::prelude::*;
use vstd::arithmetic::div_mod::{
    lemma_fundamental_div_mod, lemma_fundamental_div_mod_converse, lemma_mod_bound,
};
use crate::bounds::Bounds;

verus! {

/// `v` held to the range of `i64`.
pub open spec fn clamp64(v: int) -> int {
    if v < i64::MIN {
        i64::MIN as int
    } else if v > i64::MAX {
        i64::MAX as int
    } else {
        v
    }
}

/// `d * num / den`, rounded down.
pub open spec fn scale(d: int, num: int, den: int) -> int {
    d * num / den
}

/// The integer that a sign and a magnitude stand for.
pub open spec fn signed(r: (bool, u128)) -> int {
    if r.0 {
        -(r.1 as int)
    } else {
        r.1 as int
    }
}

proof fn lemma_floor_of_negative(p: int, den: int)
    requires
        p >= 0,
        den > 0,
    ensures
        (-p) / den == -((p + den - 1) / den),
{
    let x = p + den - 1;
    let q = x / den;
    let r = x % den;
    lemma_fundamental_div_mod(x, den);
    lemma_mod_bound(x, den);
    assert(-p == (-q) * den + (den - 1 - r)) by (nonlinear_arith)
        requires
            x == den * q + r,
            x == p + den - 1,
    ;
    lemma_fundamental_div_mod_converse(-p, den, -q, den - 1 - r);
}

proof fn lemma_product_fits(d: int, num: int)
    requires
        0 <= d <= u64::MAX,
        0 <= num <= u64::MAX,
    ensures
        0 <= d * num <= u64::MAX * u64::MAX,
{
    assert(0 <= d * num <= u64::MAX * u64::MAX) by (nonlinear_arith)
        requires
            0 <= d <= u64::MAX,
            0 <= num <= u64::MAX,
    ;
}

/// `(v - lo) * num / den`, rounded down, as a sign and a magnitude.
fn scaled(v: i64, lo: i64, num: u64, den: u64) -> (r: (bool, u128))
    requires
        den > 0,
    ensures
        signed(r) == scale(v - lo, num as int, den as int),
{
    if v >= lo {
        let d = ((v as i128) - (lo as i128)) as u128;
        proof {
            lemma_product_fits(d as int, num as int);
        }
        let p = d * (num as u128);
        (false, p / (den as u128))
    } else {
        let d = ((lo as i128) - (v as i128)) as u128;
        proof {
            lemma_product_fits(d as int, num as int);
        }
        let p = d * (num as u128);
        let q = (p + (den as u128) - 1) / (den as u128);
        proof {
            lemma_floor_of_negative(p as int, den as int);
            assert((v - lo) * num == -(p as int)) by (nonlinear_arith)
                requires
                    d == lo - v,
                    p == d * num,
            ;
        }
        (true, q)
    }
}

/// `base + off` where `up`, else `base - off`, held to the range of `i64`.
fn shift(base: i64, off: (bool, u128), up: bool) -> (r: i64)
    ensures
        r == clamp64(if up { base + signed(off) } else { base - signed(off) }),
{
    let add = up != off.0;
    let m = off.1;
    if m > (u64::MAX as u128) {
        if add {
            i64::MAX
        } else {
            i64::MIN
        }
    } else {
        let v: i128 = if add {
            (base as i128) + (m as i128)
        } else {
            (base as i128) - (m as i128)
        };
        if v < (i64::MIN as i128) {
            i64::MIN
        } else if v > (i64::MAX as i128) {
            i64::MAX
        } else {
            v as i64
        }
    }
}

/// The affine map between the data-position domain and the pixel rectangle
/// of the plot area. Pixel y grows downwards, data y upwards, so the vertical
/// axis is mirrored.
#[derive(Clone, Copy, Debug, PartialEq, Eq, Structural)]
pub struct Projection {
    /// The plot area in pixels.
    pub inner: Bounds,
    /// The data-position domain.
    pub range: Bounds,
}

impl Projection {
    pub open spec fn wf(&self) -> bool {
        self.inner.wf() && self.range.wf()
    }

    pub open spec fn svg_x(&self, x: int) -> int {
        if self.range.width_spec() == 0 {
            self.inner.centre_x_spec()
        } else {
            clamp64(
                self.inner.left + scale(
                    x - self.range.left,
                    self.inner.width_spec(),
                    self.range.width_spec(),
                ),
            )
        }
    }

    pub open spec fn svg_y(&self, y: int) -> int {
        if self.range.height_spec() == 0 {
            self.inner.centre_y_spec()
        } else {
            clamp64(
                self.inner.bottom - scale(
                    y - self.range.top,
                    self.inner.height_spec(),
                    self.range.height_spec(),
                ),
            )
        }
    }

    pub open spec fn data_x(&self, sx: int) -> int {
        if self.inner.width_spec() == 0 {
            self.range.centre_x_spec()
        } else {
            clamp64(
                self.range.left + scale(
                    sx - self.inner.left,
                    self.range.width_spec(),
                    self.inner.width_spec(),
                ),
            )
        }
    }

    pub open spec fn data_y(&self, sy: int) -> int {
        if self.inner.height_spec() == 0 {
            self.range.centre_y_spec()
        } else {
            clamp64(
                self.range.top + scale(
                    self.inner.bottom - sy,
                    self.range.height_spec(),
                    self.inner.height_spec(),
                ),
            )
        }
    }

    /// The projection from `position_range` onto the plot area `inner`.
    pub fn new(inner: Bounds, position_range: Bounds) -> (r: Projection)
        requires
            inner.wf(),
            position_range.wf(),
        ensures
            r.wf(),
            r.inner == inner,
            r.range == position_range,
    {
        Projection { inner, range: position_range }
    }

    /// The plot area.
    pub fn bounds(&self) -> (r: Bounds)
        ensures
            r == self.inner,
    {
        self.inner
    }

    /// Maps a data position to pixels. A domain of zero width (height) maps
    /// every x (y) to the horizontal (vertical) centre of the plot area.
    pub fn data_to_svg(&self, x: i64, y: i64) -> (r: (i64, i64))
        requires
            self.wf(),
        ensures
            r.0 == self.svg_x(x as int),
            r.1 == self.svg_y(y as int),
    {
        let rw = self.range.width();
        let rh = self.range.height();
        let sx = if rw == 0 {
            self.inner.centre_x()
        } else {
            shift(self.inner.left, scaled(x, self.range.left, self.inner.width(), rw), true)
        };
        let sy = if rh == 0 {
            self.inner.centre_y()
        } else {
            shift(self.inner.bottom, scaled(y, self.range.top, self.inner.height(), rh), false)
        };
        (sx, sy)
    }

    /// Maps positions that were computed beforehand; the same map as
    /// `data_to_svg`.
    pub fn position_to_svg(&self, x: i64, y: i64) -> (r: (i64, i64))
        requires
            self.wf(),
        ensures
            r.0 == self.svg_x(x as int),
            r.1 == self.svg_y(y as int),
    {
        self.data_to_svg(x, y)
    }

    /// Maps pixels back to a data position, rounding down. A plot area of
    /// zero width (height) maps every x (y) to the centre of the domain.
    pub fn svg_to_data(&self, sx: i64, sy: i64) -> (r: (i64, i64))
        requires
            self.wf(),
        ensures
            r.0 == self.data_x(sx as int),
            r.1 == self.data_y(sy as int),
    {
        let iw = self.inner.width();
        let ih = self.inner.height();
        let x = if iw == 0 {
            self.range.centre_x()
        } else {
            shift(self.range.left, scaled(sx, self.inner.left, self.range.width(), iw), true)
        };
        let y = if ih == 0 {
            self.range.centre_y()
        } else {
            shift(self.range.top, scaled(self.inner.bottom, sy, self.range.height(), ih), true)
        };
        (x, y)
    }
}

proof fn lemma_scale_within(a: int, num: int, den: int)
    requires
        0 <= a <= den,
        den > 0,
        num >= 0,
    ensures
        0 <= scale(a, num, den) <= num,
{
    let d = a * num / den;
    let m = (a * num) % den;
    lemma_fundamental_div_mod(a * num, den);
    lemma_mod_bound(a * num, den);
    assert(0 <= d <= num) by (nonlinear_arith)
        requires
            a * num == den * d + m,
            0 <= m < den,
            0 <= a <= den,
            num >= 0,
    ;
}

proof fn lemma_scale_back(a: int, num: int, den: int)
    requires
        0 <= a <= den,
        den > 0,
        num > 0,
    ensures
        0 <= scale(a, num, den) <= num,
        0 <= scale(scale(a, num, den), den, num) <= a,
        (a - scale(scale(a, num, den), den, num)) * num < den + num,
{
    lemma_scale_within(a, num, den);
    let d = scale(a, num, den);
    let s = scale(d, den, num);
    lemma_scale_within(d, den, num);
    lemma_fundamental_div_mod(a * num, den);
    lemma_mod_bound(a * num, den);
    lemma_fundamental_div_mod(d * den, num);
    lemma_mod_bound(d * den, num);
    let m1 = (a * num) % den;
    let m2 = (d * den) % num;
    assert(s <= a && (a - s) * num < den + num) by (nonlinear_arith)
        requires
            a * num == den * d + m1,
            0 <= m1 < den,
            d * den == num * s + m2,
            0 <= m2 < num,
            den > 0,
            num > 0,
    ;
}

/// A domain of zero width maps every x to the plot area's horizontal
/// centre, and one of zero height every y to its vertical centre.
pub proof fn degenerate_domain_maps_to_centre(p: Projection, x: int, y: int)
    requires
        p.wf(),
    ensures
        p.range.width_spec() == 0 ==> p.svg_x(x) == p.inner.centre_x_spec(),
        p.range.height_spec() == 0 ==> p.svg_y(y) == p.inner.centre_y_spec(),
{
}

/// A data position inside the domain lands inside the plot area.
pub proof fn projection_keeps_range_inside(p: Projection, x: int, y: int)
    requires
        p.wf(),
        p.range.left <= x <= p.range.right,
        p.range.top <= y <= p.range.bottom,
    ensures
        p.inner.left <= p.svg_x(x) <= p.inner.right,
        p.inner.top <= p.svg_y(y) <= p.inner.bottom,
{
    if p.range.width_spec() != 0 {
        lemma_scale_within(x - p.range.left, p.inner.width_spec(), p.range.width_spec());
    }
    if p.range.height_spec() != 0 {
        lemma_scale_within(y - p.range.top, p.inner.height_spec(), p.range.height_spec());
    }
}

/// Mapping a pixel of the plot area to data and back returns it up to the
/// rounding of both maps: never past it (x: never right of it; y: never
/// above it), and short of it by less than one data unit's span in pixels
/// plus one pixel.
pub proof fn pixel_round_trip(p: Projection, sx: int, sy: int)
    requires
        p.wf(),
        p.range.width_spec() > 0,
        p.range.height_spec() > 0,
        p.inner.width_spec() > 0,
        p.inner.height_spec() > 0,
        p.inner.left <= sx <= p.inner.right,
        p.inner.top <= sy <= p.inner.bottom,
    ensures
        0 <= sx - p.svg_x(p.data_x(sx)),
        (sx - p.svg_x(p.data_x(sx))) * p.range.width_spec() < p.inner.width_spec()
            + p.range.width_spec(),
        0 <= p.svg_y(p.data_y(sy)) - sy,
        (p.svg_y(p.data_y(sy)) - sy) * p.range.height_spec() < p.inner.height_spec()
            + p.range.height_spec(),
{
    lemma_scale_back(sx - p.inner.left, p.range.width_spec(), p.inner.width_spec());
    lemma_scale_back(p.inner.bottom - sy, p.range.height_spec(), p.inner.height_spec());
}

} // verus!
