use vstd::prelude::*;
use crate::aspect::{AspectRatio, KnownAspectRatio};
use crate::bounds::{Bounds, Padding, advance_exec, min_int};
use crate::data::{UseData, positions_of, sorted_present};
use crate::layout::{
    Edge, EdgeLayout, Font, Layout, compose, fwd_cursors, ints, is_composed, layout_conservation,
    lemma_sizes_nonneg, lemma_sum_nonneg, lemma_sum_take_all, measure, sizes, sum,
};
use crate::projection::{Projection, clamp64};

verus! {

/// Where an axis marker is drawn.
#[derive(Clone, Copy, Debug, PartialEq, Eq, Structural)]
pub enum Placement {
    /// Along the plot area's edge.
    Edge,
    /// Through the data's zero.
    Zero,
}

/// A line drawn inside the plot area along one of its edges or through zero.
#[derive(Clone, Copy, Debug, PartialEq, Eq, Structural)]
pub struct AxisMarker {
    pub edge: Edge,
    pub placement: Placement,
    pub arrow: bool,
    /// Stroke width in pixels.
    pub width: u32,
}

impl AxisMarker {
    fn new(edge: Edge, placement: Placement) -> (r: AxisMarker)
        ensures
            r == (AxisMarker { edge, placement, arrow: true, width: 1 }),
    {
        AxisMarker { edge, placement, arrow: true, width: 1 }
    }

    pub fn top_edge() -> (r: AxisMarker)
        ensures
            r == (AxisMarker { edge: Edge::Top, placement: Placement::Edge, arrow: true, width: 1 }),
    {
        AxisMarker::new(Edge::Top, Placement::Edge)
    }

    pub fn right_edge() -> (r: AxisMarker)
        ensures
            r == (AxisMarker { edge: Edge::Right, placement: Placement::Edge, arrow: true, width: 1 }),
    {
        AxisMarker::new(Edge::Right, Placement::Edge)
    }

    pub fn bottom_edge() -> (r: AxisMarker)
        ensures
            r == (AxisMarker {
                edge: Edge::Bottom,
                placement: Placement::Edge,
                arrow: true,
                width: 1,
            }),
    {
        AxisMarker::new(Edge::Bottom, Placement::Edge)
    }

    pub fn left_edge() -> (r: AxisMarker)
        ensures
            r == (AxisMarker { edge: Edge::Left, placement: Placement::Edge, arrow: true, width: 1 }),
    {
        AxisMarker::new(Edge::Left, Placement::Edge)
    }

    /// A horizontal line at y zero.
    pub fn horizontal_zero() -> (r: AxisMarker)
        ensures
            r == (AxisMarker {
                edge: Edge::Bottom,
                placement: Placement::Zero,
                arrow: true,
                width: 1,
            }),
    {
        AxisMarker::new(Edge::Bottom, Placement::Zero)
    }

    /// A vertical line at x zero.
    pub fn vertical_zero() -> (r: AxisMarker)
        ensures
            r == (AxisMarker { edge: Edge::Left, placement: Placement::Zero, arrow: true, width: 1 }),
    {
        AxisMarker::new(Edge::Left, Placement::Zero)
    }

    pub fn set_arrow(self, arrow: bool) -> (r: AxisMarker)
        ensures
            r == (AxisMarker { arrow, ..self }),
    {
        AxisMarker { arrow, ..self }
    }

    pub fn set_width(self, width: u32) -> (r: AxisMarker)
        ensures
            r == (AxisMarker { width, ..self }),
    {
        AxisMarker { width, ..self }
    }

    /// The line's end points `(x1, y1, x2, y2)`; vertical lines run upwards.
    pub open spec fn line_spec(&self, p: Projection) -> (int, int, int, int) {
        let b = p.inner;
        let (top, right, bottom, left) = (b.top as int, b.right as int, b.bottom as int, b.left as int);
        match self.placement {
            Placement::Edge => match self.edge {
                Edge::Top => (left, top, right, top),
                Edge::Bottom => (left, bottom, right, bottom),
                Edge::Left => (left, bottom, left, top),
                Edge::Right => (right, bottom, right, top),
            },
            Placement::Zero => {
                let zx = p.svg_x(0);
                let zy = p.svg_y(0);
                match self.edge {
                    Edge::Top | Edge::Bottom => (left, zy, right, zy),
                    Edge::Left | Edge::Right => (zx, bottom, zx, top),
                }
            },
        }
    }

    pub fn line(&self, p: &Projection) -> (r: (i64, i64, i64, i64))
        requires
            p.wf(),
        ensures
            (r.0 as int, r.1 as int, r.2 as int, r.3 as int) == self.line_spec(*p),
    {
        let b = p.bounds();
        let (top, right, bottom, left) = (b.top_y(), b.right_x(), b.bottom_y(), b.left_x());
        match self.placement {
            Placement::Edge => match self.edge {
                Edge::Top => (left, top, right, top),
                Edge::Bottom => (left, bottom, right, bottom),
                Edge::Left => (left, bottom, left, top),
                Edge::Right => (right, bottom, right, top),
            },
            Placement::Zero => {
                let (zx, zy) = p.data_to_svg(0, 0);
                match self.edge {
                    Edge::Top | Edge::Bottom => (left, zy, right, zy),
                    Edge::Left | Edge::Right => (zx, bottom, zx, top),
                }
            },
        }
    }
}

/// The chart's outer bounds for a resolved policy, given the total
/// thicknesses of the decorations on each edge. For a policy on the plot
/// area the chart grows by the decorations, up to the largest coordinate.
pub open spec fn outer_spec(known: KnownAspectRatio, t: int, r: int, b: int, l: int) -> Bounds {
    match known {
        KnownAspectRatio::Outer { width, height } => Bounds {
            left: 0,
            top: 0,
            right: width as i64,
            bottom: height as i64,
        },
        KnownAspectRatio::Inner { width, height } => Bounds {
            left: 0,
            top: 0,
            right: min_int(width + l + r, i64::MAX as int) as i64,
            bottom: min_int(height + t + b, i64::MAX as int) as i64,
        },
    }
}

/// The total thickness of `s`, held to `i64::MAX`.
fn total(s: &Vec<u64>) -> (r: i64)
    ensures
        r == min_int(sum(ints(s@)), i64::MAX as int),
        r >= 0,
{
    let c = fwd_cursors(0, i64::MAX, s);
    proof {
        lemma_sum_take_all(ints(s@));
    }
    c[s.len()]
}

/// A chart laid out for one container size: the decorations' and plot
/// area's rectangles, the projection onto the plot area, and each axis
/// marker's line.
#[derive(Clone, Debug)]
pub struct RenderedChart {
    pub layout: Layout,
    pub projection: Projection,
    pub markers: Vec<(i64, i64, i64, i64)>,
}

/// A chart's configuration: its sizing policy, text metrics, padding (one
/// character width of the font on every side unless set), the decorations
/// of each edge in visual order, and the axis markers inside.
#[derive(Clone, Debug)]
pub struct Chart {
    pub aspect_ratio: AspectRatio,
    pub font: Font,
    pub padding: Option<Padding>,
    pub top: Vec<EdgeLayout>,
    pub right: Vec<EdgeLayout>,
    pub bottom: Vec<EdgeLayout>,
    pub left: Vec<EdgeLayout>,
    pub inner: Vec<AxisMarker>,
}

impl Chart {
    /// A chart with the default font, the default padding and no
    /// decorations.
    pub fn new(aspect_ratio: AspectRatio) -> (r: Chart)
        ensures
            r.aspect_ratio == aspect_ratio,
            r.font == Font::default_metrics_spec(),
            r.padding.is_none(),
            r.top@.len() == 0 && r.right@.len() == 0,
            r.bottom@.len() == 0 && r.left@.len() == 0,
            r.inner@.len() == 0,
    {
        Chart {
            aspect_ratio,
            font: Font::default_metrics(),
            padding: None,
            top: Vec::new(),
            right: Vec::new(),
            bottom: Vec::new(),
            left: Vec::new(),
            inner: Vec::new(),
        }
    }

    pub fn set_font(self, font: Font) -> (r: Chart)
        ensures
            r == (Chart { font, ..self }),
    {
        Chart { font, ..self }
    }

    pub fn set_padding(self, padding: Padding) -> (r: Chart)
        ensures
            r == (Chart { padding: Some(padding), ..self }),
    {
        Chart { padding: Some(padding), ..self }
    }

    /// The padding in use: the one set, else the font's character width on
    /// every side.
    pub open spec fn padding_spec(&self) -> Padding {
        match self.padding {
            Some(p) => p,
            None => Padding::from_spec(self.font.width),
        }
    }

    pub fn padding(&self) -> (r: Padding)
        ensures
            r == self.padding_spec(),
    {
        match self.padding {
            Some(p) => p,
            None => Padding::from(self.font.width),
        }
    }

    /// The outer bounds the chart takes for a resolved policy.
    pub open spec fn outer_for(&self, known: KnownAspectRatio) -> Bounds {
        outer_spec(
            known,
            sum(sizes(self.top@, true, self.font, self.padding_spec())),
            sum(sizes(self.right@, false, self.font, self.padding_spec())),
            sum(sizes(self.bottom@, true, self.font, self.padding_spec())),
            sum(sizes(self.left@, false, self.font, self.padding_spec())),
        )
    }

    /// Lays the chart out for the container's measured size and the data.
    /// Nothing is laid out before the container has been measured. The
    /// policy gives the outer bounds (for a policy on the plot area, once the
    /// decorations have been measured), the edges are composed within them,
    /// and the projection maps the data's domain onto the plot area. The
    /// result depends on the inputs alone.
    pub fn render(&self, data: &UseData, container: Option<(u32, u32)>) -> (r: Option<RenderedChart>)
        requires
            self.aspect_ratio.wf(),
            data.wf(),
        ensures
            container.is_none() <==> r.is_none(),
            r.is_some() ==> {
                let rc = r.unwrap();
                let (w, h) = container.unwrap();
                let (is_inner, kw, kh) = self.aspect_ratio.known_spec(w as int, h as int);
                let known = if is_inner {
                    KnownAspectRatio::Inner { width: kw as u32, height: kh as u32 }
                } else {
                    KnownAspectRatio::Outer { width: kw as u32, height: kh as u32 }
                };
                let outer = self.outer_for(known);
                &&& outer.wf()
                &&& is_composed(
                    rc.layout,
                    self.top@,
                    self.right@,
                    self.bottom@,
                    self.left@,
                    outer,
                    self.font,
                    self.padding_spec(),
                )
                &&& rc.projection == (Projection {
                    inner: rc.layout.inner,
                    range: data.position_range,
                })
                &&& rc.projection.wf()
                &&& rc.markers@.len() == self.inner@.len()
                &&& forall|i: int|
                    0 <= i < self.inner@.len() ==> {
                        let m = #[trigger] rc.markers@[i];
                        (m.0 as int, m.1 as int, m.2 as int, m.3 as int) == self.inner@[i].line_spec(
                            rc.projection,
                        )
                    }
            },
    {
        let known = match self.aspect_ratio.known(container) {
            Some(k) => k,
            None => return None,
        };
        let padding = self.padding();
        let st = measure(&self.top, true, self.font, padding);
        let sr = measure(&self.right, false, self.font, padding);
        let sb = measure(&self.bottom, true, self.font, padding);
        let sl = measure(&self.left, false, self.font, padding);
        let outer = match known {
            KnownAspectRatio::Outer { width, height } => Bounds::from_size(width, height),
            KnownAspectRatio::Inner { width, height } => {
                let (t, r, b, l) = (total(&st), total(&sr), total(&sb), total(&sl));
                let w = advance_exec(advance_exec(width as i64, i64::MAX, l as u64), i64::MAX, r as u64);
                let h = advance_exec(advance_exec(height as i64, i64::MAX, t as u64), i64::MAX, b as u64);
                proof {
                    lemma_sizes_nonneg(self.top@, true, self.font, self.padding_spec());
                    lemma_sizes_nonneg(self.right@, false, self.font, self.padding_spec());
                    lemma_sizes_nonneg(self.bottom@, true, self.font, self.padding_spec());
                    lemma_sizes_nonneg(self.left@, false, self.font, self.padding_spec());
                    lemma_sum_nonneg(ints(st@));
                    lemma_sum_nonneg(ints(sr@));
                    lemma_sum_nonneg(ints(sb@));
                    lemma_sum_nonneg(ints(sl@));
                }
                Bounds { left: 0, top: 0, right: w, bottom: h }
            },
        };
        let layout = compose(&self.top, &self.right, &self.bottom, &self.left, outer, self.font, padding);
        let projection = Projection::new(layout.inner, data.position_range);
        let mut markers: Vec<(i64, i64, i64, i64)> = Vec::new();
        let mut i: usize = 0;
        while i < self.inner.len()
            invariant
                projection.wf(),
                i <= self.inner@.len(),
                markers@.len() == i,
                forall|k: int|
                    0 <= k < i ==> {
                        let m = #[trigger] markers@[k];
                        (m.0 as int, m.1 as int, m.2 as int, m.3 as int) == self.inner@[k].line_spec(
                            projection,
                        )
                    },
            decreases self.inner.len() - i,
        {
            markers.push(self.inner[i].line(&projection));
            i = i + 1;
        }
        Some(RenderedChart { layout, projection, markers })
    }
}

/// Under a policy on the plot area, the plot area gets exactly the size the
/// policy resolved to, as long as the chart it needs fits the coordinates.
pub proof fn inner_policy_sizes_plot_area(chart: Chart, r: Layout, width: u32, height: u32)
    requires
        ({
            let t = sum(sizes(chart.top@, true, chart.font, chart.padding_spec()));
            let b = sum(sizes(chart.bottom@, true, chart.font, chart.padding_spec()));
            let l = sum(sizes(chart.left@, false, chart.font, chart.padding_spec()));
            let rt = sum(sizes(chart.right@, false, chart.font, chart.padding_spec()));
            width + l + rt <= i64::MAX && height + t + b <= i64::MAX
        }),
        is_composed(
            r,
            chart.top@,
            chart.right@,
            chart.bottom@,
            chart.left@,
            chart.outer_for(KnownAspectRatio::Inner { width, height }),
            chart.font,
            chart.padding_spec(),
        ),
    ensures
        r.inner.width_spec() == width,
        r.inner.height_spec() == height,
{
    let outer = chart.outer_for(KnownAspectRatio::Inner { width, height });
    lemma_sizes_nonneg(chart.top@, true, chart.font, chart.padding_spec());
    lemma_sizes_nonneg(chart.right@, false, chart.font, chart.padding_spec());
    lemma_sizes_nonneg(chart.bottom@, true, chart.font, chart.padding_spec());
    lemma_sizes_nonneg(chart.left@, false, chart.font, chart.padding_spec());
    lemma_sum_nonneg(sizes(chart.top@, true, chart.font, chart.padding_spec()));
    lemma_sum_nonneg(sizes(chart.right@, false, chart.font, chart.padding_spec()));
    lemma_sum_nonneg(sizes(chart.bottom@, true, chart.font, chart.padding_spec()));
    lemma_sum_nonneg(sizes(chart.left@, false, chart.font, chart.padding_spec()));
    layout_conservation(
        r,
        chart.top@,
        chart.right@,
        chart.bottom@,
        chart.left@,
        outer,
        chart.font,
        chart.padding_spec(),
    );
}

/// How text is anchored at its x position.
#[derive(Clone, Copy, Debug, PartialEq, Eq, Structural)]
pub enum Anchor {
    Start,
    Middle,
    End,
}

/// Where one tick label goes: its rectangle, padding included, the content
/// area inside the padding, and the text's anchor point.
#[derive(Clone, Copy, Debug, PartialEq, Eq, Structural)]
pub struct TickLabelPlacement {
    pub bounds: Bounds,
    pub content: Bounds,
    pub anchor: Anchor,
    pub x: i64,
    pub y: i64,
}

/// `v - d / 2`, rounded down and held to `i64`.
pub open spec fn start_of_centred(v: int, d: int) -> int {
    clamp64(v - d / 2)
}

fn centred_span(v: i64, d: u64) -> (r: (i64, i64))
    ensures
        r.0 == start_of_centred(v as int, d as int),
        r.1 == clamp64(r.0 + d),
        r.0 <= r.1,
{
    let a = (v as i128) - ((d / 2) as i128);
    let lo: i64 = if a < (i64::MIN as i128) {
        i64::MIN
    } else {
        a as i64
    };
    let b = (lo as i128) + (d as i128);
    let hi: i64 = if b > (i64::MAX as i128) {
        i64::MAX
    } else {
        b as i64
    };
    (lo, hi)
}

/// The rectangle a tick label of `len` characters at data position
/// `position` takes on `edge`, whose decoration occupies `bounds`.
pub open spec fn tick_label_bounds_spec(
    edge: Edge,
    bounds: Bounds,
    p: Projection,
    len: u32,
    position: i64,
    font: Font,
    padding: Padding,
) -> Bounds {
    let width = font.width * len + padding.left + padding.right;
    let height = font.height + padding.top + padding.bottom;
    match edge {
        Edge::Top | Edge::Bottom => {
            let x = start_of_centred(p.svg_x(position as int), width);
            Bounds {
                left: x as i64,
                top: bounds.top,
                right: clamp64(x + width) as i64,
                bottom: bounds.bottom,
            }
        },
        Edge::Left | Edge::Right => {
            let y = start_of_centred(p.svg_y(position as int), height);
            Bounds {
                left: bounds.left,
                top: y as i64,
                right: bounds.right,
                bottom: clamp64(y + height) as i64,
            }
        },
    }
}

/// What `tick_label` places: the rectangle of `tick_label_bounds_spec`, its
/// content inside the padding, and the anchor point of the text.
pub open spec fn tick_label_spec(
    edge: Edge,
    bounds: Bounds,
    p: Projection,
    len: u32,
    position: i64,
    font: Font,
    padding: Padding,
) -> TickLabelPlacement {
    let b = tick_label_bounds_spec(edge, bounds, p, len, position, font, padding);
    let c = b.padded(padding);
    TickLabelPlacement {
        bounds: b,
        content: c,
        anchor: match edge {
            Edge::Top | Edge::Bottom => Anchor::Middle,
            Edge::Left => Anchor::End,
            Edge::Right => Anchor::Start,
        },
        x: (match edge {
            Edge::Top | Edge::Bottom => c.centre_x_spec(),
            Edge::Left => c.right as int,
            Edge::Right => c.left as int,
        }) as i64,
        y: c.centre_y_spec() as i64,
    }
}

/// Places one tick label: centred on its position along the edge and
/// spanning the edge decoration's depth. The text sits in the middle of the
/// content area on the top and bottom edges, against the plot area on the
/// left (anchored at its end) and on the right (anchored at its start).
pub fn tick_label(
    edge: Edge,
    bounds: Bounds,
    p: &Projection,
    len: u32,
    position: i64,
    font: Font,
    padding: Padding,
) -> (r: TickLabelPlacement)
    requires
        bounds.wf(),
        p.wf(),
    ensures
        r == tick_label_spec(edge, bounds, *p, len, position, font, padding),
        r.bounds.wf(),
{
    proof {
        assert(font.width * len <= u32::MAX * u32::MAX) by (nonlinear_arith)
            requires
                font.width <= u32::MAX,
                len <= u32::MAX,
        ;
    }
    let width = (font.width as u64) * (len as u64) + padding.width();
    let height = font.height as u64 + padding.height();
    let (sx, sy) = p.data_to_svg(position, position);
    let b = match edge {
        Edge::Top | Edge::Bottom => {
            let (x0, x1) = centred_span(sx, width);
            Bounds { left: x0, top: bounds.top, right: x1, bottom: bounds.bottom }
        },
        Edge::Left | Edge::Right => {
            let (y0, y1) = centred_span(sy, height);
            Bounds { left: bounds.left, top: y0, right: bounds.right, bottom: y1 }
        },
    };
    let content = b.apply_padding(padding);
    let (anchor, x) = match edge {
        Edge::Top | Edge::Bottom => (Anchor::Middle, content.centre_x()),
        Edge::Left => (Anchor::End, content.right_x()),
        Edge::Right => (Anchor::Start, content.left_x()),
    };
    TickLabelPlacement { bounds: b, content, anchor, x, y: content.centre_y() }
}

/// The pixel coordinates of every line's points: for line `l` and record
/// `i`, the projection of `(x, y)` where the record has x position `x` and
/// the line holds `y` there, `None` where either is absent.
pub fn render_data(data: &UseData, p: &Projection) -> (r: Vec<Vec<Option<(i64, i64)>>>)
    requires
        data.wf(),
        p.wf(),
    ensures
        r@.len() == data.data_y_lines@.len(),
        forall|l: int|
            0 <= l < r@.len() ==> (#[trigger] r@[l])@.len() == data.data_x@.len(),
        forall|l: int, i: int|
            0 <= l < r@.len() && 0 <= i < data.data_x@.len() ==> #[trigger] r@[l]@[i] == (
            match (data.data_x@[i], data.data_y_lines@[l]@[i]) {
                (Some(x), Some(y)) => Some((p.svg_x(x as int) as i64, p.svg_y(y as int) as i64)),
                _ => None,
            }),
{
    let n = data.data_x.len();
    let mut r: Vec<Vec<Option<(i64, i64)>>> = Vec::new();
    let mut l: usize = 0;
    while l < data.data_y_lines.len()
        invariant
            data.wf(),
            p.wf(),
            n == data.data_x@.len(),
            l <= data.data_y_lines@.len(),
            r@.len() == l,
            forall|k: int| 0 <= k < l ==> (#[trigger] r@[k])@.len() == n,
            forall|k: int, i: int|
                0 <= k < l && 0 <= i < n ==> #[trigger] r@[k]@[i] == (
                match (data.data_x@[i], data.data_y_lines@[k]@[i]) {
                    (Some(x), Some(y)) => Some((p.svg_x(x as int) as i64, p.svg_y(y as int) as i64)),
                    _ => None,
                }),
        decreases data.data_y_lines.len() - l,
    {
        let ys = &data.data_y_lines[l];
        let mut coords: Vec<Option<(i64, i64)>> = Vec::new();
        let mut i: usize = 0;
        while i < n
            invariant
                data.wf(),
                p.wf(),
                n == data.data_x@.len(),
                l < data.data_y_lines@.len(),
                *ys == data.data_y_lines@[l as int],
                coords@.len() == i,
                i <= n,
                forall|j: int|
                    0 <= j < i ==> #[trigger] coords@[j] == (match (data.data_x@[j], data.data_y_lines@[l as int]@[j]) {
                        (Some(x), Some(y)) => Some(
                            (p.svg_x(x as int) as i64, p.svg_y(y as int) as i64),
                        ),
                        _ => None,
                    }),
            decreases n - i,
        {
            let c = match (data.data_x[i], ys[i]) {
                (Some(x), Some(y)) => Some(p.position_to_svg(x, y)),
                _ => None,
            };
            coords.push(c);
            i = i + 1;
        }
        r.push(coords);
        l = l + 1;
    }
    r
}

/// Places every tick label of an edge decoration: tick `k` is at data
/// position `ticks[k].0` and its label has `ticks[k].1` characters.
pub fn tick_labels(
    edge: Edge,
    bounds: Bounds,
    p: &Projection,
    ticks: &Vec<(i64, u32)>,
    font: Font,
    padding: Padding,
) -> (r: Vec<TickLabelPlacement>)
    requires
        bounds.wf(),
        p.wf(),
    ensures
        r@.len() == ticks@.len(),
        forall|k: int|
            0 <= k < ticks@.len() ==> #[trigger] r@[k] == tick_label_spec(
                edge,
                bounds,
                *p,
                ticks@[k].1,
                ticks@[k].0,
                font,
                padding,
            ),
{
    let mut r: Vec<TickLabelPlacement> = Vec::new();
    let mut k: usize = 0;
    while k < ticks.len()
        invariant
            bounds.wf(),
            p.wf(),
            k <= ticks@.len(),
            r@.len() == k,
            forall|j: int|
                0 <= j < k ==> #[trigger] r@[j] == tick_label_spec(
                    edge,
                    bounds,
                    *p,
                    ticks@[j].1,
                    ticks@[j].0,
                    font,
                    padding,
                ),
        decreases ticks.len() - k,
    {
        let (position, len) = ticks[k];
        r.push(tick_label(edge, bounds, p, len, position, font, padding));
        k = k + 1;
    }
    r
}

/// A vertical guide line that follows the pointer: at pixel x `cursor_x` it
/// snaps to the record nearest the data position under the pointer and
/// returns that record's pixel x; `None` without data.
pub fn guide_line_x(data: &UseData, p: &Projection, cursor_x: i64) -> (r: Option<i64>)
    requires
        p.wf(),
        sorted_present(data.data_x@),
    ensures
        r == (match data.nearest_spec(p.data_x(cursor_x as int)) {
            Some(k) => Some(p.svg_x(positions_of(data.data_x@)[k] as int) as i64),
            None => None,
        }),
{
    let (q, _) = p.svg_to_data(cursor_x, 0);
    match data.nearest_position_x(q) {
        Some(x) => {
            let (sx, _) = p.data_to_svg(x, 0);
            Some(sx)
        },
        None => None,
    }
}

/// Vertical grid lines `(x1, y1, x2, y2)` across the plot area, one at each
/// data position in `ticks`, running upwards.
pub fn grid_lines_x(p: &Projection, ticks: &Vec<i64>) -> (r: Vec<(i64, i64, i64, i64)>)
    requires
        p.wf(),
    ensures
        r@.len() == ticks@.len(),
        forall|k: int|
            0 <= k < ticks@.len() ==> {
                let x = p.svg_x(ticks@[k] as int) as i64;
                #[trigger] r@[k] == (x, p.inner.bottom, x, p.inner.top)
            },
{
    let mut r: Vec<(i64, i64, i64, i64)> = Vec::new();
    let mut k: usize = 0;
    while k < ticks.len()
        invariant
            p.wf(),
            k <= ticks@.len(),
            r@.len() == k,
            forall|j: int|
                0 <= j < k ==> {
                    let x = p.svg_x(ticks@[j] as int) as i64;
                    #[trigger] r@[j] == (x, p.inner.bottom, x, p.inner.top)
                },
        decreases ticks.len() - k,
    {
        let (x, _) = p.data_to_svg(ticks[k], 0);
        r.push((x, p.inner.bottom, x, p.inner.top));
        k = k + 1;
    }
    r
}

/// Horizontal grid lines `(x1, y1, x2, y2)` across the plot area, one at
/// each data position in `ticks`, running rightwards.
pub fn grid_lines_y(p: &Projection, ticks: &Vec<i64>) -> (r: Vec<(i64, i64, i64, i64)>)
    requires
        p.wf(),
    ensures
        r@.len() == ticks@.len(),
        forall|k: int|
            0 <= k < ticks@.len() ==> {
                let y = p.svg_y(ticks@[k] as int) as i64;
                #[trigger] r@[k] == (p.inner.left, y, p.inner.right, y)
            },
{
    let mut r: Vec<(i64, i64, i64, i64)> = Vec::new();
    let mut k: usize = 0;
    while k < ticks.len()
        invariant
            p.wf(),
            k <= ticks@.len(),
            r@.len() == k,
            forall|j: int|
                0 <= j < k ==> {
                    let y = p.svg_y(ticks@[j] as int) as i64;
                    #[trigger] r@[j] == (p.inner.left, y, p.inner.right, y)
                },
        decreases ticks.len() - k,
    {
        let (_, y) = p.data_to_svg(0, ticks[k]);
        r.push((p.inner.left, y, p.inner.right, y));
        k = k + 1;
    }
    r
}

/// Without padding, a tick label on the top or bottom edge fills its
/// rectangle and its text is centred on the tick's pixel x and on the edge
/// decoration's middle, as long as the label's ends stay within `i64`.
pub proof fn tick_label_without_padding(
    edge: Edge,
    bounds: Bounds,
    p: Projection,
    len: u32,
    position: i64,
    font: Font,
)
    requires
        bounds.wf(),
        p.wf(),
        edge == Edge::Top || edge == Edge::Bottom,
        ({
            let w = font.width * len;
            let x = p.svg_x(position as int);
            i64::MIN <= x - w / 2 && x - w / 2 + w <= i64::MAX
        }),
    ensures
        ({
            let zero = Padding { top: 0, right: 0, bottom: 0, left: 0 };
            let t = tick_label_spec(edge, bounds, p, len, position, font, zero);
            &&& t.content == t.bounds
            &&& t.anchor == Anchor::Middle
            &&& t.x == p.svg_x(position as int)
            &&& t.y == bounds.top + (bounds.bottom - bounds.top) / 2
        }),
{
    assert(font.width * len >= 0) by (nonlinear_arith)
        requires
            font.width >= 0,
            len >= 0,
    ;
}

} // verus!
