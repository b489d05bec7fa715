use vstd::prelude::*;
use crate::bounds::{
    Bounds, Padding, advance, retreat, advance_exec, retreat_exec, max_int,
};

verus! {

/// Default font height in pixels.
pub const FONT_HEIGHT: u32 = 16;

/// Default width of one monospaced character in pixels.
pub const FONT_WIDTH: u32 = 10;

/// One side of the chart.
#[derive(Clone, Copy, Debug, PartialEq, Eq, Structural)]
pub enum Edge {
    Top,
    Right,
    Bottom,
    Left,
}

/// Metrics of a monospaced font: line height and character width.
#[derive(Clone, Copy, Debug, PartialEq, Eq, Structural)]
pub struct Font {
    pub height: u32,
    pub width: u32,
}

impl Font {
    pub fn new(height: u32, width: u32) -> (r: Font)
        ensures
            r == (Font { height, width }),
    {
        Font { height, width }
    }

    pub open spec fn default_metrics_spec() -> Font {
        Font { height: FONT_HEIGHT, width: FONT_WIDTH }
    }

    pub fn default_metrics() -> (r: Font)
        ensures
            r == Font::default_metrics_spec(),
    {
        Font { height: FONT_HEIGHT, width: FONT_WIDTH }
    }
}

/// A decoration attached to one edge of the chart. Its position is chosen by
/// `compose`; it only knows its own thickness.
#[derive(Clone, Debug)]
pub enum EdgeLayout {
    /// A line of text, rotated to run along the edge.
    RotatedLabel { text: String },
    /// A legend whose longest series name has `widest` characters.
    Legend { widest: u32 },
    /// Axis tick labels whose longest label has `widest` characters.
    TickLabels { widest: u32 },
}

impl EdgeLayout {
    /// The space taken across the edge: a height on the top and bottom
    /// edges (`horizontal`), a width on the left and right.
    pub open spec fn size_spec(&self, horizontal: bool, font: Font, padding: Padding) -> int {
        match self {
            EdgeLayout::RotatedLabel { .. } => if horizontal {
                font.height + padding.top + padding.bottom
            } else {
                font.height + padding.left + padding.right
            },
            EdgeLayout::Legend { widest } | EdgeLayout::TickLabels { widest } => if horizontal {
                font.height + padding.top + padding.bottom
            } else {
                font.width * *widest + padding.left + padding.right
            },
        }
    }

    pub fn size(&self, horizontal: bool, font: Font, padding: Padding) -> (r: u64)
        ensures
            r == self.size_spec(horizontal, font, padding),
    {
        match self {
            EdgeLayout::RotatedLabel { .. } => if horizontal {
                font.height as u64 + padding.height()
            } else {
                font.height as u64 + padding.width()
            },
            EdgeLayout::Legend { widest } | EdgeLayout::TickLabels { widest } => if horizontal {
                font.height as u64 + padding.height()
            } else {
                proof {
                    assert(font.width * *widest <= u32::MAX * u32::MAX) by (nonlinear_arith)
                        requires
                            font.width <= u32::MAX,
                            *widest <= u32::MAX,
                    ;
                }
                (font.width as u64) * (*widest as u64) + padding.width()
            },
        }
    }
}

pub open spec fn sum(s: Seq<int>) -> int
    decreases s.len(),
{
    if s.len() == 0 {
        0
    } else {
        sum(s.drop_last()) + s.last()
    }
}

/// The thickness of each decoration of one edge.
pub open spec fn sizes(items: Seq<EdgeLayout>, horizontal: bool, font: Font, padding: Padding) -> Seq<int> {
    Seq::new(items.len(), |i: int| items[i].size_spec(horizontal, font, padding))
}

/// Where the `k`-th decoration starts when decorations are stacked from
/// `start` towards `limit`, outermost first.
pub open spec fn fwd_cursor(start: int, limit: int, s: Seq<int>, k: int) -> int {
    advance(start, limit, sum(s.take(k)))
}

/// Where the `k`-th decoration starts when decorations are stacked from `end`
/// back towards `limit`, outermost last.
pub open spec fn bwd_cursor(limit: int, end: int, s: Seq<int>, k: int) -> int {
    retreat(limit, end, sum(s) - sum(s.take(k)))
}

pub open spec fn ints(s: Seq<u64>) -> Seq<int> {
    s.map_values(|v: u64| v as int)
}

proof fn lemma_sum_take_step(s: Seq<int>, k: int)
    requires
        0 <= k < s.len(),
    ensures
        sum(s.take(k + 1)) == sum(s.take(k)) + s[k],
{
    assert(s.take(k + 1).drop_last() =~= s.take(k));
}

pub(crate) proof fn lemma_sum_take_all(s: Seq<int>)
    ensures
        sum(s.take(s.len() as int)) == sum(s),
{
    assert(s.take(s.len() as int) =~= s);
}

proof fn lemma_sum_take_mono(s: Seq<int>, i: int, j: int)
    requires
        0 <= i <= j <= s.len(),
        forall|k: int| 0 <= k < s.len() ==> s[k] >= 0,
    ensures
        sum(s.take(i)) <= sum(s.take(j)),
        j == i + 1 ==> sum(s.take(j)) == sum(s.take(i)) + s[i],
    decreases j - i,
{
    if i < j {
        lemma_sum_take_step(s, j - 1);
        lemma_sum_take_mono(s, i, j - 1);
    }
}

pub(crate) proof fn lemma_sum_nonneg(s: Seq<int>)
    requires
        forall|k: int| 0 <= k < s.len() ==> s[k] >= 0,
    ensures
        sum(s) >= 0,
{
    lemma_sum_take_mono(s, 0, s.len() as int);
    lemma_sum_take_all(s);
    assert(s.take(0) =~= Seq::<int>::empty());
}

/// The thickness of each decoration in `items`.
pub(crate) fn measure(items: &Vec<EdgeLayout>, horizontal: bool, font: Font, padding: Padding) -> (r: Vec<u64>)
    ensures
        ints(r@) == sizes(items@, horizontal, font, padding),
{
    let mut r: Vec<u64> = Vec::new();
    let mut i: usize = 0;
    while i < items.len()
        invariant
            i <= items.len(),
            r@.len() == i,
            forall|k: int| 0 <= k < i ==> r@[k] == items@[k].size_spec(horizontal, font, padding),
        decreases items.len() - i,
    {
        r.push(items[i].size(horizontal, font, padding));
        i = i + 1;
    }
    assert(ints(r@) =~= sizes(items@, horizontal, font, padding));
    r
}

/// Cursor positions stacking `s` from `start` towards `limit`: one more
/// than there are decorations, the last being where the plot area begins.
pub(crate) fn fwd_cursors(start: i64, limit: i64, s: &Vec<u64>) -> (r: Vec<i64>)
    requires
        start <= limit,
    ensures
        r@.len() == s@.len() + 1,
        forall|k: int|
            0 <= k <= s@.len() ==> #[trigger] r@[k] == fwd_cursor(
                start as int,
                limit as int,
                ints(s@),
                k,
            ),
        forall|k: int| 0 <= k <= s@.len() ==> start <= #[trigger] r@[k] <= limit,
{
    let ghost t = ints(s@);
    let mut r: Vec<i64> = Vec::new();
    r.push(start);
    let mut c = start;
    let mut i: usize = 0;
    proof {
        assert(t.take(0) =~= Seq::<int>::empty());
    }
    while i < s.len()
        invariant
            t == ints(s@),
            start <= limit,
            i <= s@.len(),
            r@.len() == i + 1,
            c == r@[i as int],
            forall|k: int|
                0 <= k <= i ==> #[trigger] r@[k] == fwd_cursor(start as int, limit as int, t, k),
            forall|k: int| 0 <= k <= i ==> start <= #[trigger] r@[k] <= limit,
        decreases s.len() - i,
    {
        proof {
            lemma_sum_take_step(t, i as int);
            lemma_sum_take_mono(t, 0, i as int);
            assert(t.take(0) =~= Seq::<int>::empty());
        }
        c = advance_exec(c, limit, s[i]);
        r.push(c);
        i = i + 1;
    }
    r
}

/// Cursor positions stacking `s` back from `end` towards `limit`, the last
/// decoration outermost: entry `k` is where decoration `k` starts, the last
/// entry is `end`, the first where the plot area ends.
fn bwd_cursors(limit: i64, end: i64, s: &Vec<u64>) -> (r: Vec<i64>)
    requires
        limit <= end,
    ensures
        r@.len() == s@.len() + 1,
        forall|k: int|
            0 <= k <= s@.len() ==> #[trigger] r@[k] == bwd_cursor(
                limit as int,
                end as int,
                ints(s@),
                k,
            ),
        forall|k: int| 0 <= k <= s@.len() ==> limit <= #[trigger] r@[k] <= end,
{
    let ghost t = ints(s@);
    let n = s.len();
    // Filled from the outermost decoration inwards, then read back.
    let mut rev: Vec<i64> = Vec::new();
    rev.push(end);
    let mut c = end;
    let mut i: usize = n;
    proof {
        lemma_sum_take_all(t);
    }
    while i > 0
        invariant
            t == ints(s@),
            n == s@.len(),
            limit <= end,
            i <= n,
            rev@.len() == n - i + 1,
            c == rev@[(n - i) as int],
            forall|k: int|
                i <= k <= n ==> #[trigger] rev@[n - k] == bwd_cursor(
                    limit as int,
                    end as int,
                    t,
                    k,
                ),
            forall|k: int| i <= k <= n ==> limit <= #[trigger] rev@[n - k] <= end,
        decreases i,
    {
        proof {
            lemma_sum_take_step(t, i - 1);
            lemma_sum_take_mono(t, i as int, n as int);
            lemma_sum_take_all(t);
        }
        c = retreat_exec(limit, c, s[i - 1]);
        rev.push(c);
        i = i - 1;
    }
    let mut r: Vec<i64> = Vec::new();
    let mut j: usize = 0;
    while j < rev.len()
        invariant
            n == s@.len(),
            rev@.len() == n + 1,
            j <= n + 1,
            r@.len() == j,
            forall|k: int| 0 <= k < j ==> r@[k] == rev@[n - k],
        decreases n + 1 - j,
    {
        r.push(rev[n - j]);
        j = j + 1;
    }
    proof {
        assert forall|k: int| 0 <= k <= s@.len() implies #[trigger] r@[k] == bwd_cursor(
            limit as int,
            end as int,
            t,
            k,
        ) && limit <= r@[k] <= end by {
            assert(r@[k] == rev@[n - k]);
            assert(rev@[n - k] == bwd_cursor(limit as int, end as int, t, k));
        }
    }
    r
}

/// The result of composing the edges: the chart's outer bounds, the plot
/// area left inside them, and the rectangle of each edge decoration, in the
/// order the decorations were given.
#[derive(Clone, Debug)]
pub struct Layout {
    pub outer: Bounds,
    pub inner: Bounds,
    pub top: Vec<Bounds>,
    pub right: Vec<Bounds>,
    pub bottom: Vec<Bounds>,
    pub left: Vec<Bounds>,
}

/// `r` is what `compose` makes of these decorations within `outer`.
pub open spec fn is_composed(
    r: Layout,
    top: Seq<EdgeLayout>,
    right: Seq<EdgeLayout>,
    bottom: Seq<EdgeLayout>,
    left: Seq<EdgeLayout>,
    outer: Bounds,
    font: Font,
    padding: Padding,
) -> bool {
    &&& r.outer == outer
    &&& r.inner.wf()
    &&& r.inner.left == fwd_cursor(
        outer.left as int,
        outer.right as int,
        sizes(left, false, font, padding),
        left.len() as int,
    )
    &&& r.inner.right == bwd_cursor(
        r.inner.left as int,
        outer.right as int,
        sizes(right, false, font, padding),
        0,
    )
    &&& r.inner.top == fwd_cursor(
        outer.top as int,
        outer.bottom as int,
        sizes(top, true, font, padding),
        top.len() as int,
    )
    &&& r.inner.bottom == bwd_cursor(
        r.inner.top as int,
        outer.bottom as int,
        sizes(bottom, true, font, padding),
        0,
    )
    &&& r.top@.len() == top.len()
    &&& forall|i: int|
        0 <= i < top.len() ==> {
            let b = #[trigger] r.top@[i];
            &&& b.left == r.inner.left && b.right == r.inner.right
            &&& b.top == fwd_cursor(
                outer.top as int,
                outer.bottom as int,
                sizes(top, true, font, padding),
                i,
            )
            &&& b.bottom == fwd_cursor(
                outer.top as int,
                outer.bottom as int,
                sizes(top, true, font, padding),
                i + 1,
            )
        }
    &&& r.bottom@.len() == bottom.len()
    &&& forall|i: int|
        0 <= i < bottom.len() ==> {
            let b = #[trigger] r.bottom@[i];
            &&& b.left == r.inner.left && b.right == r.inner.right
            &&& b.top == bwd_cursor(
                r.inner.top as int,
                outer.bottom as int,
                sizes(bottom, true, font, padding),
                i,
            )
            &&& b.bottom == bwd_cursor(
                r.inner.top as int,
                outer.bottom as int,
                sizes(bottom, true, font, padding),
                i + 1,
            )
        }
    &&& r.left@.len() == left.len()
    &&& forall|i: int|
        0 <= i < left.len() ==> {
            let b = #[trigger] r.left@[i];
            &&& b.top == r.inner.top && b.bottom == r.inner.bottom
            &&& b.left == fwd_cursor(
                outer.left as int,
                outer.right as int,
                sizes(left, false, font, padding),
                i,
            )
            &&& b.right == fwd_cursor(
                outer.left as int,
                outer.right as int,
                sizes(left, false, font, padding),
                i + 1,
            )
        }
    &&& r.right@.len() == right.len()
    &&& forall|i: int|
        0 <= i < right.len() ==> {
            let b = #[trigger] r.right@[i];
            &&& b.top == r.inner.top && b.bottom == r.inner.bottom
            &&& b.left == bwd_cursor(
                r.inner.left as int,
                outer.right as int,
                sizes(right, false, font, padding),
                i,
            )
            &&& b.right == bwd_cursor(
                r.inner.left as int,
                outer.right as int,
                sizes(right, false, font, padding),
                i + 1,
            )
        }
}

/// Lays out the edge decorations around the plot area.
///
/// Each list is given in visual order: top to bottom for the top and bottom
/// edges, left to right for the left and right edges. So the first top
/// (left) decoration is the outermost one, while the first bottom (right)
/// decoration is the one nearest the plot area. Decorations are stacked from
/// the chart's boundary inwards, each taking its own thickness; where the
/// space runs out the remaining ones collapse to zero thickness at the plot
/// area's edge. Top and bottom decorations span the plot area's width, left
/// and right ones its height. The left and right edges are measured first,
/// then the top and bottom ones; sizes do not depend on the space left, so
/// one pass reaches the final layout.
pub fn compose(
    top: &Vec<EdgeLayout>,
    right: &Vec<EdgeLayout>,
    bottom: &Vec<EdgeLayout>,
    left: &Vec<EdgeLayout>,
    outer: Bounds,
    font: Font,
    padding: Padding,
) -> (r: Layout)
    requires
        outer.wf(),
    ensures
        is_composed(r, top@, right@, bottom@, left@, outer, font, padding),
        r.inner.width_spec() == max_int(
            0,
            outer.width_spec() - sum(sizes(left@, false, font, padding)) - sum(
                sizes(right@, false, font, padding),
            ),
        ),
        r.inner.height_spec() == max_int(
            0,
            outer.height_spec() - sum(sizes(top@, true, font, padding)) - sum(
                sizes(bottom@, true, font, padding),
            ),
        ),
{
    let st = measure(top, true, font, padding);
    let sr = measure(right, false, font, padding);
    let sb = measure(bottom, true, font, padding);
    let sl = measure(left, false, font, padding);

    let cl = fwd_cursors(outer.left, outer.right, &sl);
    let inner_left = cl[sl.len()];
    let cr = bwd_cursors(inner_left, outer.right, &sr);
    let inner_right = cr[0];
    let ct = fwd_cursors(outer.top, outer.bottom, &st);
    let inner_top = ct[st.len()];
    let cb = bwd_cursors(inner_top, outer.bottom, &sb);
    let inner_bottom = cb[0];
    let inner = Bounds { left: inner_left, top: inner_top, right: inner_right, bottom: inner_bottom };
    proof {
        let (tl, tr, tt, tb) = (ints(sl@), ints(sr@), ints(st@), ints(sb@));
        lemma_sum_nonneg(tl);
        lemma_sum_nonneg(tr);
        lemma_sum_nonneg(tt);
        lemma_sum_nonneg(tb);
        lemma_sum_take_all(tl);
        lemma_sum_take_all(tt);
        assert(tr.take(0) =~= Seq::<int>::empty());
        assert(tb.take(0) =~= Seq::<int>::empty());
    }

    let mut rt: Vec<Bounds> = Vec::new();
    let mut i: usize = 0;
    while i < st.len()
        invariant
            i <= st@.len(),
            ct@.len() == st@.len() + 1,
            rt@.len() == i,
            forall|k: int|
                0 <= k < i ==> #[trigger] rt@[k] == (Bounds {
                    left: inner_left,
                    right: inner_right,
                    top: ct@[k],
                    bottom: ct@[k + 1],
                }),
        decreases st.len() - i,
    {
        rt.push(Bounds { left: inner_left, right: inner_right, top: ct[i], bottom: ct[i + 1] });
        i = i + 1;
    }
    let mut rb: Vec<Bounds> = Vec::new();
    let mut i: usize = 0;
    while i < sb.len()
        invariant
            i <= sb@.len(),
            cb@.len() == sb@.len() + 1,
            rb@.len() == i,
            forall|k: int|
                0 <= k < i ==> #[trigger] rb@[k] == (Bounds {
                    left: inner_left,
                    right: inner_right,
                    top: cb@[k],
                    bottom: cb@[k + 1],
                }),
        decreases sb.len() - i,
    {
        rb.push(Bounds { left: inner_left, right: inner_right, top: cb[i], bottom: cb[i + 1] });
        i = i + 1;
    }
    let mut rl: Vec<Bounds> = Vec::new();
    let mut i: usize = 0;
    while i < sl.len()
        invariant
            i <= sl@.len(),
            cl@.len() == sl@.len() + 1,
            rl@.len() == i,
            forall|k: int|
                0 <= k < i ==> #[trigger] rl@[k] == (Bounds {
                    left: cl@[k],
                    right: cl@[k + 1],
                    top: inner_top,
                    bottom: inner_bottom,
                }),
        decreases sl.len() - i,
    {
        rl.push(Bounds { left: cl[i], right: cl[i + 1], top: inner_top, bottom: inner_bottom });
        i = i + 1;
    }
    let mut rr: Vec<Bounds> = Vec::new();
    let mut i: usize = 0;
    while i < sr.len()
        invariant
            i <= sr@.len(),
            cr@.len() == sr@.len() + 1,
            rr@.len() == i,
            forall|k: int|
                0 <= k < i ==> #[trigger] rr@[k] == (Bounds {
                    left: cr@[k],
                    right: cr@[k + 1],
                    top: inner_top,
                    bottom: inner_bottom,
                }),
        decreases sr.len() - i,
    {
        rr.push(Bounds { left: cr[i], right: cr[i + 1], top: inner_top, bottom: inner_bottom });
        i = i + 1;
    }
    Layout { outer, inner, top: rt, right: rr, bottom: rb, left: rl }
}

pub(crate) proof fn lemma_sizes_nonneg(items: Seq<EdgeLayout>, horizontal: bool, font: Font, padding: Padding)
    ensures
        forall|k: int|
            0 <= k < items.len() ==> #[trigger] sizes(items, horizontal, font, padding)[k] >= 0,
{
    assert forall|k: int| 0 <= k < items.len() implies #[trigger] sizes(
        items,
        horizontal,
        font,
        padding,
    )[k] >= 0 by {
        let w = font.width as int;
        assert(forall|c: int| 0 <= c ==> #[trigger] (w * c) >= 0) by {
            assert forall|c: int| 0 <= c implies #[trigger] (w * c) >= 0 by {
                assert(w * c >= 0) by (nonlinear_arith)
                    requires
                        w >= 0,
                        c >= 0,
                ;
            }
        }
    }
}

proof fn lemma_cursor_order(start: int, limit: int, s: Seq<int>, i: int, j: int)
    requires
        start <= limit,
        0 <= i < j < s.len(),
        forall|k: int| 0 <= k < s.len() ==> s[k] >= 0,
    ensures
        fwd_cursor(start, limit, s, i) <= fwd_cursor(start, limit, s, i + 1),
        fwd_cursor(start, limit, s, i + 1) <= fwd_cursor(start, limit, s, j),
        bwd_cursor(start, limit, s, i) <= bwd_cursor(start, limit, s, i + 1),
        bwd_cursor(start, limit, s, i + 1) <= bwd_cursor(start, limit, s, j),
{
    lemma_sum_take_mono(s, i, i + 1);
    lemma_sum_take_mono(s, i + 1, j);
}

/// Of two decorations on the top edge, the one given first lies above the
/// other: its rectangle ends where the other's begins or higher, and, unless
/// it was squeezed to nothing, it begins strictly further from the plot
/// area. The plot area begins below both.
pub proof fn top_declaration_order(
    top: Seq<EdgeLayout>,
    outer: Bounds,
    font: Font,
    padding: Padding,
    i: int,
    j: int,
)
    requires
        outer.wf(),
        0 <= i < j < top.len(),
    ensures
        ({
            let s = sizes(top, true, font, padding);
            let c = |k: int| fwd_cursor(outer.top as int, outer.bottom as int, s, k);
            &&& c(i + 1) <= c(j)
            &&& c(i) < c(i + 1) ==> c(i) < c(j)
            &&& c(j + 1) <= c(top.len() as int)
        }),
{
    let s = sizes(top, true, font, padding);
    lemma_sizes_nonneg(top, true, font, padding);
    lemma_cursor_order(outer.top as int, outer.bottom as int, s, i, j);
    lemma_sum_take_mono(s, j + 1, top.len() as int);
}

/// Of two decorations on the left edge, the one given first lies further
/// left: its rectangle ends where the other's begins or further left, and,
/// unless it was squeezed to nothing, it begins strictly further from the
/// plot area. The plot area begins right of both.
pub proof fn left_declaration_order(
    left: Seq<EdgeLayout>,
    outer: Bounds,
    font: Font,
    padding: Padding,
    i: int,
    j: int,
)
    requires
        outer.wf(),
        0 <= i < j < left.len(),
    ensures
        ({
            let s = sizes(left, false, font, padding);
            let c = |k: int| fwd_cursor(outer.left as int, outer.right as int, s, k);
            &&& c(i + 1) <= c(j)
            &&& c(i) < c(i + 1) ==> c(i) < c(j)
            &&& c(j + 1) <= c(left.len() as int)
        }),
{
    let s = sizes(left, false, font, padding);
    lemma_sizes_nonneg(left, false, font, padding);
    lemma_cursor_order(outer.left as int, outer.right as int, s, i, j);
    lemma_sum_take_mono(s, j + 1, left.len() as int);
}

/// Of two decorations on the bottom edge, the one given first lies above the
/// other, that is nearer the plot area: its rectangle ends where the other's
/// begins or higher. `inner_top` is the plot area's top, where the bottom
/// edge's space runs out.
pub proof fn bottom_declaration_order(
    bottom: Seq<EdgeLayout>,
    inner_top: int,
    outer: Bounds,
    font: Font,
    padding: Padding,
    i: int,
    j: int,
)
    requires
        inner_top <= outer.bottom,
        0 <= i < j < bottom.len(),
    ensures
        ({
            let s = sizes(bottom, true, font, padding);
            let c = |k: int| bwd_cursor(inner_top, outer.bottom as int, s, k);
            &&& c(i) <= c(i + 1)
            &&& c(i + 1) <= c(j)
            &&& c(0) <= c(i)
        }),
{
    let s = sizes(bottom, true, font, padding);
    lemma_sizes_nonneg(bottom, true, font, padding);
    lemma_cursor_order(inner_top, outer.bottom as int, s, i, j);
    lemma_sum_take_mono(s, 0, i);
}

/// Of two decorations on the right edge, the one given first lies further
/// left, that is nearer the plot area. `inner_left` is the plot area's left
/// side, where the right edge's space runs out.
pub proof fn right_declaration_order(
    right: Seq<EdgeLayout>,
    inner_left: int,
    outer: Bounds,
    font: Font,
    padding: Padding,
    i: int,
    j: int,
)
    requires
        inner_left <= outer.right,
        0 <= i < j < right.len(),
    ensures
        ({
            let s = sizes(right, false, font, padding);
            let c = |k: int| bwd_cursor(inner_left, outer.right as int, s, k);
            &&& c(i) <= c(i + 1)
            &&& c(i + 1) <= c(j)
            &&& c(0) <= c(i)
        }),
{
    let s = sizes(right, false, font, padding);
    lemma_sizes_nonneg(right, false, font, padding);
    lemma_cursor_order(inner_left, outer.right as int, s, i, j);
    lemma_sum_take_mono(s, 0, i);
}

/// Space is conserved: the plot area's width is the outer width less the
/// left and right decorations' thicknesses, its height the outer height less
/// the top and bottom ones', neither below zero.
pub proof fn layout_conservation(
    r: Layout,
    top: Seq<EdgeLayout>,
    right: Seq<EdgeLayout>,
    bottom: Seq<EdgeLayout>,
    left: Seq<EdgeLayout>,
    outer: Bounds,
    font: Font,
    padding: Padding,
)
    requires
        outer.wf(),
        is_composed(r, top, right, bottom, left, outer, font, padding),
    ensures
        r.inner.width_spec() == max_int(
            0,
            outer.width_spec() - sum(sizes(left, false, font, padding)) - sum(
                sizes(right, false, font, padding),
            ),
        ),
        r.inner.height_spec() == max_int(
            0,
            outer.height_spec() - sum(sizes(top, true, font, padding)) - sum(
                sizes(bottom, true, font, padding),
            ),
        ),
{
    let (tl, tr, tt, tb) = (
        sizes(left, false, font, padding),
        sizes(right, false, font, padding),
        sizes(top, true, font, padding),
        sizes(bottom, true, font, padding),
    );
    lemma_sizes_nonneg(left, false, font, padding);
    lemma_sizes_nonneg(right, false, font, padding);
    lemma_sizes_nonneg(top, true, font, padding);
    lemma_sizes_nonneg(bottom, true, font, padding);
    lemma_sum_nonneg(tl);
    lemma_sum_nonneg(tr);
    lemma_sum_nonneg(tt);
    lemma_sum_nonneg(tb);
    lemma_sum_take_all(tl);
    lemma_sum_take_all(tt);
    assert(tr.take(0) =~= Seq::<int>::empty());
    assert(tb.take(0) =~= Seq::<int>::empty());
}

/// The length of the longest label, held to `u32::MAX`; zero without labels.
pub open spec fn widest_spec(labels: Seq<String>) -> int
    decreases labels.len(),
{
    if labels.len() == 0 {
        0
    } else {
        let rest = widest_spec(labels.drop_last());
        let last = labels.last()@.len() as int;
        let last = if last > u32::MAX { u32::MAX as int } else { last };
        if last > rest { last } else { rest }
    }
}

impl EdgeLayout {
    /// Tick labels sized by their longest label.
    pub fn tick_labels(labels: &Vec<String>) -> (r: EdgeLayout)
        ensures
            r == (EdgeLayout::TickLabels { widest: widest_spec(labels@) as u32 }),
    {
        let mut widest: u32 = 0;
        let mut i: usize = 0;
        while i < labels.len()
            invariant
                i <= labels@.len(),
                widest == widest_spec(labels@.take(i as int)),
            decreases labels.len() - i,
        {
            proof {
                assert(labels@.take(i + 1).drop_last() =~= labels@.take(i as int));
            }
            let len = labels[i].unicode_len();
            let len32: u32 = if len > (u32::MAX as usize) {
                u32::MAX
            } else {
                len as u32
            };
            if len32 > widest {
                widest = len32;
            }
            i = i + 1;
        }
        proof {
            assert(labels@.take(labels@.len() as int) =~= labels@);
        }
        EdgeLayout::TickLabels { widest }
    }
}

/// Composition depends on its inputs alone: two layouts composed from the
/// same decorations, bounds, font and padding are the same, so recomputing
/// with unchanged inputs changes nothing.
pub proof fn composition_is_deterministic(
    r1: Layout,
    r2: Layout,
    top: Seq<EdgeLayout>,
    right: Seq<EdgeLayout>,
    bottom: Seq<EdgeLayout>,
    left: Seq<EdgeLayout>,
    outer: Bounds,
    font: Font,
    padding: Padding,
)
    requires
        is_composed(r1, top, right, bottom, left, outer, font, padding),
        is_composed(r2, top, right, bottom, left, outer, font, padding),
    ensures
        r1.outer == r2.outer,
        r1.inner == r2.inner,
        r1.top@ == r2.top@,
        r1.right@ == r2.right@,
        r1.bottom@ == r2.bottom@,
        r1.left@ == r2.left@,
{
    assert(r1.top@ =~= r2.top@);
    assert(r1.right@ =~= r2.right@);
    assert(r1.bottom@ =~= r2.bottom@);
    assert(r1.left@ =~= r2.left@);
}

} // verus!
