use vstd::prelude::*;
use crate::bounds::Bounds;

verus! {

/// `v` is the smallest value present in `s`.
pub open spec fn is_lowest(s: Seq<Option<i64>>, v: i64) -> bool {
    &&& exists|i: int| 0 <= i < s.len() && s[i] == Some(v)
    &&& forall|i: int| 0 <= i < s.len() && (#[trigger] s[i]).is_some() ==> v <= s[i].unwrap()
}

/// `v` is the largest value present in `s`.
pub open spec fn is_highest(s: Seq<Option<i64>>, v: i64) -> bool {
    &&& exists|i: int| 0 <= i < s.len() && s[i] == Some(v)
    &&& forall|i: int| 0 <= i < s.len() && (#[trigger] s[i]).is_some() ==> s[i].unwrap() <= v
}

/// No value is present in `s`.
pub open spec fn all_absent(s: Seq<Option<i64>>) -> bool {
    forall|i: int| 0 <= i < s.len() ==> (#[trigger] s[i]).is_none()
}

/// `r` is the range of the values present in `s`: `None` when there are none.
pub open spec fn is_range_of(s: Seq<Option<i64>>, r: Option<(i64, i64)>) -> bool {
    match r {
        None => all_absent(s),
        Some((lo, hi)) => is_lowest(s, lo) && is_highest(s, hi),
    }
}

/// The range a user asked for: both ends, or a single value where only one
/// end was given.
pub open spec fn specified(lower: Option<i64>, upper: Option<i64>) -> Option<(i64, i64)> {
    match (lower, upper) {
        (Some(lo), Some(hi)) => Some((lo, hi)),
        (Some(lo), None) => Some((lo, lo)),
        (None, Some(hi)) => Some((hi, hi)),
        (None, None) => None,
    }
}

pub open spec fn min64(a: i64, b: i64) -> i64 {
    if a <= b { a } else { b }
}

pub open spec fn max64(a: i64, b: i64) -> i64 {
    if a >= b { a } else { b }
}

/// The smallest range covering both; an absent range covers nothing.
pub open spec fn union_range(a: Option<(i64, i64)>, b: Option<(i64, i64)>) -> Option<(i64, i64)> {
    match (a, b) {
        (None, None) => None,
        (Some(r), None) => Some(r),
        (None, Some(r)) => Some(r),
        (Some((a0, a1)), Some((b0, b1))) => Some((min64(a0, b0), max64(a1, b1))),
    }
}

/// `v` is present in one of the lines.
pub open spec fn in_lines(lines: Seq<Seq<Option<i64>>>, v: i64) -> bool {
    exists|l: int, i: int| 0 <= l < lines.len() && 0 <= i < lines[l].len() && lines[l][i] == Some(v)
}

/// `v` is the smallest of the values present in the lines and of `extra`.
pub open spec fn is_lowest_all(lines: Seq<Seq<Option<i64>>>, extra: Option<i64>, v: i64) -> bool {
    &&& in_lines(lines, v) || extra == Some(v)
    &&& forall|l: int, i: int|
        0 <= l < lines.len() && 0 <= i < lines[l].len() && (#[trigger] lines[l][i]).is_some()
            ==> v <= lines[l][i].unwrap()
    &&& extra.is_some() ==> v <= extra.unwrap()
}

/// `v` is the largest of the values present in the lines and of `extra`.
pub open spec fn is_highest_all(lines: Seq<Seq<Option<i64>>>, extra: Option<i64>, v: i64) -> bool {
    &&& in_lines(lines, v) || extra == Some(v)
    &&& forall|l: int, i: int|
        0 <= l < lines.len() && 0 <= i < lines[l].len() && (#[trigger] lines[l][i]).is_some()
            ==> lines[l][i].unwrap() <= v
    &&& extra.is_some() ==> extra.unwrap() <= v
}

/// No line holds a value.
pub open spec fn lines_absent(lines: Seq<Seq<Option<i64>>>) -> bool {
    forall|l: int| 0 <= l < lines.len() ==> all_absent(#[trigger] lines[l])
}

/// The range of the values present in `values`, or `None` where no value is
/// present. Absent values (`None`, standing for non-finite data) are skipped.
pub fn data_range(values: &Vec<Option<i64>>) -> (r: Option<(i64, i64)>)
    ensures
        is_range_of(values@, r),
{
    let mut r: Option<(i64, i64)> = None;
    let ghost mut at_lo: int = 0;
    let ghost mut at_hi: int = 0;
    let mut i: usize = 0;
    while i < values.len()
        invariant
            i <= values.len(),
            r.is_none() ==> forall|k: int| 0 <= k < i ==> (#[trigger] values@[k]).is_none(),
            r.is_some() ==> {
                let (lo, hi) = r.unwrap();
                &&& 0 <= at_lo < i && values@[at_lo] == Some(lo)
                &&& 0 <= at_hi < i && values@[at_hi] == Some(hi)
                &&& forall|k: int|
                    0 <= k < i && (#[trigger] values@[k]).is_some() ==> lo <= values@[k].unwrap()
                        <= hi
            },
        decreases values.len() - i,
    {
        let cur = values[i];
        match cur {
            None => {},
            Some(v) => {
                match r {
                    None => {
                        r = Some((v, v));
                        proof {
                            at_lo = i as int;
                            at_hi = i as int;
                        }
                    },
                    Some((lo, hi)) => {
                        let nlo = if v < lo {
                            proof {
                                at_lo = i as int;
                            }
                            v
                        } else {
                            lo
                        };
                        let nhi = if v > hi {
                            proof {
                                at_hi = i as int;
                            }
                            v
                        } else {
                            hi
                        };
                        r = Some((nlo, nhi));
                    },
                }
            },
        }
        i = i + 1;
    }
    r
}

/// Joins the data's range with the range a user asked for. Each end is the
/// extreme of both, so an override inside the data widens nothing and an
/// inverted override is absorbed rather than rejected.
pub fn reconcile_range(range: Option<(i64, i64)>, lower: Option<i64>, upper: Option<i64>) -> (r: Option<(i64, i64)>)
    ensures
        r == union_range(range, specified(lower, upper)),
{
    let spec_range = match (lower, upper) {
        (Some(lo), Some(hi)) => Some((lo, hi)),
        (Some(lo), None) => Some((lo, lo)),
        (None, Some(hi)) => Some((hi, hi)),
        (None, None) => None,
    };
    match (range, spec_range) {
        (None, None) => None,
        (Some(r), None) => Some(r),
        (None, Some(s)) => Some(s),
        (Some((r0, r1)), Some((s0, s1))) => Some(
            (if r0 < s0 { r0 } else { s0 }, if r1 > s1 { r1 } else { s1 }),
        ),
    }
}

/// The index picked for query `q` given the partition point `p` of `xs`:
/// the first index where `p` is 0, the last where `p` is past the end, else
/// whichever of `p` and `p - 1` is nearer, `p - 1` on a tie.
pub open spec fn pick(xs: Seq<i64>, q: int, p: int) -> int {
    if p == 0 {
        0
    } else if p == xs.len() {
        xs.len() - 1
    } else if xs[p] - q < q - xs[p - 1] {
        p
    } else {
        p - 1
    }
}

/// The number of leading elements of `xs` below `q`: for ascending `xs`, the
/// first index whose element is at least `q`.
pub open spec fn first_not_below(xs: Seq<i64>, q: int) -> int
    decreases xs.len(),
{
    if xs.len() == 0 {
        0
    } else if xs[0] < q {
        1 + first_not_below(xs.skip(1), q)
    } else {
        0
    }
}

pub open spec fn ascending(xs: Seq<i64>) -> bool {
    forall|i: int, j: int| 0 <= i <= j < xs.len() ==> xs[i] <= xs[j]
}

/// The values of `xs`, every one of which is present.
pub open spec fn positions_of(xs: Seq<Option<i64>>) -> Seq<i64> {
    xs.map_values(|o: Option<i64>| o.unwrap())
}

/// Every position is present and they ascend.
pub open spec fn sorted_present(xs: Seq<Option<i64>>) -> bool {
    &&& forall|i: int| 0 <= i < xs.len() ==> (#[trigger] xs[i]).is_some()
    &&& ascending(positions_of(xs))
}

proof fn lemma_first_not_below(xs: Seq<i64>, q: int, p: int)
    requires
        0 <= p <= xs.len(),
        forall|i: int| 0 <= i < p ==> xs[i] < q,
        forall|i: int| p <= i < xs.len() ==> xs[i] >= q,
    ensures
        first_not_below(xs, q) == p,
    decreases xs.len(),
{
    if xs.len() > 0 && p > 0 {
        let t = xs.skip(1);
        assert forall|i: int| 0 <= i < p - 1 implies t[i] < q by {
            assert(t[i] == xs[i + 1]);
        }
        assert forall|i: int| p - 1 <= i < t.len() implies t[i] >= q by {
            assert(t[i] == xs[i + 1]);
        }
        lemma_first_not_below(t, q, p - 1);
    }
}

/// The index of the position in `xs` nearest to `q`, or `None` when `xs` is
/// empty; the positions must all be present and ascend. Of two neighbours at
/// the same distance the earlier one is picked; a query before the first
/// position gives the first index, one past the last the last index.
pub fn nearest_index(xs: &Vec<Option<i64>>, q: i64) -> (r: Option<usize>)
    requires
        sorted_present(xs@),
    ensures
        xs@.len() == 0 <==> r.is_none(),
        r.is_some() ==> r.unwrap() == pick(
            positions_of(xs@),
            q as int,
            first_not_below(positions_of(xs@), q as int),
        ),
        r.is_some() ==> r.unwrap() < xs@.len(),
{
    let ghost v = positions_of(xs@);
    let n = xs.len();
    if n == 0 {
        return None;
    }
    let mut lo: usize = 0;
    let mut hi: usize = n;
    while lo < hi
        invariant
            n == xs@.len(),
            v == positions_of(xs@),
            sorted_present(xs@),
            ascending(v),
            lo <= hi <= n,
            forall|i: int| 0 <= i < lo ==> v[i] < q,
            forall|i: int| hi <= i < n ==> v[i] >= q,
        decreases hi - lo,
    {
        let mid = lo + (hi - lo) / 2;
        assert(v[mid as int] == xs@[mid as int].unwrap());
        if xs[mid].unwrap() < q {
            lo = mid + 1;
        } else {
            hi = mid;
        }
    }
    proof {
        lemma_first_not_below(v, q as int, lo as int);
    }
    let p = lo;
    assert(p < n ==> v[p as int] == xs@[p as int].unwrap());
    assert(0 < p ==> v[p - 1] == xs@[p - 1].unwrap());
    if p == 0 {
        return Some(0);
    }
    if p == n {
        return Some(p - 1);
    }
    let ahead = (xs[p].unwrap() as i128) - (q as i128);
    let before = (q as i128) - (xs[p - 1].unwrap() as i128);
    if ahead < before {
        Some(p)
    } else {
        Some(p - 1)
    }
}

/// The index picked by `nearest_index` is nearest to the query among all
/// elements of ascending `xs`.
pub proof fn nearest_index_is_nearest(xs: Seq<i64>, q: int, i: int)
    requires
        ascending(xs),
        xs.len() > 0,
        0 <= i < xs.len(),
    ensures
        ({
            let k = pick(xs, q, first_not_below(xs, q));
            &&& 0 <= k < xs.len()
            &&& (if xs[k] >= q { xs[k] - q } else { q - xs[k] }) <= (if xs[i] >= q {
                xs[i] - q
            } else {
                q - xs[i]
            })
        }),
{
    let p = first_not_below_witness(xs, q);
    lemma_first_not_below(xs, q, p);
}

/// The partition point of ascending `xs` around `q`.
proof fn first_not_below_witness(xs: Seq<i64>, q: int) -> (p: int)
    requires
        ascending(xs),
    ensures
        0 <= p <= xs.len(),
        forall|i: int| 0 <= i < p ==> xs[i] < q,
        forall|i: int| p <= i < xs.len() ==> xs[i] >= q,
    decreases xs.len(),
{
    if xs.len() == 0 {
        0
    } else if xs[xs.len() - 1] < q {
        assert forall|i: int| 0 <= i < xs.len() implies xs[i] < q by {
            assert(xs[i] <= xs[xs.len() - 1]);
        }
        xs.len() as int
    } else {
        let t = xs.drop_last();
        assert(forall|i: int| 0 <= i < t.len() ==> t[i] == xs[i]);
        assert(ascending(t));
        let p = first_not_below_witness(t, q);
        p
    }
}

/// The range of the values present in `s`, `None` where there are none.
pub open spec fn range_spec(s: Seq<Option<i64>>) -> Option<(i64, i64)> {
    if all_absent(s) {
        None
    } else {
        Some((choose|v: i64| is_lowest(s, v), choose|v: i64| is_highest(s, v)))
    }
}

/// The smallest value present in the lines or given as `extra`.
pub open spec fn lowest_all(lines: Seq<Seq<Option<i64>>>, extra: Option<i64>) -> Option<i64> {
    if lines_absent(lines) && extra.is_none() {
        None
    } else {
        Some(choose|v: i64| is_lowest_all(lines, extra, v))
    }
}

/// The largest value present in the lines or given as `extra`.
pub open spec fn highest_all(lines: Seq<Seq<Option<i64>>>, extra: Option<i64>) -> Option<i64> {
    if lines_absent(lines) && extra.is_none() {
        None
    } else {
        Some(choose|v: i64| is_highest_all(lines, extra, v))
    }
}

/// `a`, or `b` where `a` is absent.
pub open spec fn or_else(a: Option<i64>, b: Option<i64>) -> Option<i64> {
    match a {
        Some(v) => Some(v),
        None => b,
    }
}

pub open spec fn zip(a: Option<i64>, b: Option<i64>) -> Option<(i64, i64)> {
    match (a, b) {
        (Some(x), Some(y)) => Some((x, y)),
        _ => None,
    }
}

proof fn lemma_range_unique(s: Seq<Option<i64>>, r: Option<(i64, i64)>)
    requires
        is_range_of(s, r),
    ensures
        r == range_spec(s),
{
    if let Some((lo, hi)) = r {
        let i = choose|i: int| 0 <= i < s.len() && s[i] == Some(lo);
        assert(s[i].is_some());
        let a = choose|v: i64| is_lowest(s, v);
        let b = choose|v: i64| is_highest(s, v);
        let ia = choose|i: int| 0 <= i < s.len() && s[i] == Some(a);
        let ib = choose|i: int| 0 <= i < s.len() && s[i] == Some(b);
        let ih = choose|i: int| 0 <= i < s.len() && s[i] == Some(hi);
        assert(s[ia].is_some() && s[ib].is_some() && s[ih].is_some());
    }
}

proof fn lemma_lowest_unique(lines: Seq<Seq<Option<i64>>>, extra: Option<i64>, v: i64)
    requires
        is_lowest_all(lines, extra, v),
    ensures
        lowest_all(lines, extra) == Some(v),
{
    if extra != Some(v) {
        let (l, i) = choose|l: int, i: int|
            0 <= l < lines.len() && 0 <= i < lines[l].len() && lines[l][i] == Some(v);
        assert(lines[l][i].is_some());
        assert(!all_absent(lines[l]));
    }
    let a = choose|w: i64| is_lowest_all(lines, extra, w);
    assert(is_lowest_all(lines, extra, a));
    if extra != Some(a) {
        let (l, i) = choose|l: int, i: int|
            0 <= l < lines.len() && 0 <= i < lines[l].len() && lines[l][i] == Some(a);
        assert(lines[l][i].is_some());
    }
}

proof fn lemma_highest_unique(lines: Seq<Seq<Option<i64>>>, extra: Option<i64>, v: i64)
    requires
        is_highest_all(lines, extra, v),
    ensures
        highest_all(lines, extra) == Some(v),
{
    if extra != Some(v) {
        let (l, i) = choose|l: int, i: int|
            0 <= l < lines.len() && 0 <= i < lines[l].len() && lines[l][i] == Some(v);
        assert(lines[l][i].is_some());
        assert(!all_absent(lines[l]));
    }
    let a = choose|w: i64| is_highest_all(lines, extra, w);
    assert(is_highest_all(lines, extra, a));
    if extra != Some(a) {
        let (l, i) = choose|l: int, i: int|
            0 <= l < lines.len() && 0 <= i < lines[l].len() && lines[l][i] == Some(a);
        assert(lines[l][i].is_some());
    }
}

/// The smallest of the lines' lower ends and `extra`, given each line's range.
fn lowest_of_lines(ranges: &Vec<Option<(i64, i64)>>, lines: Ghost<Seq<Seq<Option<i64>>>>, extra: Option<i64>) -> (r: Option<i64>)
    requires
        ranges@.len() == lines@.len(),
        forall|l: int| 0 <= l < lines@.len() ==> is_range_of(#[trigger] lines@[l], ranges@[l]),
    ensures
        r == lowest_all(lines@, extra),
{
    let ghost ls = lines@;
    let mut acc = extra;
    let ghost mut wl: int = -1;
    let ghost mut wi: int = 0;
    let mut l: usize = 0;
    while l < ranges.len()
        invariant
            ranges@.len() == ls.len(),
            forall|k: int| 0 <= k < ls.len() ==> is_range_of(#[trigger] ls[k], ranges@[k]),
            l <= ranges@.len(),
            acc.is_none() ==> extra.is_none() && forall|k: int| 0 <= k < l ==> all_absent(
                #[trigger] ls[k],
            ),
            acc.is_some() ==> {
                let v = acc.unwrap();
                &&& (wl == -1 && extra == Some(v)) || (0 <= wl < l && 0 <= wi < ls[wl].len()
                    && ls[wl][wi] == Some(v))
                &&& extra.is_some() ==> v <= extra.unwrap()
                &&& forall|k: int, i: int|
                    0 <= k < l && 0 <= i < ls[k].len() && (#[trigger] ls[k][i]).is_some() ==> v
                        <= ls[k][i].unwrap()
            },
        decreases ranges.len() - l,
    {
        let cur = ranges[l];
        proof {
            assert(is_range_of(ls[l as int], cur));
        }
        match cur {
            None => {},
            Some((lo, _)) => {
                let ghost i = choose|i: int| 0 <= i < ls[l as int].len() && ls[l as int][i] == Some(lo);
                match acc {
                    None => {
                        acc = Some(lo);
                        proof {
                            wl = l as int;
                            wi = i;
                        }
                    },
                    Some(v) => {
                        if lo < v {
                            acc = Some(lo);
                            proof {
                                wl = l as int;
                                wi = i;
                            }
                        }
                    },
                }
            },
        }
        l = l + 1;
    }
    proof {
        if let Some(v) = acc {
            if wl != -1 {
                assert(ls[wl][wi] == Some(v));
            }
            lemma_lowest_unique(ls, extra, v);
        }
    }
    acc
}

/// The largest of the lines' upper ends and `extra`, given each line's range.
fn highest_of_lines(ranges: &Vec<Option<(i64, i64)>>, lines: Ghost<Seq<Seq<Option<i64>>>>, extra: Option<i64>) -> (r: Option<i64>)
    requires
        ranges@.len() == lines@.len(),
        forall|l: int| 0 <= l < lines@.len() ==> is_range_of(#[trigger] lines@[l], ranges@[l]),
    ensures
        r == highest_all(lines@, extra),
{
    let ghost ls = lines@;
    let mut acc = extra;
    let ghost mut wl: int = -1;
    let ghost mut wi: int = 0;
    let mut l: usize = 0;
    while l < ranges.len()
        invariant
            ranges@.len() == ls.len(),
            forall|k: int| 0 <= k < ls.len() ==> is_range_of(#[trigger] ls[k], ranges@[k]),
            l <= ranges@.len(),
            acc.is_none() ==> extra.is_none() && forall|k: int| 0 <= k < l ==> all_absent(
                #[trigger] ls[k],
            ),
            acc.is_some() ==> {
                let v = acc.unwrap();
                &&& (wl == -1 && extra == Some(v)) || (0 <= wl < l && 0 <= wi < ls[wl].len()
                    && ls[wl][wi] == Some(v))
                &&& extra.is_some() ==> extra.unwrap() <= v
                &&& forall|k: int, i: int|
                    0 <= k < l && 0 <= i < ls[k].len() && (#[trigger] ls[k][i]).is_some()
                        ==> ls[k][i].unwrap() <= v
            },
        decreases ranges.len() - l,
    {
        let cur = ranges[l];
        proof {
            assert(is_range_of(ls[l as int], cur));
        }
        match cur {
            None => {},
            Some((_, hi)) => {
                let ghost i = choose|i: int| 0 <= i < ls[l as int].len() && ls[l as int][i] == Some(hi);
                match acc {
                    None => {
                        acc = Some(hi);
                        proof {
                            wl = l as int;
                            wi = i;
                        }
                    },
                    Some(v) => {
                        if hi > v {
                            acc = Some(hi);
                            proof {
                                wl = l as int;
                                wi = i;
                            }
                        }
                    },
                }
            },
        }
        l = l + 1;
    }
    proof {
        if let Some(v) = acc {
            if wl != -1 {
                assert(ls[wl][wi] == Some(v));
            }
            lemma_highest_unique(ls, extra, v);
        }
    }
    acc
}

/// Line `l`'s values for `n` records: what `ys` holds for it, absent where
/// `ys` holds nothing.
pub open spec fn line_values(ys: Seq<Vec<Option<i64>>>, l: int, n: int) -> Seq<Option<i64>> {
    Seq::new(
        n as nat,
        |i: int|
            if 0 <= l < ys.len() && i < ys[l]@.len() {
                ys[l]@[i]
            } else {
                None
            },
    )
}

pub open spec fn lines_view(ys: Seq<Vec<Option<i64>>>) -> Seq<Seq<Option<i64>>> {
    ys.map_values(|v: Vec<Option<i64>>| v@)
}

/// The domain of the projection: the x and y ranges as a rectangle, each
/// absent range taken as zero to zero.
pub open spec fn span_bounds(rx: Option<(i64, i64)>, ry: Option<(i64, i64)>) -> Bounds {
    let (x0, x1) = match rx {
        Some(r) => r,
        None => (0i64, 0i64),
    };
    let (y0, y1) = match ry {
        Some(r) => r,
        None => (0i64, 0i64),
    };
    Bounds { left: min64(x0, x1), top: min64(y0, y1), right: max64(x0, x1), bottom: max64(y0, y1) }
}

/// One line of a series: its identifier, which is its place among the
/// series' lines, and its name.
#[derive(Clone, Debug)]
pub struct Line {
    pub id: usize,
    pub name: String,
}

/// What a chart draws: named lines over a shared x axis, with optional
/// values that widen the x and y ranges.
#[derive(Clone, Debug)]
pub struct Series {
    pub lines: Vec<String>,
    pub min_x: Option<i64>,
    pub max_x: Option<i64>,
    pub min_y: Option<i64>,
    pub max_y: Option<i64>,
}

impl Series {
    pub fn new() -> (r: Series)
        ensures
            r.lines@.len() == 0,
            r.min_x.is_none() && r.max_x.is_none(),
            r.min_y.is_none() && r.max_y.is_none(),
    {
        Series { lines: Vec::new(), min_x: None, max_x: None, min_y: None, max_y: None }
    }

    pub fn set_x_min(self, lower: Option<i64>) -> (r: Series)
        ensures
            r == (Series { min_x: lower, ..self }),
    {
        Series { min_x: lower, ..self }
    }

    pub fn set_x_max(self, upper: Option<i64>) -> (r: Series)
        ensures
            r == (Series { max_x: upper, ..self }),
    {
        Series { max_x: upper, ..self }
    }

    pub fn set_x_range(self, lower: Option<i64>, upper: Option<i64>) -> (r: Series)
        ensures
            r == (Series { min_x: lower, max_x: upper, ..self }),
    {
        self.set_x_min(lower).set_x_max(upper)
    }

    pub fn set_y_min(self, lower: Option<i64>) -> (r: Series)
        ensures
            r == (Series { min_y: lower, ..self }),
    {
        Series { min_y: lower, ..self }
    }

    pub fn set_y_max(self, upper: Option<i64>) -> (r: Series)
        ensures
            r == (Series { max_y: upper, ..self }),
    {
        Series { max_y: upper, ..self }
    }

    pub fn set_y_range(self, lower: Option<i64>, upper: Option<i64>) -> (r: Series)
        ensures
            r == (Series { min_y: lower, max_y: upper, ..self }),
    {
        self.set_y_min(lower).set_y_max(upper)
    }

    /// Adds a line named `name`; its identifier is the number of lines
    /// before it.
    pub fn add_series(self, name: String) -> (r: Series)
        ensures
            r.lines@ == self.lines@.push(name),
            r.min_x == self.min_x && r.max_x == self.max_x,
            r.min_y == self.min_y && r.max_y == self.max_y,
    {
        let mut lines = self.lines;
        lines.push(name);
        Series { lines, ..self }
    }

    /// Resolves the series against the records' x positions `data_x` and,
    /// for each line in order, its y positions `data_y`; `None` stands for a
    /// value that is not finite, which stays in place but counts towards no
    /// range. A line without values in `data_y`, or with too few, is padded
    /// with absent values; surplus values are dropped. Each range is the
    /// smallest that covers the present values (of every line, for y) and the
    /// series' bounds, a single bound counting as both ends.
    pub fn use_data(self, data_x: Vec<Option<i64>>, data_y: Vec<Vec<Option<i64>>>) -> (r: UseData)
        ensures
            r.wf(),
            r.data_x@ == data_x@,
            r.series@.len() == self.lines@.len(),
            forall|l: int|
                0 <= l < self.lines@.len() ==> (#[trigger] r.series@[l]).id == l
                    && r.series@[l].name == self.lines@[l],
            forall|l: int|
                0 <= l < self.lines@.len() ==> (#[trigger] r.data_y_lines@[l])@ == line_values(
                    data_y@,
                    l,
                    data_x@.len() as int,
                ),
            forall|l: int|
                0 <= l < self.lines@.len() ==> #[trigger] r.range_y_lines@[l] == range_spec(
                    r.data_y_lines@[l]@,
                ),
            r.range_x == union_range(range_spec(data_x@), specified(self.min_x, self.max_x)),
            r.range_y == zip(
                lowest_all(lines_view(r.data_y_lines@), or_else(self.min_y, self.max_y)),
                highest_all(lines_view(r.data_y_lines@), or_else(self.max_y, self.min_y)),
            ),
            r.position_range == span_bounds(r.range_x, r.range_y),
    {
        let n = data_x.len();
        let nl = self.lines.len();
        let mut series: Vec<Line> = Vec::new();
        let mut lines: Vec<Vec<Option<i64>>> = Vec::new();
        let mut ranges: Vec<Option<(i64, i64)>> = Vec::new();
        let mut l: usize = 0;
        while l < nl
            invariant
                nl == self.lines@.len(),
                n == data_x@.len(),
                l <= nl,
                series@.len() == l && lines@.len() == l && ranges@.len() == l,
                forall|k: int|
                    0 <= k < l ==> (#[trigger] series@[k]).id == k && series@[k].name
                        == self.lines@[k],
                forall|k: int|
                    0 <= k < l ==> (#[trigger] lines@[k])@ == line_values(data_y@, k, n as int),
                forall|k: int| 0 <= k < l ==> is_range_of(lines@[k]@, #[trigger] ranges@[k]),
            decreases nl - l,
        {
            let mut ys: Vec<Option<i64>> = Vec::new();
            let mut i: usize = 0;
            while i < n
                invariant
                    n == data_x@.len(),
                    l < nl,
                    i <= n,
                    ys@.len() == i,
                    forall|j: int| 0 <= j < i ==> #[trigger] ys@[j] == line_values(data_y@, l as int, n as int)[j],
                decreases n - i,
            {
                let v = if l < data_y.len() && i < data_y[l].len() {
                    data_y[l][i]
                } else {
                    None
                };
                ys.push(v);
                i = i + 1;
            }
            proof {
                assert(ys@ =~= line_values(data_y@, l as int, n as int));
            }
            let range = data_range(&ys);
            series.push(Line { id: l, name: self.lines[l].clone() });
            lines.push(ys);
            ranges.push(range);
            l = l + 1;
        }
        let ghost lv = lines_view(lines@);
        proof {
            assert forall|k: int| 0 <= k < lv.len() implies is_range_of(#[trigger] lv[k], ranges@[k]) by {
                assert(lv[k] == lines@[k]@);
            }
            assert forall|k: int| 0 <= k < l implies #[trigger] ranges@[k] == range_spec(lines@[k]@) by {
                lemma_range_unique(lines@[k]@, ranges@[k]);
            }
        }
        let data_range_x = data_range(&data_x);
        proof {
            lemma_range_unique(data_x@, data_range_x);
        }
        let range_x = reconcile_range(data_range_x, self.min_x, self.max_x);
        let lower = match self.min_y {
            Some(v) => Some(v),
            None => self.max_y,
        };
        let upper = match self.max_y {
            Some(v) => Some(v),
            None => self.min_y,
        };
        let low = lowest_of_lines(&ranges, Ghost(lv), lower);
        let high = highest_of_lines(&ranges, Ghost(lv), upper);
        let range_y = match (low, high) {
            (Some(a), Some(b)) => Some((a, b)),
            _ => None,
        };
        let (x0, x1) = match range_x {
            Some(r) => r,
            None => (0, 0),
        };
        let (y0, y1) = match range_y {
            Some(r) => r,
            None => (0, 0),
        };
        let position_range = Bounds::from_points(x0, y0, x1, y1);
        UseData {
            series,
            data_x,
            data_y_lines: lines,
            range_x,
            range_y,
            range_y_lines: ranges,
            position_range,
        }
    }
}

/// A series resolved against its data: values aligned by record, the
/// ranges of the data joined with the series' bounds, and the domain of the
/// projection.
#[derive(Clone, Debug)]
pub struct UseData {
    pub series: Vec<Line>,
    /// The x positions; the nearest-point queries need them all present
    /// and ascending.
    pub data_x: Vec<Option<i64>>,
    /// For each line, its y positions, aligned with `data_x`.
    pub data_y_lines: Vec<Vec<Option<i64>>>,
    pub range_x: Option<(i64, i64)>,
    pub range_y: Option<(i64, i64)>,
    pub range_y_lines: Vec<Option<(i64, i64)>>,
    pub position_range: Bounds,
}

impl UseData {
    /// Every line holds one value per record.
    pub open spec fn wf(&self) -> bool {
        &&& self.series@.len() == self.data_y_lines@.len()
        &&& self.range_y_lines@.len() == self.data_y_lines@.len()
        &&& forall|l: int|
            0 <= l < self.data_y_lines@.len() ==> (#[trigger] self.data_y_lines@[l])@.len()
                == self.data_x@.len()
        &&& self.position_range.wf()
    }

    /// The index `nearest_index` picks for query `q`.
    pub open spec fn nearest_spec(&self, q: int) -> Option<int> {
        if self.data_x@.len() == 0 {
            None
        } else {
            Some(pick(positions_of(self.data_x@), q, first_not_below(positions_of(self.data_x@), q)))
        }
    }

    /// The record nearest to x position `q`; see `nearest_index`.
    pub fn nearest_index(&self, q: i64) -> (r: Option<usize>)
        requires
            sorted_present(self.data_x@),
        ensures
            r.is_some() == self.nearest_spec(q as int).is_some(),
            r.is_some() ==> r.unwrap() == self.nearest_spec(q as int).unwrap(),
            r.is_some() ==> r.unwrap() < self.data_x@.len(),
    {
        nearest_index(&self.data_x, q)
    }

    /// The x value of the record nearest to `q`, `None` without data.
    pub fn nearest_data_x(&self, q: i64) -> (r: Option<i64>)
        requires
            sorted_present(self.data_x@),
        ensures
            r == (match self.nearest_spec(q as int) {
                Some(k) => Some(positions_of(self.data_x@)[k]),
                None => None,
            }),
    {
        match self.nearest_index(q) {
            Some(k) => Some(self.data_x[k].unwrap()),
            None => None,
        }
    }

    /// The x position of the record nearest to `q`, `None` without data.
    pub fn nearest_position_x(&self, q: i64) -> (r: Option<i64>)
        requires
            sorted_present(self.data_x@),
        ensures
            r == (match self.nearest_spec(q as int) {
                Some(k) => Some(positions_of(self.data_x@)[k]),
                None => None,
            }),
    {
        self.nearest_data_x(q)
    }

    /// For each line, its identifier and its y value at the record nearest
    /// to `q` (`None` without data).
    pub fn nearest_data_y(&self, q: i64) -> (r: Vec<(usize, Option<Option<i64>>)>)
        requires
            self.wf(),
            sorted_present(self.data_x@),
        ensures
            r@.len() == self.series@.len(),
            forall|l: int|
                0 <= l < r@.len() ==> (#[trigger] r@[l]).0 == self.series@[l].id && r@[l].1 == (
                match self.nearest_spec(q as int) {
                    Some(k) => Some(self.data_y_lines@[l]@[k]),
                    None => None,
                }),
    {
        let index = self.nearest_index(q);
        let mut r: Vec<(usize, Option<Option<i64>>)> = Vec::new();
        let mut l: usize = 0;
        while l < self.series.len()
            invariant
                self.wf(),
                l <= self.series@.len(),
                r@.len() == l,
                index.is_some() == self.nearest_spec(q as int).is_some(),
                index.is_some() ==> index.unwrap() == self.nearest_spec(q as int).unwrap(),
                index.is_some() ==> index.unwrap() < self.data_x@.len(),
                forall|k: int|
                    0 <= k < l ==> (#[trigger] r@[k]).0 == self.series@[k].id && r@[k].1 == (
                    match self.nearest_spec(q as int) {
                        Some(j) => Some(self.data_y_lines@[k]@[j]),
                        None => None,
                    }),
            decreases self.series.len() - l,
        {
            let v = match index {
                Some(k) => Some(self.data_y_lines[l][k]),
                None => None,
            };
            r.push((self.series[l].id, v));
            l = l + 1;
        }
        r
    }
}

} // verus!
