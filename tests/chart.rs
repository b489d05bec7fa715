use chartistry::aspect::{AspectRatio, KnownAspectRatio, Ratio};
use chartistry::bounds::{Bounds, Padding};
use chartistry::chart::{
    grid_lines_x, grid_lines_y, guide_line_x, render_data, tick_label, tick_labels, Anchor, AxisMarker,
    Chart, Placement,
};
use chartistry::data::Series;
use chartistry::layout::{Edge, EdgeLayout, Font};
use chartistry::projection::Projection;
use chartistry::timestamp::Timestamp;

fn wave_data() -> (Vec<Option<i64>>, Vec<Vec<Option<i64>>>) {
    let mut xs = Vec::new();
    let mut sine = Vec::new();
    let mut cosine = Vec::new();
    for i in 0..1000 {
        let x = i as f64 / 1000.0 * std::f64::consts::PI * 2.0 * 2.0;
        xs.push(Some((x * 1000.0).round() as i64));
        sine.push(Some(((x.sin() + 1.0) * 1000.0).round() as i64));
        cosine.push(Some(((x.cos() + 1.0) * 1000.0).round() as i64));
    }
    (xs, vec![sine, cosine])
}

#[test]
fn end_to_end_sine_cosine() {
    let (xs, ys) = wave_data();
    let data = Series::new()
        .add_series("sine".to_string())
        .add_series("cosine".to_string())
        .use_data(xs, ys);
    let mut chart = Chart::new(AspectRatio::outer(800, 600));
    chart.bottom.push(EdgeLayout::TickLabels { widest: 4 });
    chart.left.push(EdgeLayout::TickLabels { widest: 4 });
    chart.inner.push(AxisMarker::horizontal_zero());
    assert!(chart.render(&data, None).is_none());
    let r = chart.render(&data, Some((1024, 768))).unwrap();
    assert_eq!(r.layout.outer, Bounds::from_size(800, 600));
    assert!(r.layout.inner.width() < 800);
    assert!(r.layout.inner.height() < 600);
    let (_, zero_y) = r.projection.data_to_svg(0, 0);
    assert_eq!(r.markers[0].1, zero_y);
    assert_eq!(r.markers[0].3, zero_y);
    assert_eq!(r.projection.inner, r.layout.inner);
    assert_eq!(r.projection.range, data.position_range);
}

#[test]
fn chart_defaults() {
    let c = Chart::new(AspectRatio::inner(10, 10));
    assert_eq!(c.font, Font::new(16, 10));
    assert_eq!(c.padding, None);
    assert_eq!(c.padding(), Padding::from(10));
    let narrow = c.clone().set_font(Font::new(12, 7));
    assert_eq!(narrow.padding(), Padding::from(7));
    let set = narrow.set_padding(Padding::from(3)).set_font(Font::new(20, 12));
    assert_eq!(set.padding(), Padding::from(3));
}

#[test]
fn inner_policy_grows_outer_by_decorations() {
    let data = Series::new().add_series("a".to_string()).use_data(vec![Some(0), Some(1)], vec![vec![Some(0), Some(1)]]);
    let mut chart = Chart::new(AspectRatio::inner(400, 300));
    chart.padding = Some(Padding::zero());
    chart.top.push(EdgeLayout::RotatedLabel { text: "title".to_string() });
    chart.left.push(EdgeLayout::TickLabels { widest: 3 });
    let r = chart.render(&data, Some((1, 1))).unwrap();
    assert_eq!(r.layout.inner.width(), 400);
    assert_eq!(r.layout.inner.height(), 300);
    assert_eq!(r.layout.outer, Bounds::from_size(430, 316));
}

#[test]
fn environment_policies_follow_container() {
    let r = Ratio { num: 2, den: 1 };
    assert_eq!(AspectRatio::Environment.known(Some((300, 200))), Some(KnownAspectRatio::Outer { width: 300, height: 200 }));
    assert_eq!(AspectRatio::EnvironmentWidth(r).known(Some((300, 200))), Some(KnownAspectRatio::Outer { width: 400, height: 200 }));
    assert_eq!(AspectRatio::EnvironmentHeight(r).known(Some((300, 200))), Some(KnownAspectRatio::Outer { width: 300, height: 150 }));
    assert_eq!(AspectRatio::Environment.known(None), None);
}

#[test]
fn aspect_formulas() {
    let r = Ratio { num: 4, den: 3 };
    assert_eq!(AspectRatio::outer(800, 600).known(Some((1, 1))), Some(KnownAspectRatio::Outer { width: 800, height: 600 }));
    assert_eq!(AspectRatio::outer_width(600, r).known(Some((1, 1))), Some(KnownAspectRatio::Outer { width: 800, height: 600 }));
    assert_eq!(AspectRatio::outer_height(800, r).known(Some((1, 1))), Some(KnownAspectRatio::Outer { width: 800, height: 600 }));
    assert_eq!(AspectRatio::inner_width(300, r).known(Some((1, 1))), Some(KnownAspectRatio::Inner { width: 400, height: 300 }));
    assert_eq!(AspectRatio::inner_height(400, r).known(Some((1, 1))), Some(KnownAspectRatio::Inner { width: 400, height: 300 }));
    let big = Ratio { num: u32::MAX, den: 1 };
    assert_eq!(AspectRatio::outer_width(u32::MAX, big).known(Some((1, 1))), Some(KnownAspectRatio::Outer { width: u32::MAX, height: u32::MAX }));
}

#[test]
fn axis_marker_lines() {
    let p = Projection::new(Bounds::from_points(0, 0, 100, 50), Bounds::from_points(-10, -5, 10, 5));
    assert_eq!(AxisMarker::top_edge().line(&p), (0, 0, 100, 0));
    assert_eq!(AxisMarker::bottom_edge().line(&p), (0, 50, 100, 50));
    assert_eq!(AxisMarker::left_edge().line(&p), (0, 50, 0, 0));
    assert_eq!(AxisMarker::right_edge().line(&p), (100, 50, 100, 0));
    assert_eq!(AxisMarker::horizontal_zero().line(&p), (0, 25, 100, 25));
    assert_eq!(AxisMarker::vertical_zero().line(&p), (50, 50, 50, 0));
    let m = AxisMarker::vertical_zero().set_arrow(false).set_width(3);
    assert!(!m.arrow);
    assert_eq!(m.width, 3);
    assert_eq!(m.edge, Edge::Left);
    assert_eq!(m.placement, Placement::Zero);
}

#[test]
fn timestamp_position_in_milliseconds() {
    assert_eq!(Timestamp::new(1, 500_000_000).position(), 1500);
    assert_eq!(Timestamp::new(-2, 999_999_999).position(), -1001);
    assert_eq!(Timestamp::new(0, 0).position(), 0);
}

#[test]
fn tick_label_placement_on_each_edge() {
    let p = Projection::new(Bounds::from_points(0, 0, 100, 50), Bounds::from_points(-10, -5, 10, 5));
    let font = Font::new(16, 10);
    let pad = Padding::from(2);
    let b = tick_label(Edge::Bottom, Bounds::from_points(0, 50, 100, 86), &p, 3, 0, font, pad);
    assert_eq!(b.bounds, Bounds::from_points(33, 50, 67, 86));
    assert_eq!(b.content, Bounds::from_points(35, 52, 65, 84));
    assert_eq!((b.anchor, b.x, b.y), (Anchor::Middle, 50, 68));
    let l = tick_label(Edge::Left, Bounds::from_points(-40, 0, 0, 50), &p, 3, 0, font, pad);
    assert_eq!(l.bounds, Bounds::from_points(-40, 15, 0, 35));
    assert_eq!(l.content, Bounds::from_points(-38, 17, -2, 33));
    assert_eq!((l.anchor, l.x, l.y), (Anchor::End, -2, 25));
    let r = tick_label(Edge::Right, Bounds::from_points(100, 0, 140, 50), &p, 3, 5, font, pad);
    assert_eq!(r.bounds, Bounds::from_points(100, -10, 140, 10));
    assert_eq!((r.anchor, r.x, r.y), (Anchor::Start, 102, 0));
}

#[test]
fn render_data_projects_each_point() {
    let data = Series::new()
        .add_series("a".to_string())
        .add_series("b".to_string())
        .use_data(vec![Some(0), Some(10)], vec![vec![Some(0), None], vec![Some(5), Some(10)]]);
    let p = Projection::new(Bounds::from_size(100, 100), data.position_range);
    let coords = render_data(&data, &p);
    assert_eq!(coords, vec![vec![Some((0, 100)), None], vec![Some((0, 50)), Some((100, 0))]]);
}

#[test]
fn tick_labels_measure_widest_label() {
    let labels = vec!["1".to_string(), "100".to_string(), "10".to_string()];
    let t = EdgeLayout::tick_labels(&labels);
    assert!(matches!(t, EdgeLayout::TickLabels { widest: 3 }));
    assert_eq!(t.size(false, Font::new(16, 10), Padding::from(1)), 32);
    assert!(matches!(EdgeLayout::tick_labels(&vec![]), EdgeLayout::TickLabels { widest: 0 }));
}

#[test]
fn tick_labels_place_every_tick() {
    let p = Projection::new(Bounds::from_points(0, 0, 100, 50), Bounds::from_points(-10, -5, 10, 5));
    let placed = tick_labels(
        Edge::Bottom,
        Bounds::from_points(0, 50, 100, 86),
        &p,
        &vec![(0, 3), (10, 1)],
        Font::new(16, 10),
        Padding::from(2),
    );
    assert_eq!(placed.len(), 2);
    assert_eq!(placed[0].bounds, Bounds::from_points(33, 50, 67, 86));
    assert_eq!(placed[1].bounds, Bounds::from_points(93, 50, 107, 86));
    assert_eq!(placed[1].content, Bounds::from_points(95, 52, 105, 84));
}

#[test]
fn guide_line_snaps_to_nearest_record() {
    let data = Series::new()
        .add_series("a".to_string())
        .use_data(vec![Some(0), Some(10), Some(20)], vec![vec![Some(0), Some(5), Some(10)]]);
    let p = Projection::new(Bounds::from_size(200, 100), data.position_range);
    assert_eq!(guide_line_x(&data, &p, 60), Some(100));
    assert_eq!(guide_line_x(&data, &p, 40), Some(0));
    assert_eq!(guide_line_x(&data, &p, 150), Some(100));
    assert_eq!(guide_line_x(&data, &p, 1000), Some(200));
    let empty = Series::new().use_data(vec![], vec![]);
    assert_eq!(guide_line_x(&empty, &p, 60), None);
}

#[test]
fn grid_lines_at_ticks() {
    let p = Projection::new(Bounds::from_size(200, 100), Bounds::from_points(0, 0, 20, 10));
    assert_eq!(grid_lines_x(&p, &vec![0, 10]), vec![(0, 100, 0, 0), (100, 100, 100, 0)]);
    assert_eq!(grid_lines_y(&p, &vec![5]), vec![(0, 50, 200, 50)]);
    assert!(grid_lines_x(&p, &vec![]).is_empty());
}

#[test]
fn render_data_skips_absent_x() {
    let data = Series::new()
        .add_series("a".to_string())
        .use_data(vec![Some(0), None, Some(10)], vec![vec![Some(0), Some(5), Some(10)]]);
    let p = Projection::new(Bounds::from_size(100, 100), data.position_range);
    assert_eq!(render_data(&data, &p), vec![vec![Some((0, 100)), None, Some((100, 0))]]);
}

#[test]
fn tick_label_without_padding_centres_on_tick() {
    let p = Projection::new(Bounds::from_points(0, 0, 100, 50), Bounds::from_points(-10, -5, 10, 5));
    let edge = Bounds::from_points(0, 50, 100, 71);
    let t = tick_label(Edge::Top, edge, &p, 3, 4, Font::new(16, 10), Padding::zero());
    assert_eq!(t.content, t.bounds);
    assert_eq!(t.bounds, Bounds::from_points(55, 50, 85, 71));
    assert_eq!((t.anchor, t.x, t.y), (Anchor::Middle, 70, 60));
}
