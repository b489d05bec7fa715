use chartistry::data::{data_range, nearest_index, reconcile_range, Series};

#[test]
fn range_of_values_skips_absent() {
    assert_eq!(data_range(&vec![Some(3), None, Some(-2), Some(7), None]), Some((-2, 7)));
    assert_eq!(data_range(&vec![None, None]), None);
    assert_eq!(data_range(&vec![]), None);
}

#[test]
fn range_reconciliation_takes_union() {
    let data = data_range(&vec![Some(1), Some(2), Some(3)]);
    assert_eq!(reconcile_range(data, None, None), Some((1, 3)));
    assert_eq!(reconcile_range(data, Some(0), None), Some((0, 3)));
    // An override past the data widens the range; it does not replace it.
    assert_eq!(reconcile_range(data, Some(5), None), Some((1, 5)));
    assert_eq!(reconcile_range(data, None, Some(10)), Some((1, 10)));
    assert_eq!(reconcile_range(data, Some(2), Some(2)), Some((1, 3)));
    // An inverted override is absorbed.
    assert_eq!(reconcile_range(data, Some(9), Some(-9)), Some((1, 3)));
    assert_eq!(reconcile_range(None, Some(9), Some(-9)), Some((9, -9)));
    assert_eq!(reconcile_range(None, None, None), None);
}

#[test]
fn series_range_x_with_overrides() {
    let d = Series::new().use_data(vec![Some(1), Some(2), Some(3)], vec![]);
    assert_eq!(d.range_x, Some((1, 3)));
    let d = Series::new().set_x_min(Some(0)).use_data(vec![Some(1), Some(2), Some(3)], vec![]);
    assert_eq!(d.range_x, Some((0, 3)));
    let d = Series::new().set_x_min(Some(5)).use_data(vec![Some(1), Some(2), Some(3)], vec![]);
    assert_eq!(d.range_x, Some((1, 5)));
    let d = Series::new().set_x_range(Some(-4), Some(40)).use_data(vec![Some(1), Some(2), Some(3)], vec![]);
    assert_eq!(d.range_x, Some((-4, 40)));
}

#[test]
fn nearest_index_boundaries_and_ties() {
    let xs = vec![Some(10), Some(20), Some(30)];
    assert_eq!(nearest_index(&xs, 5), Some(0));
    assert_eq!(nearest_index(&xs, 35), Some(2));
    // A tie goes to the earlier neighbour.
    assert_eq!(nearest_index(&xs, 15), Some(0));
    assert_eq!(nearest_index(&xs, 25), Some(1));
    assert_eq!(nearest_index(&xs, 16), Some(1));
    assert_eq!(nearest_index(&xs, 20), Some(1));
    assert_eq!(nearest_index(&xs, 30), Some(2));
    assert_eq!(nearest_index(&vec![], 3), None);
    assert_eq!(nearest_index(&vec![Some(7)], i64::MIN), Some(0));
    assert_eq!(nearest_index(&vec![Some(i64::MIN), Some(i64::MAX)], 0), Some(1));
    assert_eq!(nearest_index(&vec![Some(i64::MIN), Some(i64::MAX)], -1), Some(0));
}

#[test]
fn use_data_aligns_lines_and_combines_ranges() {
    let series = Series::new()
        .add_series("sine".to_string())
        .add_series("cosine".to_string())
        .add_series("empty".to_string());
    let d = series.use_data(
        vec![Some(0), Some(10), Some(20)],
        vec![vec![Some(5), None, Some(-3)], vec![Some(8), Some(1)]],
    );
    assert_eq!(d.series.len(), 3);
    assert_eq!(d.series[1].id, 1);
    assert_eq!(d.series[1].name, "cosine");
    assert_eq!(d.data_y_lines[0], vec![Some(5), None, Some(-3)]);
    assert_eq!(d.data_y_lines[1], vec![Some(8), Some(1), None]);
    assert_eq!(d.data_y_lines[2], vec![None, None, None]);
    assert_eq!(d.range_y_lines, vec![Some((-3, 5)), Some((1, 8)), None]);
    assert_eq!(d.range_y, Some((-3, 8)));
    assert_eq!(d.range_x, Some((0, 20)));
    let b = d.position_range;
    assert_eq!((b.left, b.top, b.right, b.bottom), (0, -3, 20, 8));
}

#[test]
fn range_y_reconciles_every_line_with_overrides() {
    let s = Series::new().add_series("a".to_string()).add_series("b".to_string());
    let d = s.clone().set_y_range(Some(-10), Some(2)).use_data(vec![Some(1), Some(2)], vec![vec![Some(0), Some(4)], vec![Some(-1), Some(1)]]);
    assert_eq!(d.range_y, Some((-10, 4)));
    // A single bound counts as both ends, as for x.
    let e = s.clone().set_y_min(Some(3)).use_data(vec![], vec![]);
    assert_eq!(e.range_y, Some((3, 3)));
    let g = s.clone().set_y_min(Some(5)).use_data(vec![Some(0), Some(1)], vec![vec![Some(1), Some(2)]]);
    assert_eq!(g.range_y, Some((1, 5)));
    let h = s.clone().set_y_max(Some(-7)).use_data(vec![Some(0)], vec![vec![None], vec![Some(4)]]);
    assert_eq!(h.range_y, Some((-7, 4)));
    let f = s.set_y_min(Some(3)).set_y_max(Some(1)).use_data(vec![], vec![]);
    assert_eq!(f.range_y, Some((3, 1)));
    let b = f.position_range;
    assert_eq!((b.left, b.top, b.right, b.bottom), (0, 1, 0, 3));
}

#[test]
fn empty_data_has_no_ranges() {
    let d = Series::new().add_series("a".to_string()).use_data(vec![], vec![]);
    assert_eq!(d.range_x, None);
    assert_eq!(d.range_y, None);
    assert_eq!(d.nearest_index(5), None);
    assert_eq!(d.nearest_data_x(5), None);
    assert_eq!(d.nearest_position_x(5), None);
    assert_eq!(d.nearest_data_y(5), vec![(0, None)]);
    let b = d.position_range;
    assert_eq!((b.left, b.top, b.right, b.bottom), (0, 0, 0, 0));
}

#[test]
fn nearest_queries_on_use_data() {
    let d = Series::new()
        .add_series("a".to_string())
        .add_series("b".to_string())
        .use_data(vec![Some(10), Some(20), Some(30)], vec![vec![Some(1), Some(2), None], vec![Some(7), Some(8), Some(9)]]);
    assert_eq!(d.nearest_index(26), Some(2));
    assert_eq!(d.nearest_data_x(14), Some(10));
    assert_eq!(d.nearest_position_x(99), Some(30));
    assert_eq!(d.nearest_data_y(26), vec![(0, Some(None)), (1, Some(Some(9)))]);
    assert_eq!(d.nearest_data_y(21), vec![(0, Some(Some(2))), (1, Some(Some(8)))]);
}

#[test]
fn non_finite_x_stays_but_is_out_of_range() {
    let d = Series::new()
        .add_series("a".to_string())
        .use_data(vec![Some(1), None, Some(3)], vec![vec![Some(4), Some(5), Some(6)]]);
    assert_eq!(d.data_x, vec![Some(1), None, Some(3)]);
    assert_eq!(d.data_y_lines[0].len(), 3);
    assert_eq!(d.range_x, Some((1, 3)));
    assert_eq!(d.range_y, Some((4, 6)));
}
