use chartistry::bounds::Bounds;
use chartistry::projection::Projection;

fn proj() -> Projection {
    // Plot area 100 x 50 px at (10, 20); data domain x 0..1000, y -50..50.
    Projection::new(Bounds::from_points(10, 20, 110, 70), Bounds::from_points(0, -50, 1000, 50))
}

#[test]
fn maps_corners_of_the_domain() {
    let p = proj();
    assert_eq!(p.data_to_svg(0, -50), (10, 70));
    assert_eq!(p.data_to_svg(1000, 50), (110, 20));
    assert_eq!(p.data_to_svg(500, 0), (60, 45));
    assert_eq!(p.position_to_svg(250, 25), (35, 33));
}

#[test]
fn rounds_down_including_left_of_the_domain() {
    let p = proj();
    // 5 * 100 / 1000 = 0.5 -> 0; -5 * 100 / 1000 = -0.5 -> -1
    assert_eq!(p.data_to_svg(5, -50).0, 10);
    assert_eq!(p.data_to_svg(-5, -50).0, 9);
    assert_eq!(p.data_to_svg(-1000, -50).0, -90);
}

#[test]
fn zero_width_domain_maps_to_centre() {
    let p = Projection::new(Bounds::from_points(0, 0, 101, 51), Bounds::from_points(7, 7, 7, 7));
    for x in [-1000, 0, 7, 1000] {
        assert_eq!(p.data_to_svg(x, x), (50, 25));
    }
}

#[test]
fn zero_size_plot_area_maps_back_to_domain_centre() {
    let p = Projection::new(Bounds::from_points(5, 5, 5, 5), Bounds::from_points(0, 0, 10, 20));
    assert_eq!(p.svg_to_data(123, -4), (5, 10));
}

#[test]
fn inverse_maps_pixels_back() {
    let p = proj();
    assert_eq!(p.svg_to_data(10, 70), (0, -50));
    assert_eq!(p.svg_to_data(110, 20), (1000, 50));
    assert_eq!(p.svg_to_data(60, 45), (500, 0));
}

#[test]
fn pixel_round_trip_within_rounding() {
    // 3 px for 4 data units: error below one data unit's span plus one pixel.
    let p = Projection::new(Bounds::from_points(0, 0, 3, 3), Bounds::from_points(0, 0, 4, 4));
    for s in 0..=3i64 {
        let (dx, dy) = p.svg_to_data(s, s);
        let (bx, by) = p.data_to_svg(dx, dy);
        assert!(s - bx >= 0 && (s - bx) * 4 < 3 + 4);
        assert!(by - s >= 0 && (by - s) * 4 < 3 + 4);
    }
    let q = proj();
    for s in 10..=110i64 {
        let (dx, _) = q.svg_to_data(s, 45);
        assert_eq!(q.data_to_svg(dx, 0).0, s);
    }
}

#[test]
fn far_values_saturate() {
    let p = Projection::new(Bounds::from_points(0, 0, 1000, 1000), Bounds::from_points(0, 0, 1, 1));
    assert_eq!(p.data_to_svg(i64::MAX, i64::MIN), (i64::MAX, i64::MAX));
    assert_eq!(p.data_to_svg(i64::MIN, i64::MAX).0, i64::MIN);
    assert_eq!(p.bounds(), Bounds::from_points(0, 0, 1000, 1000));
}
