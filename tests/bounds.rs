use chartistry::bounds::{Bounds, Padding};

#[test]
fn from_points_orders_corners_in_any_order() {
    let orders = [(0, 0, 10, 20), (10, 20, 0, 0), (10, 0, 0, 20), (0, 20, 10, 0)];
    for (x0, y0, x1, y1) in orders {
        let b = Bounds::from_points(x0, y0, x1, y1);
        assert!(b.left <= b.right);
        assert!(b.top <= b.bottom);
        assert_eq!((b.left, b.top, b.right, b.bottom), (0, 0, 10, 20));
    }
}

#[test]
fn from_points_extremes() {
    let b = Bounds::from_points(i64::MAX, i64::MIN, i64::MIN, i64::MAX);
    assert_eq!((b.left, b.top, b.right, b.bottom), (i64::MIN, i64::MIN, i64::MAX, i64::MAX));
    assert_eq!(b.width(), u64::MAX);
    assert_eq!(b.height(), u64::MAX);
}

#[test]
fn zero_padding_is_identity() {
    let b = Bounds::from_points(-5, 3, 17, 40);
    assert_eq!(b.apply_padding(Padding::zero()), b);
    let empty = Bounds::from_points(7, 7, 7, 7);
    assert_eq!(empty.apply_padding(Padding::zero()), empty);
}

#[test]
fn padding_shrinks_each_side() {
    let b = Bounds::from_size(100, 50);
    let p = b.apply_padding(Padding::new(1, 2, 3, 4));
    assert_eq!((p.left, p.top, p.right, p.bottom), (4, 1, 98, 47));
    assert_eq!(p.width(), 94);
    assert_eq!(p.height(), 46);
}

#[test]
fn padding_floors_size_at_zero() {
    let b = Bounds::from_size(10, 10);
    let p = b.apply_padding(Padding::from(8));
    assert_eq!(p.width(), 0);
    assert_eq!(p.height(), 0);
    assert_eq!((p.left, p.top), (8, 8));
    let q = b.apply_padding(Padding::new(0, 0, 0, 30));
    assert_eq!((q.left, q.right), (10, 10));
}

#[test]
fn centre_and_sides() {
    let b = Bounds::from_points(0, 0, 11, 21);
    assert_eq!(b.centre_x(), 5);
    assert_eq!(b.centre_y(), 10);
    assert_eq!((b.left_x(), b.top_y(), b.right_x(), b.bottom_y()), (0, 0, 11, 21));
    assert_eq!(Padding::new(1, 2, 3, 4).width(), 6);
    assert_eq!(Padding::new(1, 2, 3, 4).height(), 4);
}
