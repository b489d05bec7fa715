use chartistry::bounds::{Bounds, Padding};
use chartistry::layout::{compose, EdgeLayout, Font, FONT_HEIGHT, FONT_WIDTH};

fn ticks(widest: u32) -> EdgeLayout {
    EdgeLayout::TickLabels { widest }
}

fn label(text: &str) -> EdgeLayout {
    EdgeLayout::RotatedLabel { text: text.to_string() }
}

#[test]
fn sizes_of_decorations() {
    let font = Font::new(16, 10);
    let pad = Padding::new(1, 2, 3, 4);
    assert_eq!(ticks(5).size(true, font, pad), 16 + 4);
    assert_eq!(ticks(5).size(false, font, pad), 50 + 6);
    assert_eq!(EdgeLayout::Legend { widest: 3 }.size(false, font, pad), 30 + 6);
    assert_eq!(label("title").size(true, font, pad), 20);
    assert_eq!(label("title").size(false, font, pad), 22);
    assert_eq!(Font::default_metrics(), Font::new(FONT_HEIGHT, FONT_WIDTH));
}

#[test]
fn layout_conserves_space() {
    let font = Font::new(16, 10);
    let pad = Padding::from(2);
    // top: 20 + 20, bottom: 20, left: 4 * 10 + 4 = 44, right: 24
    let top = vec![label("a"), ticks(1)];
    let bottom = vec![ticks(9)];
    let left = vec![ticks(4)];
    let right = vec![EdgeLayout::Legend { widest: 2 }];
    let outer = Bounds::from_size(800, 600);
    let l = compose(&top, &right, &bottom, &left, outer, font, pad);
    assert_eq!(l.outer, outer);
    assert_eq!(l.inner, Bounds::from_points(44, 40, 776, 580));
    assert_eq!(l.inner.width(), 800 - 44 - 24);
    assert_eq!(l.inner.height(), 600 - 40 - 20);
    assert_eq!(l.left[0], Bounds::from_points(0, 40, 44, 580));
    assert_eq!(l.right[0], Bounds::from_points(776, 40, 800, 580));
    assert_eq!(l.bottom[0], Bounds::from_points(44, 580, 776, 600));
}

#[test]
fn layout_floors_at_zero() {
    let font = Font::new(16, 10);
    let pad = Padding::zero();
    let top = vec![label("a"), label("b")];
    let bottom = vec![label("c")];
    let left = vec![ticks(30)];
    let outer = Bounds::from_size(100, 40);
    let l = compose(&top, &vec![], &bottom, &left, outer, font, pad);
    assert_eq!(l.inner.width(), 0);
    assert_eq!(l.inner.height(), 0);
    assert_eq!(l.top[1], Bounds::from_points(100, 16, 100, 32));
    assert_eq!(l.bottom[0], Bounds::from_points(100, 32, 100, 40));
}

#[test]
fn no_decorations_leave_outer_as_plot_area() {
    let outer = Bounds::from_points(3, 4, 50, 60);
    let l = compose(&vec![], &vec![], &vec![], &vec![], outer, Font::default_metrics(), Padding::from(10));
    assert_eq!(l.inner, outer);
    assert!(l.top.is_empty() && l.right.is_empty() && l.bottom.is_empty() && l.left.is_empty());
    let z = Bounds::from_size(0, 0);
    let lz = compose(&vec![ticks(3)], &vec![], &vec![], &vec![ticks(3)], z, Font::default_metrics(), Padding::zero());
    assert_eq!(lz.inner, z);
}

#[test]
fn top_declared_first_is_furthest_from_plot() {
    let font = Font::new(16, 10);
    let pad = Padding::zero();
    let top = vec![label("A"), label("B")];
    let l = compose(&top, &vec![], &vec![], &vec![], Bounds::from_size(200, 100), font, pad);
    let (a, b) = (l.top[0], l.top[1]);
    assert!(a.top < b.top);
    assert!(a.bottom <= b.top);
    assert_eq!(a, Bounds::from_points(0, 0, 200, 16));
    assert_eq!(b, Bounds::from_points(0, 16, 200, 32));
    assert_eq!(l.inner.top, 32);
}

#[test]
fn edge_order_on_each_side() {
    let font = Font::new(10, 10);
    let pad = Padding::zero();
    let two = vec![label("first"), label("second")];
    let l = compose(&two, &two, &two, &two, Bounds::from_size(200, 200), font, pad);
    // left: first is leftmost; right: first is nearest the plot.
    assert_eq!(l.left[0].left, 0);
    assert_eq!(l.left[1].left, 10);
    assert_eq!(l.right[0].left, 180);
    assert_eq!(l.right[1].left, 190);
    // bottom: first is nearest the plot.
    assert_eq!(l.bottom[0].top, 180);
    assert_eq!(l.bottom[1].top, 190);
    assert_eq!(l.inner, Bounds::from_points(20, 20, 180, 180));
}
