use chartistry::options::Options;

#[test]
fn options_reorder() {
    let o = Options::new(vec![1, 2, 3]).add(4);
    assert_eq!(o.0, vec![1, 2, 3, 4]);
    let o = o.move_up(2);
    assert_eq!(o.0, vec![1, 3, 2, 4]);
    let o = o.move_up(0).move_down(3).move_down(9).move_up(9);
    assert_eq!(o.0, vec![1, 3, 2, 4]);
    let o = o.move_down(0);
    assert_eq!(o.0, vec![3, 1, 2, 4]);
    let o = o.remove(1).remove(7);
    assert_eq!(o.into_inner(), vec![3, 2, 4]);
    let empty: Options<u8> = Options::new(vec![]);
    assert!(empty.move_down(0).into_inner().is_empty());
}
