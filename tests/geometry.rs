use roguelike::rect::Rect;

#[test]
fn adjacent_rooms_sharing_an_edge_overlap() {
    let first = Rect::new(10, 10, 6, 6);
    let second = Rect::new(15, 10, 6, 6);
    assert_eq!(first.x2, 16);
    assert_eq!(first.y2, 16);
    assert!(first.intersects_with(&second));
    assert!(second.intersects_with(&first));
}

#[test]
fn touching_corners_overlap_but_gaps_do_not() {
    let a = Rect::new(0, 0, 6, 6);
    let corner = Rect::new(6, 6, 6, 6);
    let apart = Rect::new(7, 0, 6, 6);
    assert!(a.intersects_with(&corner));
    assert!(!a.intersects_with(&apart));
    assert!(!apart.intersects_with(&a));
}

#[test]
fn center_rounds_toward_zero() {
    assert_eq!(Rect::new(10, 10, 6, 6).get_center(), (13, 13));
    assert_eq!(Rect::new(0, 0, 7, 9).get_center(), (3, 4));
    assert_eq!(Rect::new(-3, -3, 0, 0).get_center(), (-3, -3));
    assert_eq!(Rect::new(-3, 0, 2, 1).get_center(), (-2, 0));
}
