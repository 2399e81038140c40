use cat_zzz::rect::is_collision;

#[test]
fn test_is_collision() {
    // Define two rectangles
    let rect1 = (0, 0, 2, 2);
    let rect2 = (1, 1, 2, 2);

    // Check if they collide
    assert!(is_collision(rect1, rect2));

    // Define a non-colliding rectangle
    let rect3 = (5, 5, 2, 2);
    assert!(!is_collision(rect1, rect3));
}

#[test]
fn overlap_is_symmetric_on_samples() {
    let rects = [
        (0u32, 0u32, 2u32, 2u32),
        (1, 1, 2, 2),
        (5, 5, 2, 2),
        (0, 0, 0, 0),
        (3, 7, 10, 1),
        (u32::MAX - 1, u32::MAX - 1, 5, 5),
    ];
    for &a in rects.iter() {
        for &b in rects.iter() {
            assert_eq!(is_collision(a, b), is_collision(b, a));
        }
    }
}

#[test]
fn nonempty_rect_overlaps_itself() {
    assert!(is_collision((0, 0, 1, 1), (0, 0, 1, 1)));
    assert!(is_collision((10, 20, 3, 7), (10, 20, 3, 7)));
    assert!(is_collision((u32::MAX, u32::MAX, 1, 1), (u32::MAX, u32::MAX, 1, 1)));
}

#[test]
fn zero_size_rect_does_not_overlap_itself() {
    assert!(!is_collision((0, 0, 0, 0), (0, 0, 0, 0)));
    assert!(!is_collision((5, 5, 0, 3), (5, 5, 0, 3)));
}

#[test]
fn touching_edges_do_not_overlap() {
    assert!(!is_collision((0, 0, 2, 2), (2, 0, 2, 2)));
    assert!(!is_collision((0, 0, 2, 2), (0, 2, 2, 2)));
    assert!(is_collision((0, 0, 3, 3), (2, 2, 2, 2)));
}
