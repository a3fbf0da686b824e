use graphics::{EdgeInsets, Point, Rect, Size};

#[test]
fn test_containing() {
    let point_a = Point { x: 9, y: 13 };
    let point_b = Point { x: 9, y: 3 };

    let result = Rect::containing(&point_a, &point_b);

    assert_eq!(result, Rect::new(9, 3, 1, 10));
}

#[test]
fn test_containing_points() {
    let point_a = Point { x: 9, y: 13 };
    let point_b = Point { x: 9, y: 3 };

    let result = Rect::containing_points(&vec![point_a, point_b]);

    assert_eq!(result, Some(Rect::new(9, 3, 1, 11)));
}

#[test]
fn containing_points_of_nothing() {
    assert_eq!(Rect::containing_points(&Vec::new()), None);
}

#[test]
fn test_min_x() {
    let rect = Rect::new(3, 4, 10, 23);
    assert_eq!(rect.min_x(), 3);
}

#[test]
fn test_max_x() {
    let rect = Rect::new(3, 4, 10, 23);
    assert_eq!(rect.max_x(), 13);
}

#[test]
fn test_min_y() {
    let rect = Rect::new(3, 4, 10, 23);
    assert_eq!(rect.min_y(), 4);
}

#[test]
fn test_max_y() {
    let rect = Rect::new(3, 4, 10, 23);
    assert_eq!(rect.max_y(), 27);
}

#[test]
fn edges_of_negative_rect() {
    let rect = Rect::new(10, 10, -5, -7);
    assert_eq!(rect.min_x(), 5);
    assert_eq!(rect.max_x(), 10);
    assert_eq!(rect.min_y(), 3);
    assert_eq!(rect.max_y(), 10);
    assert_eq!(rect.width(), 5);
    assert_eq!(rect.height(), 7);
}

#[test]
fn test_contains() {
    let rect = Rect::new(3, 4, 10, 23);
    let point_inside = Point { x: 7, y: 8 };
    assert!(rect.contains(point_inside));

    let point_outside = Point { x: 2, y: 8 };
    assert!(rect.contains(point_outside) == false);
}

#[test]
fn test_intersection() {
    let rect_a = Rect::new(0, 0, 6, 6);
    let rect_b = Rect::new(3, 2, 5, 3);
    let expected = Rect::new(3, 2, 3, 3);

    assert_eq!(rect_a.intersection(&rect_b), Some(expected));

    let rect_c = Rect::new(7, 0, 2, 0);
    assert_eq!(rect_a.intersection(&rect_c), None);
    assert_eq!(rect_c.intersection(&rect_a), None);

    assert_eq!(rect_a.intersection(&rect_a), Some(rect_a));
}

#[test]
fn touching_rects_meet_in_empty_rect() {
    let rect_a = Rect::new(0, 0, 4, 4);
    let rect_b = Rect::new(4, 1, 3, 2);
    assert_eq!(rect_a.intersection(&rect_b), Some(Rect::new(4, 1, 0, 2)));
    assert!(rect_a.intersects(&rect_b));
    assert!(!rect_a.intersects(&Rect::new(5, 0, 1, 1)));
}

#[test]
fn test_inset() {
    let rect = Rect::new(3, 5, 7, 9);
    let insets = EdgeInsets::new(1, 2, 3, 4);

    let new_rect = rect.inset(&insets);

    assert_eq!(new_rect.origin.x, 5);
    assert_eq!(new_rect.origin.y, 6);
    assert_eq!(new_rect.size.width, 1);
    assert_eq!(new_rect.size.height, 5);
}

#[test]
fn test_aspect_locked() {
    let rect = Rect::new(10, 10, -5, -7);
    let expected_result = Rect::new(10, 10, -5, -5);
    assert_eq!(rect.aspect_locked(), expected_result);
}

#[test]
fn normalize_and_dimensions() {
    let mut rect = Rect::new(10, 10, -5, -7);
    rect.normalize();
    assert_eq!(rect, Rect::new(5, 3, 5, 7));

    let mut rect = Rect::new(1, 2, 0, -3);
    rect.ensure_non_zero_dimension();
    assert_eq!(rect.size, Size { width: 1, height: 1 });

    let mut rect = Rect::new(1, 2, -4, 6);
    rect.ensure_positive_dimension();
    assert_eq!(rect.size, Size { width: 0, height: 6 });
}

#[test]
fn points_and_sizes() {
    let mut point = Point { x: 3, y: -4 };
    point.invert();
    assert_eq!(point, Point { x: -3, y: 4 });
    assert_eq!(point.to_array(), [-3, 4]);
    assert_eq!(Point::zero(), Point { x: 0, y: 0 });
    assert_eq!(Size { width: 2, height: 5 }.to_array(), [2, 5]);
    assert_eq!(Size::zero(), Size { width: 0, height: 0 });
    assert_eq!(Rect::zero(), Rect::new(0, 0, 0, 0));
    assert_eq!(EdgeInsets::all(2), EdgeInsets::new(2, 2, 2, 2));
    assert_eq!(EdgeInsets::zero(), EdgeInsets::new(0, 0, 0, 0));
}

#[test]
fn test_to_json_array() {
    let rect = Rect::new(3, 4, 10, 23);
    let json_string = rect.to_json_array().unwrap();

    let expected_string = "[[3,4],[10,23]]";
    assert_eq!(json_string, expected_string);
}

#[test]
fn point_and_size_json() {
    assert_eq!(Point { x: -3, y: 7 }.to_json_array().unwrap(), "[-3,7]");
    assert_eq!(Size { width: 12, height: 0 }.to_json_array().unwrap(), "[12,0]");
}
