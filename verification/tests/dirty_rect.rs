use stm32wba_tftdisplay::mesh::dirty_rect::{DirtyRect, VIEW_HEIGHT, VIEW_PIXELS, VIEW_WIDTH};

fn edges(rect: &DirtyRect) -> (usize, usize, usize, usize) {
    (rect.min_x, rect.min_y, rect.max_x, rect.max_y)
}

fn rect(min_x: usize, min_y: usize, max_x: usize, max_y: usize) -> DirtyRect {
    DirtyRect { min_x, min_y, max_x, max_y }
}

#[test]
fn view_has_320_by_240_pixels() {
    assert_eq!((VIEW_WIDTH, VIEW_HEIGHT, VIEW_PIXELS), (320, 240, 320 * 240));
}

#[test]
fn empty_box_is_not_valid() {
    let empty = DirtyRect::empty();
    assert_eq!(edges(&empty), (320, 240, 0, 0));
    assert!(!empty.is_valid());
}

#[test]
fn box_is_valid_where_it_starts_in_the_view() {
    assert!(rect(0, 0, 0, 0).is_valid());
    assert!(rect(319, 239, 319, 239).is_valid());
    assert!(rect(319, 239, 1000, 1000).is_valid());
    assert!(!rect(320, 0, 320, 0).is_valid());
    assert!(!rect(0, 240, 0, 240).is_valid());
    assert!(!rect(5, 0, 4, 0).is_valid());
    assert!(!rect(0, 5, 0, 4).is_valid());
}

#[test]
fn points_grow_the_tight_box() {
    let mut grown = DirtyRect::empty();
    grown.add_point(10, 20);
    assert_eq!(edges(&grown), (10, 20, 10, 20));
    grown.add_point(7, 100);
    grown.add_point(200, 3);
    grown.add_point(50, 50);
    assert_eq!(edges(&grown), (7, 3, 200, 100));
    assert!(grown.is_valid());
}

#[test]
fn merging_spans_both_boxes() {
    let mut a = rect(10, 20, 30, 40);
    let b = rect(25, 5, 60, 35);
    a.merge(&b);
    assert_eq!(edges(&a), (10, 5, 60, 40));
    let mut c = b;
    c.merge(&rect(10, 20, 30, 40));
    assert_eq!(edges(&c), edges(&a));
    let mut d = a;
    d.merge(&DirtyRect::empty());
    assert_eq!(edges(&d), edges(&a));
}

#[test]
fn sanitizing_moves_a_box_into_the_view() {
    let mut outside = rect(400, 300, 500, 600);
    outside.sanitize();
    assert_eq!(edges(&outside), (319, 239, 319, 239));
    let mut wide = rect(10, 20, 5000, 6000);
    wide.sanitize();
    assert_eq!(edges(&wide), (10, 20, 319, 239));
    let mut kept = rect(1, 2, 3, 4);
    kept.sanitize();
    assert_eq!(edges(&kept), (1, 2, 3, 4));
}

#[test]
fn sanitizing_the_empty_box_gives_one_pixel() {
    let mut empty = DirtyRect::empty();
    empty.sanitize();
    assert_eq!(edges(&empty), (319, 239, 319, 239));
    assert!(empty.is_valid());
    empty.sanitize();
    assert_eq!(edges(&empty), (319, 239, 319, 239));
}
