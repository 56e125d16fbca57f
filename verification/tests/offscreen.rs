use stm32wba_tftdisplay::mesh::dirty_rect::{DirtyRect, VIEW_PIXELS};
use stm32wba_tftdisplay::mesh::offscreen::{fill_all, Area, OffscreenBuffer, Pixel};

fn edges(rect: &DirtyRect) -> (usize, usize, usize, usize) {
    (rect.min_x, rect.min_y, rect.max_x, rect.max_y)
}

fn area(x: i32, y: i32, width: u32, height: u32) -> Area {
    Area { x, y, width, height }
}

#[test]
fn offscreen_size_is_the_view() {
    let mut pixels = [0u16; VIEW_PIXELS];
    let buffer = OffscreenBuffer { pixels: &mut pixels, dirty: DirtyRect::empty() };
    assert_eq!(buffer.size(), (320, 240));
}

#[test]
fn pixels_in_the_view_are_set_and_recorded() {
    let mut pixels = [0u16; VIEW_PIXELS];
    let mut buffer = OffscreenBuffer { pixels: &mut pixels, dirty: DirtyRect::empty() };
    buffer.draw_iter(&[
        Pixel { x: 3, y: 2, color: 7 },
        Pixel { x: 319, y: 239, color: 9 },
        Pixel { x: 3, y: 2, color: 8 },
    ]);
    assert_eq!(buffer.pixels[2 * 320 + 3], 8);
    assert_eq!(buffer.pixels[VIEW_PIXELS - 1], 9);
    assert_eq!(edges(&buffer.dirty), (3, 2, 319, 239));
    assert_eq!(pixels.iter().filter(|p| **p != 0).count(), 2);
}

#[test]
fn pixels_outside_the_view_are_ignored() {
    let mut pixels = [5u16; VIEW_PIXELS];
    let mut buffer = OffscreenBuffer { pixels: &mut pixels, dirty: DirtyRect::empty() };
    buffer.draw_iter(&[
        Pixel { x: -1, y: 0, color: 1 },
        Pixel { x: 0, y: -1, color: 1 },
        Pixel { x: 320, y: 0, color: 1 },
        Pixel { x: 0, y: 240, color: 1 },
        Pixel { x: i32::MIN, y: i32::MAX, color: 1 },
    ]);
    assert!(!buffer.dirty.is_valid());
    assert!(pixels.iter().all(|p| *p == 5));
}

#[test]
fn two_lists_draw_as_one() {
    let first = [Pixel { x: 1, y: 1, color: 1 }, Pixel { x: 2, y: 1, color: 2 }];
    let second = [Pixel { x: 2, y: 1, color: 3 }, Pixel { x: 9, y: 9, color: 4 }];
    let joined = [first[0], first[1], second[0], second[1]];
    let mut apart = [0u16; VIEW_PIXELS];
    let mut together = [0u16; VIEW_PIXELS];
    let mut a = OffscreenBuffer { pixels: &mut apart, dirty: DirtyRect::empty() };
    a.draw_iter(&first);
    a.draw_iter(&second);
    let mut b = OffscreenBuffer { pixels: &mut together, dirty: DirtyRect::empty() };
    b.draw_iter(&joined);
    assert_eq!(edges(&a.dirty), edges(&b.dirty));
    assert!(apart == together);
}

#[test]
fn fill_lays_colours_out_by_rows() {
    let mut pixels = [0u16; VIEW_PIXELS];
    let mut buffer = OffscreenBuffer { pixels: &mut pixels, dirty: DirtyRect::empty() };
    buffer.fill_contiguous(&area(10, 20, 3, 2), &[1, 2, 3, 4, 5, 6]);
    assert_eq!(edges(&buffer.dirty), (10, 20, 12, 21));
    assert_eq!(pixels[20 * 320 + 10..20 * 320 + 13], [1, 2, 3]);
    assert_eq!(pixels[21 * 320 + 10..21 * 320 + 13], [4, 5, 6]);
    assert_eq!(pixels.iter().filter(|p| **p != 0).count(), 6);
}

#[test]
fn fill_stops_when_the_colours_run_out() {
    let mut pixels = [0u16; VIEW_PIXELS];
    let mut buffer = OffscreenBuffer { pixels: &mut pixels, dirty: DirtyRect::empty() };
    buffer.fill_contiguous(&area(0, 0, 4, 4), &[1, 2, 3, 4, 5]);
    assert_eq!(edges(&buffer.dirty), (0, 0, 3, 3));
    assert_eq!(pixels[320], 5);
    assert_eq!(pixels[321], 0);
}

#[test]
fn fill_is_cut_at_the_edges_of_the_view() {
    let mut pixels = [0u16; VIEW_PIXELS];
    let mut buffer = OffscreenBuffer { pixels: &mut pixels, dirty: DirtyRect::empty() };
    // Two of four columns and one of two rows are left.
    buffer.fill_contiguous(&area(318, 239, 4, 2), &[1, 2, 3, 4, 5, 6, 7, 8]);
    assert_eq!(edges(&buffer.dirty), (318, 239, 319, 239));
    assert_eq!(pixels[VIEW_PIXELS - 2..], [1, 2]);
    let mut corner = [0u16; VIEW_PIXELS];
    let mut buffer = OffscreenBuffer { pixels: &mut corner, dirty: DirtyRect::empty() };
    buffer.fill_contiguous(&area(-1, -1, 3, 2), &[1, 2, 3, 4]);
    assert_eq!(edges(&buffer.dirty), (0, 0, 1, 0));
    assert_eq!(corner[..3], [1, 2, 0]);
}

#[test]
fn fill_of_nothing_records_nothing() {
    let mut pixels = [0u16; VIEW_PIXELS];
    let mut buffer = OffscreenBuffer { pixels: &mut pixels, dirty: DirtyRect::empty() };
    buffer.fill_contiguous(&area(0, 0, 0, 5), &[1, 2]);
    buffer.fill_contiguous(&area(400, 0, 5, 5), &[1, 2]);
    assert!(!buffer.dirty.is_valid());
    assert!(pixels.iter().all(|p| *p == 0));
}

#[test]
fn areas_that_cannot_be_filled_are_told() {
    assert!(area(0, 0, 320, 240).accepts(VIEW_PIXELS));
    assert!(area(-5, -5, 10, 10).accepts(100));
    assert!(area(400, 0, 5, 5).accepts(25));
    assert!(!area(i32::MAX, 0, 1, 1).accepts(1));
    // An area that ends left of the view has an edge that wraps round.
    assert!(area(-10, 0, 5, 1).accepts(0));
    assert!(area(-10, 0, 5, 1).accepts(VIEW_PIXELS));
    assert!(!area(-10, 0, 5, 1).accepts(VIEW_PIXELS + 1));
}

#[test]
fn clearing_sets_and_records_the_whole_view() {
    let mut pixels = [1u16; VIEW_PIXELS];
    let mut buffer = OffscreenBuffer { pixels: &mut pixels, dirty: DirtyRect::empty() };
    buffer.clear(0x1234);
    assert_eq!(edges(&buffer.dirty), (0, 0, 319, 239));
    assert!(pixels.iter().all(|p| *p == 0x1234));
    fill_all(&mut pixels, 3);
    assert!(pixels.iter().all(|p| *p == 3));
}

#[test]
fn areas_say_how_many_colours_they_take() {
    assert_eq!(area(10, 20, 3, 2).wanted(), Some(6));
    assert_eq!(area(-1, -1, 3, 2).wanted(), Some(2));
    assert_eq!(area(318, 239, 4, 2).wanted(), Some(2));
    assert_eq!(area(0, 0, 1000, 1000).wanted(), Some(VIEW_PIXELS));
    assert_eq!(area(0, 0, 0, 5).wanted(), Some(0));
    assert_eq!(area(400, 0, 5, 5).wanted(), Some(0));
    // An edge that wraps round takes more than there is room for.
    assert_eq!(area(-10, 0, 5, 1).wanted(), Some(VIEW_PIXELS + 1));
    assert_eq!(area(i32::MAX, 0, 1, 1).wanted(), None);
}
