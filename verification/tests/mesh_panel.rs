use stm32wba_tftdisplay::mesh::dirty_rect::{DirtyRect, VIEW_PIXELS};
use stm32wba_tftdisplay::mesh::offscreen::{Area, OffscreenBuffer};
use stm32wba_tftdisplay::mesh::panel::{blit, clear_region, read_region, MeshBoxes, LAST_MESH_ROW};

fn rect(min_x: usize, min_y: usize, max_x: usize, max_y: usize) -> DirtyRect {
    DirtyRect { min_x, min_y, max_x, max_y }
}

fn edges(rect: &DirtyRect) -> (usize, usize, usize, usize) {
    (rect.min_x, rect.min_y, rect.max_x, rect.max_y)
}

fn numbered() -> [u16; VIEW_PIXELS] {
    let mut pixels = [0u16; VIEW_PIXELS];
    for (i, p) in pixels.iter_mut().enumerate() {
        *p = (i % 60000) as u16;
    }
    pixels
}

#[test]
fn clearing_a_box_leaves_the_statistics_alone() {
    let mut buffer = [1u16; VIEW_PIXELS];
    clear_region(&mut buffer, &rect(5, 216, 6, 230), 0);
    for y in 0..240 {
        for x in 0..320 {
            let inside = (5..=6).contains(&x) && (216..=LAST_MESH_ROW).contains(&y);
            assert_eq!(buffer[y * 320 + x], if inside { 0 } else { 1 });
        }
    }
}

#[test]
fn clearing_the_empty_box_changes_nothing() {
    let mut buffer = [1u16; VIEW_PIXELS];
    clear_region(&mut buffer, &DirtyRect::empty(), 0);
    clear_region(&mut buffer, &rect(0, 219, 319, 239), 0);
    assert!(buffer.iter().all(|p| *p == 1));
}

#[test]
fn region_is_read_by_rows() {
    let buffer = numbered();
    assert_eq!(read_region(&buffer, &rect(3, 1, 5, 9), 2), vec![323, 324, 325, 643, 644, 645]);
    assert_eq!(read_region(&buffer, &rect(3, 1, 5, 9), 0), Vec::<u16>::new());
}

#[test]
fn blit_is_cut_at_the_last_mesh_row() {
    let buffer = numbered();
    let sent = blit(&buffer, &rect(10, 217, 11, 239)).unwrap();
    let a = sent.area;
    assert_eq!((a.x, a.y, a.width, a.height), (10, 217, 2, 2));
    let at = |x: usize, y: usize| ((y * 320 + x) % 60000) as u16;
    assert_eq!(sent.pixels, vec![at(10, 217), at(11, 217), at(10, 218), at(11, 218)]);
    assert!(blit(&buffer, &rect(10, 219, 11, 239)).is_none());
    assert!(blit(&buffer, &DirtyRect::empty()).is_none());
}

#[test]
fn boxes_follow_the_meshes() {
    let mut boxes = MeshBoxes::new();
    assert!(!boxes.to_clear().is_valid());
    let (cube, octa) = boxes.advance(rect(10, 10, 20, 20), rect(100, 50, 120, 70));
    assert_eq!(edges(&cube), (10, 10, 20, 20));
    assert_eq!(edges(&octa), (100, 50, 120, 70));
    assert_eq!(edges(&boxes.to_clear()), (10, 10, 120, 70));
    // The box that is sent also holds the place that the mesh has left.
    let (cube, octa) = boxes.advance(rect(15, 30, 25, 40), DirtyRect::empty());
    assert_eq!(edges(&cube), (10, 10, 25, 40));
    assert_eq!(edges(&octa), (100, 50, 319, 239));
    assert_eq!(edges(&boxes.cube), (15, 30, 25, 40));
    assert_eq!(edges(&boxes.octa), (319, 239, 319, 239));
}

#[test]
fn panel_shows_the_frame_after_each_step() {
    let background = 0x11u16;
    let mut frame = [background; VIEW_PIXELS];
    let mut panel = [background; VIEW_PIXELS];
    let mut boxes = MeshBoxes::new();
    for step in 0..4i32 {
        let cleared = boxes.to_clear();
        clear_region(&mut frame, &cleared, background);
        let mut drawn = [DirtyRect::empty(), DirtyRect::empty()];
        for (k, dirty) in drawn.iter_mut().enumerate() {
            let mut buffer = OffscreenBuffer { pixels: &mut frame, dirty: DirtyRect::empty() };
            let area = Area { x: 20 * step + 150 * k as i32, y: 190 + 5 * step, width: 12, height: 9 };
            buffer.fill_contiguous(&area, &[0x7000 + step as u16; 108]);
            *dirty = buffer.dirty;
        }
        let (cube, octa) = boxes.advance(drawn[0], drawn[1]);
        for part in [cube, octa] {
            if let Some(sent) = blit(&frame, &part) {
                let a = sent.area;
                for (i, color) in sent.pixels.iter().enumerate() {
                    let x = a.x as usize + i % a.width as usize;
                    let y = a.y as usize + i / a.width as usize;
                    panel[y * 320 + x] = *color;
                }
            }
        }
        let rows = (LAST_MESH_ROW + 1) * 320;
        assert!(frame[..rows] == panel[..rows]);
    }
}

#[test]
fn filled_area_is_read_back() {
    let mut frame = [0u16; VIEW_PIXELS];
    let colors = [1u16, 2, 3, 4, 5, 6];
    let mut buffer = OffscreenBuffer { pixels: &mut frame, dirty: DirtyRect::empty() };
    buffer.fill_contiguous(&Area { x: 7, y: 8, width: 2, height: 3 }, &colors);
    let dirty = buffer.dirty;
    assert_eq!(read_region(&frame, &dirty, 3), colors.to_vec());
}
