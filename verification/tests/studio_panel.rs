use stm32wba_tftdisplay::studio::panel::{
    clear_display, init_display, paint_rect_dma, set_window, write_command, BusOp, RectJob,
    MAX_RECT_BYTES,
};

fn show(ops: &[BusOp]) -> Vec<String> {
    ops.iter()
        .map(|op| match op {
            BusOp::CsLow => "cs0".to_string(),
            BusOp::CsHigh => "cs1".to_string(),
            BusOp::DcLow => "dc0".to_string(),
            BusOp::DcHigh => "dc1".to_string(),
            BusOp::ResetLow => "rst0".to_string(),
            BusOp::ResetHigh => "rst1".to_string(),
            BusOp::DelayMicros(us) => format!("wait {}", us),
            BusOp::Write(bytes) => format!("{:02x?}", bytes),
            BusOp::WriteZeros(n) => format!("zeros {}", n),
        })
        .collect()
}

fn job(x: u16, y: u16, w: u16, h: u16, len: usize) -> RectJob {
    let mut pixels_be = [0u8; MAX_RECT_BYTES];
    for (i, b) in pixels_be.iter_mut().enumerate() {
        *b = i as u8;
    }
    RectJob { x, y, w, h, len, pixels_be }
}

#[test]
fn command_without_arguments() {
    assert_eq!(show(&write_command(0x2C, &[])), vec!["cs0", "dc0", "[2c]", "cs1"]);
}

#[test]
fn command_with_arguments() {
    assert_eq!(
        show(&write_command(0x36, &[0xE8, 1])),
        vec!["cs0", "dc0", "[36]", "dc1", "[e8, 01]", "cs1"]
    );
}

#[test]
fn window_names_its_corners() {
    assert_eq!(
        show(&set_window(0x123, 4, 0x101, 6)),
        vec![
            "cs0", "dc0", "[2a]", "dc1", "[01, 23, 02, 23]", "cs1", "cs0", "dc0", "[2b]", "dc1",
            "[00, 04, 00, 09]", "cs1"
        ]
    );
}

#[test]
fn panel_is_set_up() {
    assert_eq!(
        show(&init_display()),
        vec![
            "rst0", "wait 10", "rst1", "wait 5000", "cs0", "dc0", "[36]", "dc1", "[e8]", "cs1",
            "cs0", "dc0", "[b4]", "dc1", "[00]", "cs1", "cs0", "dc0", "[20]", "cs1", "cs0", "dc0",
            "[3a]", "dc1", "[55]", "cs1", "cs0", "dc0", "[13]", "cs1", "wait 120000", "cs0", "dc0",
            "[11]", "cs1", "wait 140000", "cs0", "dc0", "[29]", "cs1"
        ]
    );
}

#[test]
fn panel_is_cleared_with_as_many_bytes_as_it_has() {
    let ops = show(&clear_display());
    assert_eq!(ops[4], "[00, 00, 01, 3f]");
    assert_eq!(ops[10], "[00, 00, 00, ef]");
    assert_eq!(ops.iter().filter(|op| *op == "zeros 3200").count(), 48);
    assert_eq!(48 * 3200, 320 * 240 * 2);
    assert_eq!(ops.last().unwrap(), "cs1");
}

#[test]
fn rectangle_is_painted() {
    let ops = show(&paint_rect_dma(&job(10, 20, 2, 1, 4)));
    assert_eq!(
        ops,
        vec![
            "cs0", "dc0", "[2a]", "dc1", "[00, 0a, 00, 0b]", "cs1", "cs0", "dc0", "[2b]", "dc1",
            "[00, 14, 00, 14]", "cs1", "cs0", "dc0", "[2c]", "cs1", "cs0", "dc1",
            "[00, 01, 02, 03]", "cs1"
        ]
    );
    assert!(!paint_rect_dma(&job(280, 200, 40, 40, 3200)).is_empty());
}

#[test]
fn rectangles_that_do_not_fit_are_not_painted() {
    for stray in [
        job(0, 0, 0, 1, 0),
        job(0, 0, 1, 0, 0),
        job(319, 0, 2, 1, 4),
        job(0, 239, 1, 2, 4),
        job(u16::MAX, 0, 2, 1, 4),
        job(0, u16::MAX, 1, 2, 4),
        job(0, 0, 2, 1, 2),
        job(0, 0, 2, 1, 6),
    ] {
        assert!(paint_rect_dma(&stray).is_empty());
    }
}

#[test]
fn panel_is_released_after_each_list() {
    for ops in [
        write_command(1, &[2]),
        set_window(0, 0, 1, 1),
        init_display(),
        clear_display(),
        paint_rect_dma(&job(0, 0, 2, 2, 8)),
    ] {
        let mut selected = false;
        for op in &ops {
            match op {
                BusOp::CsLow => selected = true,
                BusOp::CsHigh => selected = false,
                BusOp::Write(_) | BusOp::WriteZeros(_) => assert!(selected),
                _ => {}
            }
        }
        assert!(!selected);
    }
}
