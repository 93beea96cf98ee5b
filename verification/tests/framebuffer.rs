use chessmarkable::framebuffer::{clear, draw_line, draw_rect, dump_region, fill_rect, get_pixel, set_pixel, FrameGeometry};
use chessmarkable::hal::{color, mxcfb_rect, Point2, Vector2};

/// A 3 x 2 display whose rows hold 16 bytes: 12 for the pixels, 4 of padding.
fn geo() -> FrameGeometry {
    FrameGeometry { width: 3, height: 2, stride: 16 }
}

#[test]
fn a_pixel_is_written_and_read_back() {
    let mut buf = vec![0u8; 32];
    set_pixel(&mut buf, geo(), 1, 1, color::GRAY(7));
    assert_eq!(&buf[20..24], &[7, 7, 7, 0xFF]);
    assert_eq!(get_pixel(&buf, geo(), 1, 1), 7);
    // Off the display: nothing written, white read.
    set_pixel(&mut buf, geo(), 3, 0, color::GRAY(7));
    assert_eq!(get_pixel(&buf, geo(), 3, 0), 255);
    assert_eq!(buf.iter().filter(|b| **b != 0).count(), 4);
}

#[test]
fn filling_paints_the_clipped_rectangle_only() {
    let mut buf = vec![1u8; 32];
    fill_rect(&mut buf, geo(), Point2 { x: -1, y: 1 }, Vector2 { x: 3, y: 5 }, color::GRAY(9));
    // Row 1, columns 0 and 1 are painted.
    assert_eq!(&buf[16..24], &[9, 9, 9, 0xFF, 9, 9, 9, 0xFF]);
    // Column 2 of row 1, the padding and row 0 keep their bytes.
    assert!(buf[24..32].iter().all(|b| *b == 1));
    assert!(buf[0..16].iter().all(|b| *b == 1));
}

#[test]
fn a_border_is_four_bands() {
    let mut buf = vec![0u8; 32];
    draw_rect(&mut buf, geo(), Point2 { x: 0, y: 0 }, Vector2 { x: 3, y: 2 }, 1, color::WHITE());
    for (x, y) in [(0, 0), (1, 0), (2, 0), (0, 1), (1, 1), (2, 1)] {
        assert_eq!(get_pixel(&buf, geo(), x, y), 255);
    }
    assert_eq!(&buf[12..16], &[0, 0, 0, 0]);
}

#[test]
fn a_line_runs_from_end_to_end() {
    let mut buf = vec![0u8; 32];
    draw_line(&mut buf, geo(), Point2 { x: 0, y: 0 }, Point2 { x: 2, y: 1 }, 1, color::GRAY(5));
    assert_eq!(get_pixel(&buf, geo(), 0, 0), 5);
    assert_eq!(get_pixel(&buf, geo(), 2, 1), 5);
    let painted = (0..3).flat_map(|x| (0..2).map(move |y| (x, y))).filter(|(x, y)| get_pixel(&buf, geo(), *x, *y) == 5).count();
    assert_eq!(painted, 3);
}

#[test]
fn clearing_whitens_whole_groups_of_four() {
    let mut buf = vec![0u8; 10];
    clear(&mut buf);
    assert_eq!(&buf[..8], &[0xFF; 8]);
    assert_eq!(&buf[8..], &[0, 0]);
}

#[test]
fn a_region_reads_back_as_rgb() {
    let mut buf = vec![0u8; 32];
    set_pixel(&mut buf, geo(), 2, 0, color::GRAY(4));
    let data = dump_region(&buf, geo(), mxcfb_rect { top: 0, left: 2, width: 2, height: 1 }).unwrap();
    assert_eq!(data, vec![4, 4, 4, 255, 255, 255]);
}
