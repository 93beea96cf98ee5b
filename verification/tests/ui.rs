use chessmarkable::board_ui::{board_hitboxes, contains_pair, full_board_rect, BoardSelection, SquareSet};
use chessmarkable::hal::{color, mxcfb_rect};
use chessmarkable::square::Square;
use chessmarkable::text::split_lines;
use chessmarkable::touch::{
    RawTouch, TouchTracker, ABS_MT_POSITION_X, ABS_MT_POSITION_Y, ABS_MT_SLOT, ABS_MT_TRACKING_ID, EV_ABS,
    EV_SYN, SYN_REPORT,
};

fn sq(name: &str) -> Square {
    Square::from_str(name).unwrap()
}

#[test]
fn colors_and_rects() {
    assert_eq!(color::GRAY(7), color { r: 7, g: 7, b: 7 });
    assert_eq!(color::BLACK(), color { r: 0, g: 0, b: 0 });
    assert_eq!(color::WHITE().as_u8(), 255);
    assert_eq!(color::LIGHT_SQUARE(), color { r: 240, g: 217, b: 181 });
    assert_eq!(color::DARK_SQUARE().as_u8(), 138);
    let r = mxcfb_rect { top: 1, left: 2, width: 3, height: 4 };
    assert_eq!(r.size().x, 3);
    assert_eq!(r.size().y, 4);
    assert_eq!(r.top_left().x, 2);
    assert_eq!(r.top_left().y, 1);
}

#[test]
fn touch_reports_changed_slots() {
    let mut t = TouchTracker::new();
    assert!(t.on_event(EV_ABS, ABS_MT_TRACKING_ID, 7).is_empty());
    assert!(t.on_event(EV_ABS, ABS_MT_POSITION_X, 100).is_empty());
    assert!(t.on_event(EV_ABS, ABS_MT_POSITION_Y, 200).is_empty());
    let r = t.on_event(EV_SYN, SYN_REPORT, 0);
    assert_eq!(r, vec![RawTouch { x: 100, y: 200, tracking_id: 7, active: true }]);
    assert!(t.on_event(EV_SYN, SYN_REPORT, 0).is_empty());
    // A second finger in slot 3, then the first lifts.
    t.on_event(EV_ABS, ABS_MT_SLOT, 3);
    t.on_event(EV_ABS, ABS_MT_TRACKING_ID, 8);
    t.on_event(EV_ABS, ABS_MT_SLOT, 0);
    t.on_event(EV_ABS, ABS_MT_TRACKING_ID, -1);
    let r = t.on_event(EV_SYN, SYN_REPORT, 0);
    assert_eq!(
        r,
        vec![
            RawTouch { x: 100, y: 200, tracking_id: 7, active: false },
            RawTouch { x: 0, y: 0, tracking_id: 8, active: true },
        ]
    );
    // Out-of-range slots fall back to slot 0.
    t.on_event(EV_ABS, ABS_MT_SLOT, 12);
    t.on_event(EV_ABS, ABS_MT_POSITION_X, 5);
    let r = t.on_event(EV_SYN, SYN_REPORT, 0);
    assert_eq!(r, vec![RawTouch { x: 5, y: 200, tracking_id: 7, active: false }]);
    // Other events change nothing.
    assert!(t.on_event(1, 0, 0).is_empty());
    assert!(t.on_event(EV_SYN, 1, 0).is_empty());
}

#[test]
fn square_sets_hold_each_square_once() {
    let mut s = SquareSet::new();
    s.insert(sq("A1"));
    s.insert(sq("A1"));
    s.insert(sq("H8"));
    assert_eq!(s.len(), 2);
    assert!(s.contains(sq("H8")));
    assert!(!s.contains(sq("B2")));
    s.clear();
    assert_eq!(s.len(), 0);
}

#[test]
fn tap_to_select_then_tap_to_move() {
    let mut b = BoardSelection::new();
    b.possible_moves = vec![(sq("E2"), sq("E3")), (sq("E2"), sq("E4")), (sq("G1"), sq("F3"))];
    // Finger down and up on a piece selects it and shows its moves.
    b.finger_down_square = Some(sq("E2"));
    assert_eq!(b.on_release(sq("E2"), true), None);
    assert_eq!(b.selected_square, Some(sq("E2")));
    assert!(b.move_hints.contains(sq("E3")) && b.move_hints.contains(sq("E4")));
    assert_eq!(b.move_hints.len(), 2);
    assert!(b.redraw_squares.contains(sq("E2")));
    // Tapping a hinted square plays the move.
    assert_eq!(b.on_release(sq("E4"), false), Some((sq("E2"), sq("E4"))));
    assert!(b.redraw_squares.contains(sq("E4")));
}

#[test]
fn tapping_the_selected_square_cancels() {
    let mut b = BoardSelection::new();
    b.possible_moves = vec![(sq("E2"), sq("E4"))];
    b.finger_down_square = Some(sq("E2"));
    b.on_release(sq("E2"), true);
    assert_eq!(b.on_release(sq("E2"), true), None);
    assert_eq!(b.selected_square, None);
    assert_eq!(b.move_hints.len(), 0);
    assert!(b.redraw_squares.contains(sq("E4")));
}

#[test]
fn tapping_another_piece_switches_selection() {
    let mut b = BoardSelection::new();
    b.possible_moves = vec![(sq("E2"), sq("E4")), (sq("G1"), sq("F3"))];
    b.finger_down_square = Some(sq("E2"));
    b.on_release(sq("E2"), true);
    assert_eq!(b.on_release(sq("G1"), true), None);
    assert_eq!(b.selected_square, Some(sq("G1")));
    assert!(b.move_hints.contains(sq("F3")));
    assert!(!b.move_hints.contains(sq("E4")));
    // An empty square without a move clears the selection.
    assert_eq!(b.on_release(sq("A5"), false), None);
    assert_eq!(b.selected_square, None);
}

#[test]
fn dragging_plays_a_move() {
    let mut b = BoardSelection::new();
    b.finger_down_square = Some(sq("E2"));
    assert_eq!(b.on_release(sq("E4"), false), Some((sq("E2"), sq("E4"))));
    assert!(b.redraw_squares.contains(sq("E2")));
    // A tap on an empty square with nothing selected does nothing.
    let mut c = BoardSelection::new();
    assert_eq!(c.on_release(sq("D5"), false), None);
    assert_eq!(c.selected_square, None);
    assert!(contains_pair(&vec![(sq("A1"), sq("A2"))], sq("A1"), sq("A2")));
    assert!(!contains_pair(&vec![(sq("A1"), sq("A2"))], sq("A2"), sq("A1")));
}

#[test]
fn board_layout() {
    let boxes = board_hitboxes(1620, 2160);
    assert_eq!(boxes.len(), 8);
    // 1620 / 8 = 202 per square, centred: (1620 - 1616) / 2 = 2 on the left,
    // (2160 - 1616) / 2 = 272 on top; rank 8 at the top.
    assert_eq!(boxes[0][7], mxcfb_rect { left: 2, top: 272, width: 202, height: 202 });
    assert_eq!(boxes[7][0], mxcfb_rect { left: 2 + 7 * 202, top: 272 + 7 * 202, width: 202, height: 202 });
    assert_eq!(full_board_rect(&boxes), mxcfb_rect { left: 2, top: 272, width: 1616, height: 1616 });
}

#[test]
fn square_sets_list_their_squares_once() {
    let mut s = SquareSet::new();
    s.insert(sq("C3"));
    s.insert(sq("A1"));
    s.insert(sq("C3"));
    let mut v: Vec<u8> = s.to_vec().iter().map(|q| q.x() + 8 * q.y()).collect();
    v.sort();
    assert_eq!(v, vec![0, 18]);
}

#[test]
fn input_events_are_read_little_endian() {
    let mut buf = [0u8; chessmarkable::touch::INPUT_EVENT_SIZE];
    buf[16] = 3;
    buf[18] = 0x39;
    buf[20] = 0xff;
    buf[21] = 0xff;
    buf[22] = 0xff;
    buf[23] = 0xff;
    assert_eq!(chessmarkable::touch::decode_event(&buf), (3, 0x39, -1));
    buf[20] = 0x10;
    buf[21] = 0x02;
    buf[22] = 0;
    buf[23] = 0;
    buf[17] = 1;
    assert_eq!(chessmarkable::touch::decode_event(&buf), (259, 0x39, 0x210));
}

#[test]
fn text_is_cut_into_lines() {
    assert_eq!(split_lines("abcdefg", 3, 5), vec!["abc", "def", "g"]);
    assert_eq!(split_lines("abcdefg", 3, 2), vec!["abc", "def"]);
    assert_eq!(split_lines("abcdef", 3, 5), vec!["abc", "def"]);
    assert_eq!(split_lines("ab", 3, 5), vec!["ab"]);
    assert!(split_lines("", 3, 5).is_empty());
    assert!(split_lines("abc", 3, 0).is_empty());
}
