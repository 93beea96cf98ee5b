use chessmarkable::board_ui::board_hitboxes;
use chessmarkable::engine::{Piece, Role};
use chessmarkable::hal::{mxcfb_rect, Finger, GPIOEvent, InputEvent, MultitouchEvent, PhysicalButton, Point2};
use chessmarkable::player::Player;
use chessmarkable::replay::{GameTermination, PgnGameMove, PgnMove, ReplayInfo};
use chessmarkable::replay_scene::{hit_square, is_hitting, right_of, ReplayScene, SceneButtons};
use chessmarkable::square::Square;

const W: u32 = 1620;
const H: u32 = 2160;

fn sq(name: &str) -> Square {
    Square::from_str(name).unwrap()
}

/// The middle of a square on a 1620 x 2160 display: squares are 202
/// pixels wide, the board starts at (2, 272) with rank 8 on top.
fn centre(name: &str) -> Point2<u16> {
    let s = sq(name);
    let x = s.x() as u32;
    let y = s.y() as u32;
    Point2 { x: (2 + 202 * x + 101) as u16, y: (272 + 202 * (7 - y) + 101) as u16 }
}

fn press(scene: &mut ReplayScene, pos: Point2<u16>) {
    let finger = Finger { pos, tracking_id: 1 };
    scene.on_input(InputEvent::MultitouchEvent { event: MultitouchEvent::Press { finger } });
}

fn release(scene: &mut ReplayScene, pos: Point2<u16>) {
    let finger = Finger { pos, tracking_id: 1 };
    scene.on_input(InputEvent::MultitouchEvent { event: MultitouchEvent::Release { finger } });
}

fn tap(scene: &mut ReplayScene, name: &str) {
    press(scene, centre(name));
    release(scene, centre(name));
}

fn basic(piece: Role, to: &str) -> PgnGameMove {
    PgnGameMove { mv: PgnMove::BasicMove { piece, to: sq(to), from_file: None, from_rank: None }, comment: None }
}

fn e4_e5() -> ReplayInfo {
    let mut first = basic(Role::Pawn, "E4");
    first.comment = Some("King's pawn.".to_string());
    ReplayInfo { tags: vec![], moves: vec![first, basic(Role::Pawn, "E5")], termination: GameTermination::DrawnGame }
}

fn rect(left: u32, top: u32, width: u32, height: u32) -> mxcfb_rect {
    mxcfb_rect { left, top, width, height }
}

fn buttons() -> SceneButtons {
    SceneButtons {
        back: rect(30, 1910, 100, 80),
        undo: rect(150, 1910, 100, 80),
        reset: rect(270, 1910, 100, 80),
        next: rect(390, 1910, 100, 80),
        full_refresh: rect(510, 1910, 100, 80),
    }
}

#[test]
fn hit_boxes_are_half_open() {
    let r = rect(10, 20, 5, 5);
    assert!(is_hitting(Point2 { x: 10, y: 20 }, r));
    assert!(is_hitting(Point2 { x: 14, y: 24 }, r));
    assert!(!is_hitting(Point2 { x: 15, y: 24 }, r));
    assert!(!is_hitting(Point2 { x: 14, y: 25 }, r));
    assert!(!is_hitting(Point2 { x: 9, y: 20 }, r));
}

#[test]
fn a_touch_lands_on_one_square() {
    let boxes = board_hitboxes(W, H);
    assert_eq!(hit_square(&boxes, W, H, Point2 { x: 2, y: 272 }), Some(sq("A8")));
    // The corner shared by A8 and B8 belongs to B8 only.
    assert_eq!(hit_square(&boxes, W, H, Point2 { x: 204, y: 272 }), Some(sq("B8")));
    assert_eq!(hit_square(&boxes, W, H, Point2 { x: 1617, y: 1887 }), Some(sq("H1")));
    assert_eq!(hit_square(&boxes, W, H, Point2 { x: 1618, y: 1887 }), None);
    assert_eq!(hit_square(&boxes, W, H, Point2 { x: 1, y: 500 }), None);
    assert_eq!(hit_square(&boxes, W, H, centre("E2")), Some(sq("E2")));
}

#[test]
fn buttons_are_placed_side_by_side() {
    assert_eq!(right_of(rect(30, 1910, 100, 80), 20), 150);
}

#[test]
fn first_frame_draws_the_whole_starting_board() {
    let mut scene = ReplayScene::new(e4_e5(), W, H);
    assert!(scene.is_first_draw());
    assert_eq!(scene.square_size(), 202);
    assert_eq!(scene.piece_padding(), 20);
    assert_eq!(scene.overlay_padding(), 10);
    assert!(!scene.needs_board_redraw());
    scene.finish_first_frame(buttons());
    assert!(!scene.is_first_draw());
    assert!(scene.needs_board_redraw());
    let (paints, regions) = scene.draw_board(true);
    assert_eq!(paints.len(), 64);
    let mut indices: Vec<u8> = paints.iter().map(|p| p.square.0).collect();
    indices.sort();
    indices.dedup();
    assert_eq!(indices.len(), 64);
    assert_eq!(paints[0].square, sq("A1"));
    assert_eq!(paints[0].bounds, rect(2, 1686, 202, 202));
    assert!(paints[0].light);
    assert_eq!(paints[0].piece, Some(Piece { color: Player::White, role: Role::Rook }));
    assert_eq!(paints[1].square, sq("A2"));
    assert!(!paints[1].light);
    assert_eq!(paints[63].square, sq("H8"));
    assert_eq!(paints[63].piece, Some(Piece { color: Player::Black, role: Role::Rook }));
    assert!(paints.iter().all(|p| !p.selected && !p.move_hint && !p.moved_from && !p.moved_to));
    assert_eq!(regions, vec![rect(2, 272, 1616, 1616)]);
    assert!(!scene.needs_board_redraw());
}

#[test]
fn dragging_a_piece_plays_a_move_of_ones_own() {
    let mut scene = ReplayScene::new(e4_e5(), W, H);
    press(&mut scene, centre("E2"));
    release(&mut scene, centre("E4"));
    assert_eq!(scene.total_moves(), 1);
    let (paints, regions) = scene.draw_board(true);
    assert_eq!(paints.len(), 2);
    assert_eq!(paints[0].square, sq("E2"));
    assert!(paints[0].moved_from);
    assert_eq!(paints[0].piece, None);
    assert_eq!(paints[1].square, sq("E4"));
    assert!(paints[1].moved_to);
    assert_eq!(paints[1].piece, Some(Piece { color: Player::White, role: Role::Pawn }));
    assert_eq!(regions, vec![paints[0].bounds, paints[1].bounds]);
    // Merged, the whole board is refreshed.
    press(&mut scene, centre("D7"));
    release(&mut scene, centre("D5"));
    let (paints, regions) = scene.draw_board(false);
    assert_eq!(paints.len(), 4);
    assert_eq!(regions, vec![rect(2, 272, 1616, 1616)]);
}

#[test]
fn tapping_a_piece_selects_it_and_hints_its_moves() {
    let mut scene = ReplayScene::new(e4_e5(), W, H);
    press(&mut scene, centre("E2"));
    release(&mut scene, centre("E4"));
    scene.draw_board(true);
    tap(&mut scene, "E7");
    let (paints, _) = scene.draw_board(true);
    let names: Vec<Square> = paints.iter().map(|p| p.square).collect();
    assert_eq!(names, vec![sq("E5"), sq("E6"), sq("E7")]);
    assert!(paints[0].move_hint && paints[1].move_hint);
    assert!(paints[2].selected);
    // A second tap on the same square cancels the selection.
    tap(&mut scene, "E7");
    let (paints, _) = scene.draw_board(true);
    assert_eq!(paints.len(), 3);
    assert!(paints.iter().all(|p| !p.selected && !p.move_hint));
    // Select again, then tap a hinted square: the move is played.
    tap(&mut scene, "E7");
    scene.draw_board(true);
    tap(&mut scene, "E5");
    assert_eq!(scene.total_moves(), 2);
}

#[test]
fn tapping_an_empty_square_selects_nothing() {
    let mut scene = ReplayScene::new(e4_e5(), W, H);
    tap(&mut scene, "E4");
    assert!(!scene.needs_board_redraw());
    assert_eq!(scene.total_moves(), 0);
}

#[test]
fn buttons_step_through_the_replay() {
    let mut scene = ReplayScene::new(e4_e5(), W, H);
    scene.finish_first_frame(buttons());
    scene.draw_board(false);
    let next = Point2 { x: 400, y: 1950 };
    press(&mut scene, next);
    assert_eq!(scene.total_moves(), 1);
    assert_eq!(scene.comment_to_clear(), None);
    assert_eq!(scene.take_comment(), Some("King's pawn.".to_string()));
    assert_eq!(scene.take_comment(), None);
    scene.comment_drawn(rect(0, 40, 1620, 50));
    press(&mut scene, next);
    assert_eq!(scene.total_moves(), 2);
    assert_eq!(scene.comment_to_clear(), Some(rect(0, 40, 1620, 50)));
    assert_eq!(scene.comment_to_clear(), None);
    assert_eq!(scene.take_comment(), Some(" Game Over: Draw".to_string()));
    let (paints, _) = scene.draw_board(true);
    assert!(paints.iter().any(|p| p.square == sq("E7") && p.moved_from));
    assert!(paints.iter().any(|p| p.square == sq("E5") && p.moved_to));
    // Undo, then reset.
    press(&mut scene, Point2 { x: 160, y: 1950 });
    assert_eq!(scene.total_moves(), 1);
    press(&mut scene, Point2 { x: 280, y: 1950 });
    assert_eq!(scene.total_moves(), 0);
    // Refresh and back.
    assert!(!scene.take_refresh_request());
    press(&mut scene, Point2 { x: 520, y: 1950 });
    assert!(scene.take_refresh_request());
    assert!(!scene.take_refresh_request());
    assert!(!scene.return_to_main_menu);
    press(&mut scene, Point2 { x: 40, y: 1950 });
    assert!(scene.return_to_main_menu);
}

#[test]
fn buttons_do_nothing_before_they_are_drawn() {
    let mut scene = ReplayScene::new(e4_e5(), W, H);
    press(&mut scene, Point2 { x: 400, y: 1950 });
    assert_eq!(scene.total_moves(), 0);
    assert!(!scene.return_to_main_menu);
}

#[test]
fn other_input_is_ignored() {
    let mut scene = ReplayScene::new(e4_e5(), W, H);
    scene.on_input(InputEvent::GPIO { event: GPIOEvent::Press { button: PhysicalButton::POWER } });
    let finger = Finger { pos: centre("E2"), tracking_id: 1 };
    scene.on_input(InputEvent::MultitouchEvent { event: MultitouchEvent::Move { finger } });
    release(&mut scene, centre("E4"));
    // With no finger down before, the release on an empty square does nothing.
    assert_eq!(scene.total_moves(), 0);
    assert!(!scene.needs_board_redraw());
}

#[test]
fn a_scene_needs_a_readable_fen_tag() {
    let bad = ReplayInfo {
        tags: vec![("FEN".to_string(), "no position".to_string())],
        moves: vec![],
        termination: GameTermination::Unknown,
    };
    assert!(ReplayScene::try_new(bad, W, H).is_none());
    let scene = ReplayScene::try_new(e4_e5(), W, H).unwrap();
    assert!(scene.is_first_draw());
    assert_eq!(scene.total_moves(), 0);
}

#[test]
fn only_moves_count_as_playing() {
    let mut scene = ReplayScene::new(e4_e5(), W, H);
    scene.finish_first_frame(buttons());
    let at = |pos: Point2<u16>, down: bool| {
        let finger = Finger { pos, tracking_id: 1 };
        let event = if down { MultitouchEvent::Press { finger } } else { MultitouchEvent::Release { finger } };
        InputEvent::MultitouchEvent { event }
    };
    assert!(scene.plays_a_move(at(Point2 { x: 400, y: 1950 }, true)));
    assert!(!scene.plays_a_move(at(Point2 { x: 160, y: 1950 }, true)));
    assert!(!scene.plays_a_move(at(Point2 { x: 40, y: 1950 }, true)));
    assert!(!scene.plays_a_move(at(centre("E2"), false)));
    press(&mut scene, centre("E2"));
    assert!(scene.plays_a_move(at(centre("E4"), false)));
    assert!(!scene.plays_a_move(at(centre("E2"), false)));
}
