use chessmarkable::engine::{ChessMove, Role};
use chessmarkable::search::{alpha_beta, best_move, evaluate, material_value, piece_square_value};
use chessmarkable::square::Square;

const START: &str = "rnbqkbnr/pppppppp/8/8/8/8/PPPPPPPP/RNBQKBNR w KQkq - 0 1";

fn sq(name: &str) -> Square {
    Square::from_str(name).unwrap()
}

#[test]
fn material_values() {
    assert_eq!(material_value(Role::Pawn), 100);
    assert_eq!(material_value(Role::Knight), 320);
    assert_eq!(material_value(Role::Bishop), 330);
    assert_eq!(material_value(Role::Rook), 500);
    assert_eq!(material_value(Role::Queen), 900);
    assert_eq!(material_value(Role::King), 20000);
}

#[test]
fn piece_square_values_flip_for_white() {
    // A white pawn on e4 reads row 4 of the table: 20.
    assert_eq!(piece_square_value(Role::Pawn, sq("E4"), true), 20);
    // A black pawn on e4 reads row 3: 25.
    assert_eq!(piece_square_value(Role::Pawn, sq("E4"), false), 25);
    assert_eq!(piece_square_value(Role::Knight, sq("A1"), true), -50);
    assert_eq!(piece_square_value(Role::Rook, sq("D1"), true), 5);
    assert_eq!(piece_square_value(Role::Queen, sq("D1"), true), 0);
    assert_eq!(piece_square_value(Role::King, sq("E1"), false), 0);
}

#[test]
fn evaluation_of_known_positions() {
    // Symmetric material, twenty white moves.
    assert_eq!(evaluate(START), 40);
    // Black to move after 1. e4: white pawn e4 (100 + 20) replaces e2
    // (100 - 20); twenty black moves.
    assert_eq!(evaluate("rnbqkbnr/pppppppp/8/8/4P3/8/PPPP1PPP/RNBQKBNR b KQkq - 0 1"), 40 - 40);
    // Bare kings, white to move: five king moves.
    assert_eq!(evaluate("4k3/8/8/8/8/8/8/4K3 w - - 0 1"), 10);
}

#[test]
fn search_scores_mate_and_draws() {
    // Black is checkmated: from white's side of the search the value is a win.
    let mated = "rnb1kbnr/pppp1ppp/8/4p3/6Pq/5P2/PPPPP2P/RNBQKBNR w KQkq - 1 3";
    assert_eq!(alpha_beta(mated, 3, i32::MIN, i32::MAX, true), -100000);
    assert_eq!(alpha_beta(mated, 3, i32::MIN, i32::MAX, false), 100000);
    // Bare kings: insufficient material.
    assert_eq!(alpha_beta("4k3/8/8/8/8/8/8/4K3 w - - 0 1", 2, i32::MIN, i32::MAX, true), 0);
    // Depth zero is the static evaluation.
    assert_eq!(alpha_beta(START, 0, i32::MIN, i32::MAX, true), 40);
}

#[test]
fn best_move_finds_mate_in_one() {
    let fen = "6k1/5ppp/8/8/8/8/5PPP/3R2K1 w - - 0 1";
    let m = best_move(fen, 1).unwrap();
    assert_eq!(
        m,
        ChessMove::Normal { role: Role::Rook, from: sq("D1"), capture: None, to: sq("D8"), promotion: None }
    );
    let m2 = best_move(fen, 2).unwrap();
    assert_eq!(m2, m);
}

#[test]
fn best_move_for_black_minimizes() {
    // Black mates with Qh4.
    let fen = "rnb1kbnr/pppp1ppp/8/4p3/6Pq/5P2/PPPPP2P/RNBQKBNR w KQkq - 1 3";
    assert_eq!(best_move(fen, 2), None);
    let before = "rnbqkbnr/pppp1ppp/8/4p3/6P1/5P2/PPPPP2P/RNBQKBNR b KQkq - 0 2";
    let m = best_move(before, 1).unwrap();
    assert_eq!(
        m,
        ChessMove::Normal { role: Role::Queen, from: sq("D8"), capture: None, to: sq("H4"), promotion: None }
    );
}

#[test]
fn best_move_from_start_is_legal() {
    let m = best_move(START, 2).unwrap();
    assert!(chessmarkable::game::ChessGame::default().possible_moves().contains(&m));
}

#[test]
fn alpha_beta_windows_bound_the_value() {
    let fen = "r1bqkbnr/pppp1ppp/2n5/4p3/4P3/5N2/PPPP1PPP/RNBQKB1R w KQkq - 2 3";
    let exact = alpha_beta(fen, 2, i32::MIN, i32::MAX, true);
    // A window entirely below the value fails high with a bound at least beta.
    let high = alpha_beta(fen, 2, exact - 1000, exact - 500, true);
    assert!(high >= exact - 500 && high <= exact);
    // A window entirely above fails low with a bound at most alpha.
    let low = alpha_beta(fen, 2, exact + 500, exact + 1000, true);
    assert!(low <= exact + 500 && low >= exact);
    // A window around the value gives it exactly.
    assert_eq!(alpha_beta(fen, 2, exact - 1, exact + 1, true), exact);
}

#[test]
fn an_empty_window_follows_the_first_move() {
    let mut g = chessmarkable::game::ChessGame::default();
    let first = g.possible_moves()[0];
    let from = chessmarkable::engine::move_src(&first).unwrap();
    let to = chessmarkable::engine::move_dst(&first);
    assert_eq!(g.move_piece(from, to, None), Ok(()));
    let after = g.fen();
    let leaf = alpha_beta(&after, 0, i32::MIN, i32::MAX, false);
    assert_eq!(alpha_beta(START, 1, 7, 7, true), leaf);
    assert_eq!(alpha_beta(START, 1, 50, -50, true), leaf);
}

#[test]
fn the_mirrored_position_evaluates_to_the_opposite() {
    let black_start = "rnbqkbnr/pppppppp/8/8/8/8/PPPPPPPP/RNBQKBNR b KQkq - 0 1";
    assert_eq!(evaluate(START), 40);
    assert_eq!(evaluate(black_start), -40);
    let a = "4k3/8/8/8/8/8/4P3/4K3 w - - 0 1";
    let b = "4k3/4p3/8/8/8/8/8/4K3 b - - 0 1";
    assert_eq!(evaluate(a), -evaluate(b));
    assert_ne!(evaluate(a), 0);
}
