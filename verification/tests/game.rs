use chessmarkable::engine::{
    castle_king_target, move_dst, move_src, piece_to_char, ChessMove, FenError, Piece, Role,
};
use chessmarkable::game::{select_move, select_piece_move, ChessGame, ChessOutcome, GameError};
use chessmarkable::player::Player;
use chessmarkable::square::Square;

const START: &str = "rnbqkbnr/pppppppp/8/8/8/8/PPPPPPPP/RNBQKBNR w KQkq - 0 1";

fn sq(name: &str) -> Square {
    Square::from_str(name).unwrap()
}

#[test]
fn default_game_is_the_starting_position() {
    let g = ChessGame::default();
    assert_eq!(g.fen(), START);
    assert_eq!(g.position(), START);
    assert_eq!(g.turn(), Player::White);
    assert_eq!(g.total_moves(), 0);
    assert_eq!(g.total_undoable_moves(), 0);
    assert_eq!(g.outcome(), None);
    assert_eq!(g.possible_moves().len(), 20);
}

#[test]
fn from_fen_reports_bad_input() {
    let e = ChessGame::from_fen("not a fen").err().unwrap();
    assert!(matches!(&e, GameError::Fen { error: FenError::InvalidFen, .. }));
    assert_eq!(e.message(), "Failed to parse FEN string: InvalidBoard");
    // Two white kings: valid syntax, impossible position.
    let e = ChessGame::from_fen("4k3/8/8/8/8/8/8/K3K3 w - - 0 1").err().unwrap();
    assert!(matches!(&e, GameError::Fen { error: FenError::InvalidPosition, .. }));
    assert!(e.message().starts_with("Failed to create game board from FEN. Reason: "));
    assert!(e.message().len() > "Failed to create game board from FEN. Reason: ".len());
    let g = ChessGame::from_fen("4k3/8/8/8/8/8/8/4K3 b - - 3 40").unwrap();
    assert_eq!(g.turn(), Player::Black);
    assert_eq!(g.total_moves(), 0);
    assert_eq!(g.fen(), "4k3/8/8/8/8/8/8/4K3 b - - 3 40");
    // A FEN without the move counters is written back with them.
    let g = ChessGame::from_fen("4k3/8/8/8/8/8/8/4K3 w -").unwrap();
    assert_eq!(g.fen(), "4k3/8/8/8/8/8/8/4K3 w - - 0 1");
}

#[test]
fn move_then_undo_restores_the_game() {
    let mut g = ChessGame::default();
    assert_eq!(g.move_piece(sq("E2"), sq("E4"), None), Ok(()));
    assert_eq!(g.fen(), "rnbqkbnr/pppppppp/8/8/4P3/8/PPPP1PPP/RNBQKBNR b KQkq - 0 1");
    assert_eq!(g.turn(), Player::Black);
    assert_eq!(g.total_moves(), 1);
    assert_eq!(g.total_undoable_moves(), 1);
    assert_eq!(g.undo(1), Ok(()));
    assert_eq!(g.fen(), START);
    assert_eq!(g.total_moves(), 0);
    assert_eq!(g.outcome(), None);
}

#[test]
fn undo_more_than_played_is_refused() {
    let mut g = ChessGame::default();
    g.move_piece(sq("E2"), sq("E4"), None).unwrap();
    let e = g.undo(2).unwrap_err();
    assert_eq!(e, GameError::CannotUndo { requested: 2, available: 1 });
    assert_eq!(e.message(), "Can't undo 2 moves. Only 1 moves available to undo.");
    assert_eq!(g.total_moves(), 1);
    assert_eq!(g.undo(0), Ok(()));
    assert_eq!(g.total_moves(), 1);
}

#[test]
fn move_errors_come_in_order() {
    let mut g = ChessGame::default();
    assert_eq!(g.move_piece(sq("E7"), sq("E5"), None), Err(GameError::NoPieceOnSource));
    assert_eq!(g.move_piece(sq("E4"), sq("E5"), None), Err(GameError::NoPieceOnSource));
    assert_eq!(g.move_piece(sq("E2"), sq("E2"), None), Err(GameError::NoMovement));
    assert_eq!(g.move_piece(sq("E2"), sq("E5"), None), Err(GameError::MoveNotFound));
    assert_eq!(g.fen(), START);
    assert_eq!(GameError::NoPieceOnSource.message(), "The playing player has no piece on the source square!");
    assert_eq!(GameError::NoMovement.message(), "Move does not actually move");
    assert_eq!(GameError::MoveNotFound.message(), "Move not found as possibility");
    assert_eq!(GameError::GameOver.message(), "Can't do move since the game has already ended.");
    let e = GameError::Fen { error: FenError::InvalidFen, detail: "InvalidTurn".to_string() };
    assert_eq!(e.message(), "Failed to parse FEN string: InvalidTurn");
}

#[test]
fn fools_mate_ends_the_game() {
    let mut g = ChessGame::default();
    g.move_piece(sq("F2"), sq("F3"), None).unwrap();
    g.move_piece(sq("E7"), sq("E5"), None).unwrap();
    g.move_piece(sq("G2"), sq("G4"), None).unwrap();
    assert_eq!(g.outcome(), None);
    g.move_piece(sq("D8"), sq("H4"), None).unwrap();
    assert_eq!(g.outcome(), Some(ChessOutcome::Checkmate { winner: Player::Black }));
    assert_eq!(g.possible_moves().len(), 0);
    assert_eq!(g.move_piece(sq("E2"), sq("E3"), None), Err(GameError::GameOver));
    // Undoing the mating move reopens the game.
    g.undo(1).unwrap();
    assert_eq!(g.outcome(), None);
    assert_eq!(g.total_moves(), 3);
}

#[test]
fn stalemate_is_detected() {
    let mut g = ChessGame::from_fen("7k/8/6K1/5Q2/8/8/8/8 w - - 0 1").unwrap();
    g.move_piece(sq("F5"), sq("F7"), None).unwrap();
    assert_eq!(g.outcome(), Some(ChessOutcome::Stalemate));
}

#[test]
fn leaving_aborts_once_and_survives_undo() {
    let mut g = ChessGame::default();
    g.move_piece(sq("E2"), sq("E4"), None).unwrap();
    g.player_left(Player::Black);
    assert_eq!(g.outcome(), Some(ChessOutcome::Aborted { who: Some(Player::Black) }));
    g.player_left(Player::White);
    assert_eq!(g.outcome(), Some(ChessOutcome::Aborted { who: Some(Player::Black) }));
    assert_eq!(g.move_piece(sq("E7"), sq("E5"), None), Err(GameError::GameOver));
    g.undo(1).unwrap();
    assert_eq!(g.outcome(), Some(ChessOutcome::Aborted { who: Some(Player::Black) }));
}

#[test]
fn castling_by_rook_square_or_king_target() {
    let fen = "r3k2r/8/8/8/8/8/8/R3K2R w KQkq - 0 1";
    let mut g = ChessGame::from_fen(fen).unwrap();
    g.move_piece(sq("E1"), sq("H1"), None).unwrap();
    assert_eq!(g.fen(), "r3k2r/8/8/8/8/8/8/R4RK1 b kq - 1 1");
    g.move_piece(sq("E8"), sq("C8"), None).unwrap();
    assert_eq!(g.fen(), "2kr3r/8/8/8/8/8/8/R4RK1 w - - 2 2");
}

#[test]
fn promotion_piece_is_chosen() {
    let fen = "7k/P7/8/8/8/8/8/K7 w - - 0 1";
    let mut g = ChessGame::from_fen(fen).unwrap();
    g.move_piece(sq("A7"), sq("A8"), Some(Role::Queen)).unwrap();
    assert_eq!(g.fen(), "Q6k/8/8/8/8/8/8/K7 b - - 0 1");
    g.undo(1).unwrap();
    g.move_piece(sq("A7"), sq("A8"), Some(Role::Rook)).unwrap();
    assert_eq!(g.fen(), "R6k/8/8/8/8/8/8/K7 b - - 0 1");
    g.undo(1).unwrap();
    // Without a choice the last promotion the engine lists is played.
    g.move_piece(sq("A7"), sq("A8"), None).unwrap();
    assert_eq!(g.fen(), "N6k/8/8/8/8/8/8/K7 b - - 0 1");
    g.undo(1).unwrap();
    assert_eq!(g.move_piece(sq("A7"), sq("A8"), Some(Role::King)), Err(GameError::MoveNotFound));
}

#[test]
fn moves_by_piece_type_resolve_ambiguity() {
    // Knights on b1 and f1 can both reach d2.
    let fen = "4k3/8/8/8/8/8/8/1N2KN2 w - - 0 1";
    let knight = Piece { color: Player::White, role: Role::Knight };
    let mut g = ChessGame::from_fen(fen).unwrap();
    assert_eq!(g.move_piece_by_type(knight, sq("D2"), None, None), Err(GameError::MoveNotFound));
    assert_eq!(g.move_piece_by_type(knight, sq("D2"), Some(5), None), Ok((sq("F1"), sq("D2"))));
    g.undo(1).unwrap();
    assert_eq!(g.move_piece_by_type(knight, sq("D2"), Some(1), None), Ok((sq("B1"), sq("D2"))));
    g.undo(1).unwrap();
    assert_eq!(g.move_piece_by_type(knight, sq("D2"), Some(3), Some(0)), Ok((sq("B1"), sq("D2"))));
    g.undo(1).unwrap();
    // A single candidate needs no hint.
    assert_eq!(g.move_piece_by_type(knight, sq("A3"), Some(7), None), Ok((sq("B1"), sq("A3"))));
    assert_eq!(g.total_moves(), 1);
    // The wrong color is never a candidate.
    let black_knight = Piece { color: Player::Black, role: Role::Knight };
    assert_eq!(g.move_piece_by_type(black_knight, sq("D2"), None, None), Err(GameError::MoveNotFound));
}

#[test]
fn castle_by_type_lands_on_king_target_only() {
    let fen = "4k3/8/8/8/8/8/8/4K2R w K - 0 1";
    let king = Piece { color: Player::White, role: Role::King };
    let mut g = ChessGame::from_fen(fen).unwrap();
    assert_eq!(g.move_piece_by_type(king, sq("H1"), Some(4), Some(0)), Err(GameError::MoveNotFound));
    assert_eq!(g.move_piece_by_type(king, sq("G1"), Some(4), Some(0)), Ok((sq("E1"), sq("G1"))));
}

#[test]
fn move_source_and_destination() {
    let castle = ChessMove::Castle { king: sq("E1"), rook: sq("H1") };
    assert_eq!(move_src(&castle), Some(sq("E1")));
    assert_eq!(move_dst(&castle), sq("G1"));
    let long = ChessMove::Castle { king: sq("E8"), rook: sq("A8") };
    assert_eq!(move_dst(&long), sq("C8"));
    assert_eq!(castle_king_target(sq("E1"), sq("A1")), sq("C1"));
    let drop = ChessMove::Put { role: Role::Queen, to: sq("D4") };
    assert_eq!(move_src(&drop), None);
    assert_eq!(move_dst(&drop), sq("D4"));
    let ep = ChessMove::EnPassant { from: sq("E5"), to: sq("D6") };
    assert_eq!(move_src(&ep), Some(sq("E5")));
    assert_eq!(move_dst(&ep), sq("D6"));
}

#[test]
fn piece_letters() {
    assert_eq!(piece_to_char(Piece { color: Player::White, role: Role::Knight }), 'N');
    assert_eq!(piece_to_char(Piece { color: Player::Black, role: Role::Knight }), 'n');
    assert_eq!(piece_to_char(Piece { color: Player::White, role: Role::Pawn }), 'P');
    assert_eq!(piece_to_char(Piece { color: Player::Black, role: Role::King }), 'k');
    assert_eq!(piece_to_char(Piece { color: Player::Black, role: Role::Queen }), 'q');
}

#[test]
fn engine_lists_legal_moves() {
    let moves = ChessGame::from_fen(START).unwrap().possible_moves();
    assert_eq!(moves.len(), 20);
    assert!(moves.contains(&ChessMove::Normal {
        role: Role::Pawn,
        from: sq("E2"),
        capture: None,
        to: sq("E4"),
        promotion: None
    }));
}

#[test]
fn a_move_hands_the_turn_over() {
    let mut g = ChessGame::from_fen("4k3/8/8/8/8/8/4P3/4K3 b - - 0 1").unwrap();
    assert_eq!(g.turn(), Player::Black);
    assert_eq!(g.move_piece(sq("E8"), sq("D8"), None), Ok(()));
    assert_eq!(g.turn(), Player::White);
    assert_eq!(g.move_piece_by_type(Piece { color: Player::White, role: Role::Pawn }, sq("E4"), None, None), Ok((sq("E2"), sq("E4"))));
    assert_eq!(g.turn(), Player::Black);
    // A missing side field means white to move.
    assert_eq!(ChessGame::from_fen("4k3/8/8/8/8/8/8/4K3").unwrap().turn(), Player::White);
}

#[test]
fn clicks_select_from_a_move_list() {
    let push = ChessMove::Normal { role: Role::Pawn, from: sq("E7"), capture: None, to: sq("E8"), promotion: Some(Role::Queen) };
    let under = ChessMove::Normal { role: Role::Pawn, from: sq("E7"), capture: None, to: sq("E8"), promotion: Some(Role::Knight) };
    let castle = ChessMove::Castle { king: sq("E1"), rook: sq("H1") };
    let moves = vec![push, under, castle];
    // Without a promotion piece the last fitting move is taken.
    assert_eq!(select_move(&moves, sq("E7"), sq("E8"), None), Some(under));
    assert_eq!(select_move(&moves, sq("E7"), sq("E8"), Some(Role::Queen)), Some(push));
    assert_eq!(select_move(&moves, sq("E7"), sq("E8"), Some(Role::Rook)), None);
    // Castling by the rook's square or by the king's landing square.
    assert_eq!(select_move(&moves, sq("E1"), sq("H1"), None), Some(castle));
    assert_eq!(select_move(&moves, sq("E1"), sq("G1"), None), Some(castle));
    assert_eq!(select_move(&moves, sq("E1"), sq("F1"), None), None);
}

#[test]
fn recorded_moves_select_from_a_move_list() {
    let rook = |from: &str| ChessMove::Normal { role: Role::Rook, from: sq(from), capture: None, to: sq("D1"), promotion: None };
    let moves = vec![rook("A1"), rook("H1"), rook("D8")];
    let white_rook = Piece { color: Player::White, role: Role::Rook };
    // Ambiguous: the file, then the rank, decides.
    assert_eq!(select_piece_move(&moves, white_rook, Player::White, sq("D1"), Some(7), None), Some(rook("H1")));
    assert_eq!(select_piece_move(&moves, white_rook, Player::White, sq("D1"), None, Some(7)), Some(rook("D8")));
    assert_eq!(select_piece_move(&moves, white_rook, Player::White, sq("D1"), None, None), None);
    assert_eq!(select_piece_move(&moves, white_rook, Player::White, sq("D1"), Some(2), Some(5)), None);
    // The wrong side has no move.
    assert_eq!(select_piece_move(&moves, white_rook, Player::Black, sq("D1"), Some(7), None), None);
    // A single fitting move is taken whatever the file and rank say.
    let one = vec![rook("A1")];
    assert_eq!(select_piece_move(&one, white_rook, Player::White, sq("D1"), Some(5), Some(5)), Some(rook("A1")));
}
