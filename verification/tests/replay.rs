use chessmarkable::engine::Role;
use chessmarkable::replay::{
    termination_string_from, GameTermination, PgnGameMove, PgnMove, Replay, ReplayInfo,
};
use chessmarkable::square::Square;

const START: &str = "rnbqkbnr/pppppppp/8/8/8/8/PPPPPPPP/RNBQKBNR w KQkq - 0 1";

fn sq(name: &str) -> Square {
    Square::from_str(name).unwrap()
}

fn basic(piece: Role, to: &str) -> PgnGameMove {
    PgnGameMove { mv: PgnMove::BasicMove { piece, to: sq(to), from_file: None, from_rank: None }, comment: None }
}

fn e4_e5() -> ReplayInfo {
    let mut first = basic(Role::Pawn, "E4");
    first.comment = Some("King's pawn.".to_string());
    ReplayInfo {
        tags: vec![("Event".to_string(), "Test".to_string())],
        moves: vec![first, basic(Role::Pawn, "E5")],
        termination: GameTermination::DrawnGame,
    }
}

#[test]
fn termination_strings() {
    assert_eq!(termination_string_from(GameTermination::WhiteWins), " Game Over: White Won");
    assert_eq!(termination_string_from(GameTermination::BlackWins), " Game Over: Black Won");
    assert_eq!(termination_string_from(GameTermination::DrawnGame), " Game Over: Draw");
    assert_eq!(termination_string_from(GameTermination::Unknown), " Game Over: Unknown");
}

#[test]
fn replay_plays_recorded_moves_with_comments() {
    let mut r = Replay::new(e4_e5());
    assert_eq!(r.possible_moves().len(), 20);
    let a = r.play_replay_move();
    assert_eq!(a.fen, "rnbqkbnr/pppppppp/8/8/4P3/8/PPPP1PPP/RNBQKBNR b KQkq - 0 1");
    assert_eq!(a.comment, Some("King's pawn.".to_string()));
    assert_eq!(a.last_move_from, Some(sq("E2")));
    assert_eq!(a.last_move_to, Some(sq("E4")));
    let b = r.play_replay_move();
    assert_eq!(b.fen, "rnbqkbnr/pppp1ppp/8/4p3/4P3/8/PPPP1PPP/RNBQKBNR w KQkq - 0 2");
    assert_eq!(b.comment, Some(" Game Over: Draw".to_string()));
    // Past the end nothing happens.
    let c = r.play_replay_move();
    assert_eq!(c.fen, b.fen);
    assert_eq!(c.comment, None);
    assert_eq!(c.last_move_from, None);
}

#[test]
fn undo_takes_back_recorded_moves() {
    let mut r = Replay::new(e4_e5());
    r.play_replay_move();
    let u = r.undo_move();
    assert_eq!(u.fen, START);
    assert_eq!(u.comment, None);
    assert_eq!(u.last_move_from, None);
    // The same recorded move is played again.
    let a = r.play_replay_move();
    assert_eq!(a.last_move_to, Some(sq("E4")));
    // Nothing to undo below the start.
    r.undo_move();
    let u = r.undo_move();
    assert_eq!(u.fen, START);
}

#[test]
fn own_moves_block_the_replay_until_undone() {
    let mut r = Replay::new(e4_e5());
    let p = r.player_move(sq("D2"), sq("D4"));
    assert_eq!(p.fen, "rnbqkbnr/pppppppp/8/8/3P4/8/PPP1PPPP/RNBQKBNR b KQkq - 0 1");
    assert_eq!(p.last_move_from, Some(sq("D2")));
    let blocked = r.play_replay_move();
    assert_eq!(blocked.comment, Some("Undo Manual Moves before proceeding with replay".to_string()));
    assert_eq!(blocked.fen, p.fen);
    r.undo_move();
    let a = r.play_replay_move();
    assert_eq!(a.last_move_to, Some(sq("E4")));
}

#[test]
fn refused_own_move_still_shows_the_squares() {
    let mut r = Replay::new(e4_e5());
    let p = r.player_move(sq("E2"), sq("E5"));
    assert_eq!(p.fen, START);
    assert_eq!(p.last_move_from, Some(sq("E2")));
    assert_eq!(p.last_move_to, Some(sq("E5")));
    // No own move was counted, so the replay goes on.
    let a = r.play_replay_move();
    assert_eq!(a.last_move_to, Some(sq("E4")));
}

#[test]
fn an_invalid_recorded_move_is_reported() {
    let info = ReplayInfo {
        tags: vec![],
        moves: vec![basic(Role::Queen, "D5")],
        termination: GameTermination::Unknown,
    };
    let mut r = Replay::new(info);
    let a = r.play_replay_move();
    assert_eq!(a.comment, Some("Error playing replay move, please check your PGN's validity".to_string()));
    assert_eq!(a.fen, START);
}

#[test]
fn replay_starts_from_the_fen_tag_and_reset_goes_to_the_standard_start() {
    let fen = "4k3/8/8/8/8/8/4P3/4K3 w - - 0 1";
    let info = ReplayInfo {
        tags: vec![("FEN".to_string(), fen.to_string())],
        moves: vec![basic(Role::Pawn, "E4")],
        termination: GameTermination::WhiteWins,
    };
    let mut r = Replay::new(info.clone());
    let a = r.play_replay_move();
    assert_eq!(a.fen, "4k3/8/8/8/4P3/8/8/4K3 b - - 0 1");
    assert_eq!(a.comment, Some(" Game Over: White Won".to_string()));
    let z = r.reset();
    assert_eq!(z.fen, START);
    assert!(Replay::try_new(info).is_some());
    let bad = ReplayInfo {
        tags: vec![("FEN".to_string(), "bad".to_string())],
        moves: vec![],
        termination: GameTermination::Unknown,
    };
    assert!(Replay::try_new(bad).is_none());
}

#[test]
fn castling_records_are_played() {
    let info = ReplayInfo {
        tags: vec![("FEN".to_string(), "r3k3/8/8/8/8/8/8/4K2R w Kq - 0 1".to_string())],
        moves: vec![
            PgnGameMove { mv: PgnMove::CastleKingside, comment: None },
            PgnGameMove { mv: PgnMove::CastleQueenside, comment: None },
        ],
        termination: GameTermination::Unknown,
    };
    let mut r = Replay::new(info);
    let a = r.play_replay_move();
    assert_eq!(a.fen, "r3k3/8/8/8/8/8/8/5RK1 b q - 1 1");
    assert_eq!(a.last_move_from, Some(sq("E1")));
    assert_eq!(a.last_move_to, Some(sq("G1")));
    assert_eq!(a.comment, None);
    let b = r.play_replay_move();
    assert_eq!(b.fen, "2kr4/8/8/8/8/8/8/5RK1 w - - 2 2");
    assert_eq!(b.last_move_from, Some(sq("E8")));
    assert_eq!(b.last_move_to, Some(sq("C8")));
    assert_eq!(b.comment, Some(" Game Over: Unknown".to_string()));
}
