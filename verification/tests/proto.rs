use chessmarkable::engine::Role;
use chessmarkable::game::ChessOutcome;
use chessmarkable::player::Player;
use chessmarkable::proto::{
    bot_move, moves_to_square_pairs, BotAction, BotState, ChessConfig, ChessRequest, ChessUpdate,
    Control, Envelope, GameServer, ProtocolError, Recipient,
};
use chessmarkable::square::Square;

const START: &str = "rnbqkbnr/pppppppp/8/8/8/8/PPPPPPPP/RNBQKBNR w KQkq - 0 1";

fn sq(name: &str) -> Square {
    Square::from_str(name).unwrap()
}

fn config() -> ChessConfig {
    ChessConfig {
        starting_fen: None,
        can_black_undo: true,
        can_white_undo: false,
        allow_undo_after_loose: false,
    }
}

fn sent(out: &[Envelope]) -> Vec<(Recipient, ChessUpdate)> {
    out.iter().map(|e| (e.to, e.update.clone())).collect()
}

fn everyone(u: ChessUpdate) -> Vec<(Recipient, ChessUpdate)> {
    vec![(Recipient::White, u.clone()), (Recipient::Black, u.clone()), (Recipient::Spectators, u)]
}

#[test]
fn spectator_availability() {
    assert!(ChessRequest::CurrentBoard.available_to_spectator());
    assert!(ChessRequest::CurrentTotalMoves.available_to_spectator());
    assert!(!ChessRequest::CurrentOutcome.available_to_spectator());
    assert!(!ChessRequest::UndoMoves { moves: 1 }.available_to_spectator());
    assert!(!ChessRequest::Abort { message: "bye".to_string() }.available_to_spectator());
    assert!(!ChessRequest::MovePiece { source: sq("E2"), destination: sq("E4"), promotion: None }
        .available_to_spectator());
}

#[test]
fn start_announces_turn_and_moves() {
    let (server, out) = GameServer::start(config()).unwrap();
    let pairs = moves_to_square_pairs(server.game());
    assert_eq!(pairs.len(), 20);
    let mut expected = everyone(ChessUpdate::PlayerSwitch { player: Player::White, fen: START.to_string() });
    expected.push((Recipient::White, ChessUpdate::PossibleMoves { possible_moves: pairs }));
    assert_eq!(sent(&out), expected);
}

#[test]
fn start_from_bad_fen_fails() {
    let mut c = config();
    c.starting_fen = Some("nonsense".to_string());
    assert!(GameServer::start(c).is_err());
}

#[test]
fn spectators_are_refused_player_requests() {
    let (mut server, _) = GameServer::start(config()).unwrap();
    let (out, ctl) = server.handle(None, ChessRequest::UndoMoves { moves: 1 });
    assert_eq!(ctl, Control::Continue);
    assert_eq!(
        sent(&out),
        vec![(
            Recipient::Spectators,
            ChessUpdate::GenericErrorResponse {
                message: "Spectators can't send this kind of request!".to_string()
            }
        )]
    );
}

#[test]
fn spectator_board_request_is_answered_then_ends_service() {
    let (mut server, _) = GameServer::start(config()).unwrap();
    let (out, ctl) = server.handle(None, ChessRequest::CurrentBoard);
    assert_eq!(sent(&out), vec![(Recipient::Spectators, ChessUpdate::Board { fen: START.to_string() })]);
    assert_eq!(ctl, Control::Failed(ProtocolError::NoSender));
    assert_eq!(
        ProtocolError::NoSender.message(),
        "available_to_spectator() is probably not up to date with the handlers"
    );
}

#[test]
fn player_information_requests_are_answered_then_end_service() {
    let (mut server, _) = GameServer::start(config()).unwrap();
    let (out, ctl) = server.handle(Some(Player::Black), ChessRequest::CurrentTotalMoves);
    assert_eq!(sent(&out), vec![(Recipient::Black, ChessUpdate::CurrentTotalMovesReponse { total_moves: 0 })]);
    assert_eq!(ctl, Control::Failed(ProtocolError::UnhandledRequest));
    let (mut server, _) = GameServer::start(config()).unwrap();
    let (out, _) = server.handle(Some(Player::White), ChessRequest::CurrentOutcome);
    assert_eq!(sent(&out), vec![(Recipient::White, ChessUpdate::Outcome { outcome: None })]);
    assert_eq!(ProtocolError::UnhandledRequest.message(), "Unhandled player-specific request");
}

#[test]
fn a_move_is_announced_and_the_other_player_gets_moves() {
    let (mut server, _) = GameServer::start(config()).unwrap();
    let (out, ctl) = server.handle(
        Some(Player::White),
        ChessRequest::MovePiece { source: sq("E2"), destination: sq("E4"), promotion: None },
    );
    assert_eq!(ctl, Control::Continue);
    let after = "rnbqkbnr/pppppppp/8/8/4P3/8/PPPP1PPP/RNBQKBNR b KQkq - 0 1";
    let mut expected = everyone(ChessUpdate::PlayerMovedAPiece {
        player: Player::White,
        moved_piece_source: sq("E2"),
        moved_piece_destination: sq("E4"),
    });
    expected.extend(everyone(ChessUpdate::PlayerSwitch { player: Player::Black, fen: after.to_string() }));
    expected.push((
        Recipient::Black,
        ChessUpdate::PossibleMoves { possible_moves: moves_to_square_pairs(server.game()) },
    ));
    assert_eq!(sent(&out), expected);
}

#[test]
fn a_refused_move_is_answered_to_the_sender() {
    let (mut server, _) = GameServer::start(config()).unwrap();
    let (out, ctl) = server.handle(
        Some(Player::Black),
        ChessRequest::MovePiece { source: sq("E7"), destination: sq("E5"), promotion: None },
    );
    assert_eq!(ctl, Control::Continue);
    assert_eq!(
        sent(&out),
        vec![(
            Recipient::Black,
            ChessUpdate::MovePieceFailedResponse {
                message: "Denied by engine: The playing player has no piece on the source square!".to_string(),
                fen: START.to_string()
            }
        )]
    );
}

#[test]
fn mate_is_announced_without_moves() {
    let (mut server, _) = GameServer::start(config()).unwrap();
    for (p, a, b) in [(Player::White, "F2", "F3"), (Player::Black, "E7", "E5"), (Player::White, "G2", "G4")] {
        let (_, ctl) = server.handle(Some(p), ChessRequest::MovePiece { source: sq(a), destination: sq(b), promotion: None });
        assert_eq!(ctl, Control::Continue);
    }
    let (out, _) = server.handle(
        Some(Player::Black),
        ChessRequest::MovePiece { source: sq("D8"), destination: sq("H4"), promotion: Some(Role::Queen) },
    );
    // A promotion piece on a move that is no promotion fits no move.
    assert_eq!(out.len(), 1);
    let (out, _) = server.handle(
        Some(Player::Black),
        ChessRequest::MovePiece { source: sq("D8"), destination: sq("H4"), promotion: None },
    );
    let updates = sent(&out);
    assert_eq!(updates.len(), 9);
    assert_eq!(
        updates[3],
        (Recipient::White, ChessUpdate::Outcome { outcome: Some(ChessOutcome::Checkmate { winner: Player::Black }) })
    );
    assert!(updates.iter().all(|(_, u)| !matches!(u, ChessUpdate::PossibleMoves { .. })));
}

#[test]
fn undo_rules() {
    let (mut server, _) = GameServer::start(config()).unwrap();
    server.handle(Some(Player::White), ChessRequest::MovePiece { source: sq("E2"), destination: sq("E4"), promotion: None });
    // White may not undo in this game.
    let (out, _) = server.handle(Some(Player::White), ChessRequest::UndoMoves { moves: 1 });
    assert_eq!(
        sent(&out),
        vec![(
            Recipient::White,
            ChessUpdate::UndoMovesFailedResponse { message: "You are not permitted to do that in this game.".to_string() }
        )]
    );
    // Black may, on its own turn.
    let (out, ctl) = server.handle(Some(Player::Black), ChessRequest::UndoMoves { moves: 2 });
    assert_eq!(ctl, Control::Continue);
    assert_eq!(
        sent(&out),
        vec![(
            Recipient::Black,
            ChessUpdate::UndoMovesFailedResponse {
                message: "Denied by engine: Can't undo 2 moves. Only 1 moves available to undo.".to_string()
            }
        )]
    );
    let (out, _) = server.handle(Some(Player::Black), ChessRequest::UndoMoves { moves: 1 });
    let mut expected = everyone(ChessUpdate::PlayerSwitch { player: Player::White, fen: START.to_string() });
    expected.push((Recipient::White, ChessUpdate::PossibleMoves { possible_moves: moves_to_square_pairs(server.game()) }));
    expected.extend(everyone(ChessUpdate::MovesUndone { who: Player::Black, moves: 1 }));
    assert_eq!(sent(&out), expected);
    // Now it is White's turn, so Black may not undo.
    let (out, _) = server.handle(Some(Player::Black), ChessRequest::UndoMoves { moves: 1 });
    assert_eq!(
        sent(&out),
        vec![(
            Recipient::Black,
            ChessUpdate::UndoMovesFailedResponse { message: "You can only undo when you are playing.".to_string() }
        )]
    );
}

#[test]
fn undo_after_game_over_when_allowed() {
    let mut c = config();
    c.allow_undo_after_loose = true;
    c.can_white_undo = true;
    let (mut server, _) = GameServer::start(c).unwrap();
    let (out, _) = server.handle(Some(Player::Black), ChessRequest::UndoMoves { moves: 1 });
    assert_eq!(
        sent(&out),
        vec![(
            Recipient::Black,
            ChessUpdate::UndoMovesFailedResponse {
                message: "You can only undo when you are playing or it's game over.".to_string()
            }
        )]
    );
}

#[test]
fn abort_ends_service() {
    let (mut server, _) = GameServer::start(config()).unwrap();
    let (out, ctl) = server.handle(Some(Player::White), ChessRequest::Abort { message: "bye".to_string() });
    assert!(out.is_empty());
    assert_eq!(ctl, Control::Finished);
    assert_eq!(server.game().outcome(), Some(ChessOutcome::Aborted { who: Some(Player::White) }));
}

#[test]
fn bot_reacts_to_updates() {
    let mut bot = BotState::new(Player::Black, 2);
    let a = bot.on_update(&ChessUpdate::PlayerSwitch { player: Player::White, fen: START.to_string() });
    assert!(matches!(a, BotAction::Wait));
    let a = bot.on_update(&ChessUpdate::PlayerSwitch { player: Player::Black, fen: "x".to_string() });
    assert!(matches!(a, BotAction::Think { ref fen } if fen == "x"));
    let a = bot.on_update(&ChessUpdate::Outcome { outcome: Some(ChessOutcome::Stalemate) });
    assert!(matches!(a, BotAction::Wait));
    assert_eq!(bot.current_outcome, Some(ChessOutcome::Stalemate));
    let a = bot.on_update(&ChessUpdate::PlayerSwitch { player: Player::Black, fen: "x".to_string() });
    assert!(matches!(a, BotAction::Wait));
    let a = bot.on_update(&ChessUpdate::MovePieceFailedResponse { message: "no".to_string(), fen: "x".to_string() });
    assert!(matches!(a, BotAction::Stop));
}

#[test]
fn bot_moves_are_requests() {
    let fen = "6k1/5ppp/8/8/8/8/5PPP/3R2K1 w - - 0 1";
    assert_eq!(
        bot_move(fen, 1),
        Some(ChessRequest::MovePiece { source: sq("D1"), destination: sq("D8"), promotion: None })
    );
    assert_eq!(bot_move("garbage", 1), None);
    assert_eq!(bot_move("rnb1kbnr/pppp1ppp/8/4p3/6Pq/5P2/PPPPP2P/RNBQKBNR w KQkq - 1 3", 1), None);
    // A promotion carries its piece.
    let promo = "7k/P7/8/8/8/8/8/K7 w - - 0 1";
    assert_eq!(
        bot_move(promo, 1),
        Some(ChessRequest::MovePiece { source: sq("A7"), destination: sq("A8"), promotion: Some(Role::Queen) })
    );
}
