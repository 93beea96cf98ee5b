//! The game protocol: the requests that players and spectators send, the
//! updates the game sends back, the decisions of the game server for each
//! request and of the bot for each update.

use vstd::prelude::*;
use crate::engine::{
    is_position, move_dst, move_src, read_fen, spec_legal_moves, spec_move_dst, spec_move_src,
    spec_read_fen, spec_turn, ChessMove, FenError, Role,
};
use crate::game::{ChessGame, ChessOutcome, GameError, GameModel};
use crate::player::Player;
use crate::search::{best_move, is_best_index};
use crate::square::Square;
use crate::text::push_str;

verus! {

/// How a game is set up.
#[derive(Clone, Debug)]
pub struct ChessConfig {
    /// The position to start from, as FEN; the standard position if none.
    pub starting_fen: Option<String>,
    pub can_black_undo: bool,
    pub can_white_undo: bool,
    /// Whether moves may be undone once the game has ended.
    pub allow_undo_after_loose: bool,
}

/// A request to the game.
#[derive(Clone, Debug, PartialEq)]
pub enum ChessRequest {
    CurrentBoard,
    CurrentTotalMoves,
    CurrentOutcome,
    MovePiece { source: Square, destination: Square, promotion: Option<Role> },
    Abort { message: String },
    UndoMoves { moves: u16 },
}

/// An update sent by the game.
#[derive(Clone, Debug, PartialEq)]
pub enum ChessUpdate {
    Board { fen: String },
    PlayerMovedAPiece { player: Player, moved_piece_source: Square, moved_piece_destination: Square },
    PlayerSwitch { player: Player, fen: String },
    MovePieceFailedResponse { message: String, fen: String },
    Outcome { outcome: Option<ChessOutcome> },
    PossibleMoves { possible_moves: Vec<(Square, Square)> },
    GenericErrorResponse { message: String },
    UndoMovesFailedResponse { message: String },
    MovesUndone { who: Player, moves: u16 },
    CurrentTotalMovesReponse { total_moves: u16 },
}

/// The abstract content of an update.
pub enum UpdateView {
    Board { fen: Seq<char> },
    PlayerMovedAPiece { player: Player, moved_piece_source: Square, moved_piece_destination: Square },
    PlayerSwitch { player: Player, fen: Seq<char> },
    MovePieceFailedResponse { message: Seq<char>, fen: Seq<char> },
    Outcome { outcome: Option<ChessOutcome> },
    PossibleMoves { possible_moves: Seq<(Square, Square)> },
    GenericErrorResponse { message: Seq<char> },
    UndoMovesFailedResponse { message: Seq<char> },
    MovesUndone { who: Player, moves: u16 },
    CurrentTotalMovesReponse { total_moves: u16 },
}

impl View for ChessUpdate {
    type V = UpdateView;

    open spec fn view(&self) -> UpdateView {
        match self {
            ChessUpdate::Board { fen } => UpdateView::Board { fen: fen@ },
            ChessUpdate::PlayerMovedAPiece { player, moved_piece_source, moved_piece_destination } =>
                UpdateView::PlayerMovedAPiece {
                player: *player,
                moved_piece_source: *moved_piece_source,
                moved_piece_destination: *moved_piece_destination,
            },
            ChessUpdate::PlayerSwitch { player, fen } => UpdateView::PlayerSwitch { player: *player, fen: fen@ },
            ChessUpdate::MovePieceFailedResponse { message, fen } => UpdateView::MovePieceFailedResponse {
                message: message@,
                fen: fen@,
            },
            ChessUpdate::Outcome { outcome } => UpdateView::Outcome { outcome: *outcome },
            ChessUpdate::PossibleMoves { possible_moves } => UpdateView::PossibleMoves {
                possible_moves: possible_moves@,
            },
            ChessUpdate::GenericErrorResponse { message } => UpdateView::GenericErrorResponse {
                message: message@,
            },
            ChessUpdate::UndoMovesFailedResponse { message } => UpdateView::UndoMovesFailedResponse {
                message: message@,
            },
            ChessUpdate::MovesUndone { who, moves } => UpdateView::MovesUndone { who: *who, moves: *moves },
            ChessUpdate::CurrentTotalMovesReponse { total_moves } => UpdateView::CurrentTotalMovesReponse {
                total_moves: *total_moves,
            },
        }
    }
}

/// Who an update goes to.
#[derive(PartialEq, Eq, Structural, Copy, Clone, Debug)]
pub enum Recipient {
    White,
    Black,
    Spectators,
}

/// An update and who it goes to.
#[derive(Clone, Debug)]
pub struct Envelope {
    pub to: Recipient,
    pub update: ChessUpdate,
}

/// Why the game server stopped with an error.
#[derive(PartialEq, Eq, Structural, Copy, Clone, Debug)]
pub enum ProtocolError {
    /// A request that needs a player came without one.
    NoSender,
    /// A player sent a request that only asks for information.
    UnhandledRequest,
}

/// What the game server does after a request.
#[derive(PartialEq, Eq, Structural, Copy, Clone, Debug)]
pub enum Control {
    /// Wait for the next request.
    Continue,
    /// The game is over; stop serving it.
    Finished,
    /// Stop serving the game with an error.
    Failed(ProtocolError),
}

impl ProtocolError {
    /// The text of the error.
    pub open spec fn spec_message(self) -> Seq<char> {
        match self {
            ProtocolError::NoSender => "available_to_spectator() is probably not up to date with the handlers"@,
            ProtocolError::UnhandledRequest => "Unhandled player-specific request"@,
        }
    }

    /// Describes the error.
    pub fn message(&self) -> (r: String)
        ensures
            r@ == self.spec_message(),
    {
        match self {
            ProtocolError::NoSender => String::from_str(
                "available_to_spectator() is probably not up to date with the handlers",
            ),
            ProtocolError::UnhandledRequest => String::from_str("Unhandled player-specific request"),
        }
    }
}

impl ChessRequest {
    /// Whether a spectator may send this request: only the board and the
    /// number of moves may be asked for.
    pub open spec fn spec_available_to_spectator(&self) -> bool {
        self is CurrentBoard || self is CurrentTotalMoves
    }

    /// Is a spectator allowed to send this request.
    pub fn available_to_spectator(&self) -> (r: bool)
        ensures
            r == self.spec_available_to_spectator(),
    {
        match self {
            ChessRequest::CurrentBoard | ChessRequest::CurrentTotalMoves => true,
            _ => false,
        }
    }
}

/// The start and end squares of the moves of a list, drops left out.
pub open spec fn move_pairs(ms: Seq<ChessMove>) -> Seq<(Square, Square)>
    decreases ms.len(),
{
    if ms.len() == 0 {
        Seq::empty()
    } else {
        let rest = move_pairs(ms.drop_last());
        match spec_move_src(ms.last()) {
            Some(src) => rest.push((src, spec_move_dst(ms.last()))),
            None => rest,
        }
    }
}

/// The start and end squares of the legal moves of a game.
pub fn moves_to_square_pairs(game: &ChessGame) -> (r: Vec<(Square, Square)>)
    requires
        game.wf(),
    ensures
        r@ == move_pairs(spec_legal_moves(game@.position)),
{
    let moves = game.possible_moves();
    square_pairs(&moves)
}

/// The start and end squares of a list of moves, in order; a move without
/// a start square is left out.
pub fn square_pairs(moves: &Vec<ChessMove>) -> (r: Vec<(Square, Square)>)
    requires
        forall|t: int| 0 <= t < moves.len() ==> (#[trigger] moves@[t]).wf(),
    ensures
        r@ == move_pairs(moves@),
{
    let ghost ms = moves@;
    let mut out: Vec<(Square, Square)> = Vec::new();
    let n = moves.len();
    let mut i: usize = 0;
    while i < n
        invariant
            n == moves.len(),
            ms == moves@,
            forall|t: int| 0 <= t < n ==> (#[trigger] ms[t]).wf(),
            i <= n,
            out@ == move_pairs(ms.take(i as int)),
        decreases n - i,
    {
        proof {
            crate::game::lemma_take_step(ms, i as int);
        }
        let m = moves[i];
        match move_src(&m) {
            Some(src) => {
                out.push((src, move_dst(&m)));
            },
            None => {},
        }
        i = i + 1;
    }
    assert(ms.take(n as int) =~= ms);
    out
}

/// The recipient that stands for a player.
pub open spec fn recipient_of(p: Player) -> Recipient {
    match p {
        Player::White => Recipient::White,
        Player::Black => Recipient::Black,
    }
}

/// An update for both players and the spectators, in that order.
pub open spec fn to_everyone(u: UpdateView) -> Seq<(Recipient, UpdateView)> {
    seq![(Recipient::White, u), (Recipient::Black, u), (Recipient::Spectators, u)]
}

/// The text sent when the game refuses a request.
pub open spec fn denied(e: GameError) -> Seq<char> {
    "Denied by engine: "@ + e.spec_message()
}

pub open spec fn spectator_refusal() -> Seq<char> {
    "Spectators can't send this kind of request!"@
}

pub open spec fn undo_not_permitted() -> Seq<char> {
    "You are not permitted to do that in this game."@
}

pub open spec fn undo_only_playing_or_over() -> Seq<char> {
    "You can only undo when you are playing or it's game over."@
}

pub open spec fn undo_only_playing() -> Seq<char> {
    "You can only undo when you are playing."@
}

/// The answer to a request for information, if it is one.
pub open spec fn query_reply(g: GameModel, req: ChessRequest) -> Option<UpdateView> {
    match req {
        ChessRequest::CurrentBoard => Some(UpdateView::Board { fen: g.position }),
        ChessRequest::CurrentTotalMoves => Some(
            UpdateView::CurrentTotalMovesReponse { total_moves: g.moves as u16 },
        ),
        ChessRequest::CurrentOutcome => Some(UpdateView::Outcome { outcome: g.outcome }),
        _ => None,
    }
}

/// The updates after the game changed: the new outcome to everyone if it
/// changed, then whose turn it is with the new position to everyone.
pub open spec fn change_updates(before: GameModel, after: GameModel) -> Seq<(Recipient, UpdateView)> {
    (if before.outcome != after.outcome {
        to_everyone(UpdateView::Outcome { outcome: after.outcome })
    } else {
        Seq::empty()
    }) + to_everyone(UpdateView::PlayerSwitch { player: spec_turn(after.position), fen: after.position })
}

/// The legal moves of a game, sent to the player who is to move.
pub open spec fn moves_update(g: GameModel) -> UpdateView {
    UpdateView::PossibleMoves { possible_moves: move_pairs(spec_legal_moves(g.position)) }
}

/// The updates after a player moved a piece.
pub open spec fn move_updates(before: GameModel, after: GameModel, p: Player, source: Square, destination: Square) -> Seq<(Recipient, UpdateView)> {
    to_everyone(
        UpdateView::PlayerMovedAPiece {
            player: p,
            moved_piece_source: source,
            moved_piece_destination: destination,
        },
    ) + change_updates(before, after) + if after.outcome is None {
        seq![(recipient_of(p.spec_other()), moves_update(after))]
    } else {
        Seq::empty()
    }
}

/// What a player's request to undo moves does.
pub open spec fn undo_request(g: GameModel, cfg: ChessConfig, p: Player, moves: u16) -> (GameModel, Seq<(Recipient, UpdateView)>) {
    let allowed = match p {
        Player::Black => cfg.can_black_undo,
        Player::White => cfg.can_white_undo,
    };
    if !allowed {
        (g, seq![(recipient_of(p), UpdateView::UndoMovesFailedResponse { message: undo_not_permitted() })])
    } else if !((spec_turn(g.position) == p && g.outcome is None) || (g.outcome is Some
        && cfg.allow_undo_after_loose)) {
        let message = if cfg.allow_undo_after_loose {
            undo_only_playing_or_over()
        } else {
            undo_only_playing()
        };
        (g, seq![(recipient_of(p), UpdateView::UndoMovesFailedResponse { message })])
    } else {
        match g.spec_undo(moves as nat) {
            Err(e) => (g, seq![(recipient_of(p), UpdateView::UndoMovesFailedResponse { message: denied(e) })]),
            Ok(g2) => (
                g2,
                change_updates(g, g2) + seq![(recipient_of(spec_turn(g2.position)), moves_update(g2))]
                    + to_everyone(UpdateView::MovesUndone { who: p, moves }),
            ),
        }
    }
}

/// What a request from a player does, after any answer to a request for
/// information.
pub open spec fn player_request(g: GameModel, cfg: ChessConfig, p: Player, req: ChessRequest) -> (GameModel, Seq<(Recipient, UpdateView)>, Control) {
    match req {
        ChessRequest::MovePiece { source, destination, promotion } => match g.spec_move_piece(
            source,
            destination,
            promotion,
        ) {
            Ok(g2) => (g2, move_updates(g, g2, p, source, destination), Control::Continue),
            Err(e) => (
                g,
                seq![
                    (
                        recipient_of(p),
                        UpdateView::MovePieceFailedResponse { message: denied(e), fen: g.position },
                    ),
                ],
                Control::Continue,
            ),
        },
        ChessRequest::Abort { .. } => (g.spec_player_left(p), Seq::empty(), Control::Finished),
        ChessRequest::UndoMoves { moves } => {
            let (g2, out) = undo_request(g, cfg, p, moves);
            (g2, out, Control::Continue)
        },
        _ => (g, Seq::empty(), Control::Failed(ProtocolError::UnhandledRequest)),
    }
}

/// What the game server does with a request: the new game, the updates it
/// sends in order, and whether it goes on.
pub open spec fn spec_handle(g: GameModel, cfg: ChessConfig, sender: Option<Player>, req: ChessRequest) -> (GameModel, Seq<(Recipient, UpdateView)>, Control) {
    if sender is None && !req.spec_available_to_spectator() {
        (
            g,
            seq![(Recipient::Spectators, UpdateView::GenericErrorResponse { message: spectator_refusal() })],
            Control::Continue,
        )
    } else {
        let first = match query_reply(g, req) {
            Some(u) => seq![
                (
                    match sender {
                        Some(p) => recipient_of(p),
                        None => Recipient::Spectators,
                    },
                    u,
                ),
            ],
            None => Seq::empty(),
        };
        match sender {
            None => (g, first, Control::Failed(ProtocolError::NoSender)),
            Some(p) => {
                let (g2, rest, ctl) = player_request(g, cfg, p, req);
                (g2, first + rest, ctl)
            },
        }
    }
}

/// The updates as recipients and abstract contents.
pub open spec fn outbox_view(out: Seq<Envelope>) -> Seq<(Recipient, UpdateView)> {
    out.map_values(|e: Envelope| (e.to, e.update@))
}

/// What the bot does after an update.
#[derive(Clone, Debug)]
pub enum BotAction {
    /// Nothing; wait for the next update.
    Wait,
    /// Think about a move in the given position and send it.
    Think { fen: String },
    /// Stop playing.
    Stop,
}

/// The bot's memory between updates.
#[derive(Clone, Debug)]
pub struct BotState {
    /// The side the bot plays.
    pub me: Player,
    /// How deep the bot searches.
    pub depth: u16,
    /// How the game ended, as far as the bot was told.
    pub current_outcome: Option<ChessOutcome>,
}

/// What an update does to the bot: its new outcome and what it does.
pub open spec fn spec_bot_step(me: Player, outcome: Option<ChessOutcome>, u: UpdateView) -> (Option<ChessOutcome>, Option<Seq<char>>, bool) {
    match u {
        UpdateView::PlayerSwitch { player, fen } => if player == me && outcome is None {
            (outcome, Some(fen), false)
        } else {
            (outcome, None, false)
        },
        UpdateView::MovePieceFailedResponse { .. } => (outcome, None, true),
        UpdateView::Outcome { outcome: o } => (o, None, false),
        _ => (outcome, None, false),
    }
}

impl BotState {
    /// A bot for one side that searches to the given depth.
    pub fn new(me: Player, depth: u16) -> (r: BotState)
        ensures
            r.me == me && r.depth == depth && r.current_outcome is None,
    {
        BotState { me, depth, current_outcome: None }
    }

    /// Takes in an update: when it becomes the bot's turn in a running game
    /// it thinks about the position; a refused move stops it; an outcome
    /// update is remembered.
    pub fn on_update(&mut self, update: &ChessUpdate) -> (r: BotAction)
        ensures
            final(self).me == old(self).me,
            final(self).depth == old(self).depth,
            ({
                let (o, think, stop) = spec_bot_step(old(self).me, old(self).current_outcome, update@);
                &&& final(self).current_outcome == o
                &&& stop <==> r is Stop
                &&& think is None && !stop <==> r is Wait
                &&& think matches Some(f) ==> r matches BotAction::Think { fen } && fen@ == f
            }),
    {
        match update {
            ChessUpdate::PlayerSwitch { player, fen } => {
                if *player == self.me && self.current_outcome.is_none() {
                    BotAction::Think { fen: fen.clone() }
                } else {
                    BotAction::Wait
                }
            },
            ChessUpdate::MovePieceFailedResponse { .. } => BotAction::Stop,
            ChessUpdate::Outcome { outcome } => {
                self.current_outcome = *outcome;
                BotAction::Wait
            },
            _ => BotAction::Wait,
        }
    }
}

/// The request that plays a move: its start and end squares and, for a
/// promotion, the promotion piece.
pub open spec fn request_for(m: ChessMove) -> ChessRequest {
    ChessRequest::MovePiece {
        source: spec_move_src(m)->0,
        destination: spec_move_dst(m),
        promotion: match m {
            ChessMove::Normal { promotion, .. } => promotion,
            _ => None,
        },
    }
}

/// The move the bot sends for a position given as FEN: the search's best
/// move, or none when the FEN gives no position or there is no legal move.
pub fn bot_move(fen: &str, depth: u16) -> (r: Option<ChessRequest>)
    requires
        depth >= 1,
    ensures
        match spec_read_fen(fen@) {
            Err(_) => r is None,
            Ok(p) => {
                &&& r is None <==> spec_legal_moves(p).len() == 0
                &&& r matches Some(req) ==> exists|i: int|
                    is_best_index(p, depth as nat, spec_turn(p) == Player::White, i) && req
                        == request_for(spec_legal_moves(p)[i])
            },
        },
{
    let pos = match read_fen(fen) {
        Ok(p) => p,
        Err(_) => {
            return None;
        },
    };
    match best_move(pos.as_str(), depth) {
        None => None,
        Some(m) => {
            let src = match move_src(&m) {
                Some(s) => s,
                None => move_dst(&m),
            };
            let dst = move_dst(&m);
            let promotion = match m {
                ChessMove::Normal { promotion, .. } => promotion,
                _ => None,
            };
            let req = ChessRequest::MovePiece { source: src, destination: dst, promotion };
            proof {
                let p = pos@;
                let i = choose|i: int|
                    is_best_index(p, depth as nat, spec_turn(p) == Player::White, i) && spec_legal_moves(
                        p,
                    )[i] == m;
                assert(req == request_for(spec_legal_moves(p)[i]));
            }
            Some(req)
        },
    }
}

/// A spectator never changes the game; a request a spectator may not send
/// is answered with an error to the spectators alone, and the server goes
/// on.
pub proof fn law_spectators_cannot_change_the_game(g: GameModel, cfg: ChessConfig, req: ChessRequest)
    ensures
        spec_handle(g, cfg, None, req).0 == g,
        !req.spec_available_to_spectator() ==> spec_handle(g, cfg, None, req).1 == seq![
            (Recipient::Spectators, UpdateView::GenericErrorResponse { message: spectator_refusal() }),
        ] && spec_handle(g, cfg, None, req).2 == Control::Continue,
        forall|i: int|
            0 <= i < spec_handle(g, cfg, None, req).1.len() ==> (#[trigger] spec_handle(
                g,
                cfg,
                None,
                req,
            ).1[i]).0 == Recipient::Spectators,
{
}

/// A player leaving ends the service of the game, and the game counts as
/// aborted by that player unless it had already ended.
pub proof fn law_abort_finishes(g: GameModel, cfg: ChessConfig, p: Player, message: String)
    ensures
        spec_handle(g, cfg, Some(p), ChessRequest::Abort { message }).2 == Control::Finished,
        spec_handle(g, cfg, Some(p), ChessRequest::Abort { message }).0 == g.spec_player_left(p),
        g.outcome is None ==> spec_handle(g, cfg, Some(p), ChessRequest::Abort { message }).0.outcome
            == Some(ChessOutcome::Aborted { who: Some(p) }),
{
}

/// A move the game refuses leaves the game as it was and is answered to
/// the player who asked, with the position.
pub proof fn law_refused_move(
    g: GameModel,
    cfg: ChessConfig,
    p: Player,
    source: Square,
    destination: Square,
    promotion: Option<Role>,
)
    requires
        g.spec_move_piece(source, destination, promotion) is Err,
    ensures
        ({
            let (g2, out, ctl) = spec_handle(
                g,
                cfg,
                Some(p),
                ChessRequest::MovePiece { source, destination, promotion },
            );
            &&& g2 == g
            &&& ctl == Control::Continue
            &&& out.len() == 1
            &&& out[0].0 == recipient_of(p)
            &&& out[0].1 matches UpdateView::MovePieceFailedResponse { fen, .. } && fen == g.position
        }),
{
}

/// A player who may not undo is told so, and the game does not change.
pub proof fn law_undo_not_permitted(g: GameModel, cfg: ChessConfig, moves: u16)
    requires
        !cfg.can_white_undo,
    ensures
        spec_handle(g, cfg, Some(Player::White), ChessRequest::UndoMoves { moves }).0 == g,
        spec_handle(g, cfg, Some(Player::White), ChessRequest::UndoMoves { moves }).1 == seq![
            (Recipient::White, UpdateView::UndoMovesFailedResponse { message: undo_not_permitted() }),
        ],
{
    assert(spec_handle(g, cfg, Some(Player::White), ChessRequest::UndoMoves { moves }).1 =~= seq![
        (Recipient::White, UpdateView::UndoMovesFailedResponse { message: undo_not_permitted() }),
    ]);
}

/// The configuration with the other player's undo permission set to `flag`.
pub open spec fn with_other_undo(cfg: ChessConfig, p: Player, flag: bool) -> ChessConfig {
    match p {
        Player::White => ChessConfig { can_black_undo: flag, ..cfg },
        Player::Black => ChessConfig { can_white_undo: flag, ..cfg },
    }
}

/// A player's permission to undo is that player's own: the other player's
/// permission changes nothing of how the game answers the player's request
/// to undo moves.
pub proof fn law_undo_permission_is_own(g: GameModel, cfg: ChessConfig, p: Player, moves: u16, flag: bool)
    ensures
        spec_handle(g, with_other_undo(cfg, p, flag), Some(p), ChessRequest::UndoMoves { moves }) == spec_handle(
            g,
            cfg,
            Some(p),
            ChessRequest::UndoMoves { moves },
        ),
{
}

/// A player who may undo, asking on their own turn in a running game to
/// take back at most as many moves as were played, gets them taken back:
/// the game is the one before those moves, the game goes on, and the last
/// updates tell everyone who undid how many moves. No refusal is sent.
pub proof fn law_permitted_undo_is_done(g: GameModel, cfg: ChessConfig, p: Player, moves: u16)
    requires
        match p {
            Player::White => cfg.can_white_undo,
            Player::Black => cfg.can_black_undo,
        },
        spec_turn(g.position) == p,
        g.outcome is None,
        moves <= g.history.len(),
    ensures
        ({
            let (g2, out, ctl) = spec_handle(g, cfg, Some(p), ChessRequest::UndoMoves { moves });
            &&& g.spec_undo(moves as nat) matches Ok(u) && g2 == u
            &&& ctl == Control::Continue
            &&& out.len() >= 3
            &&& out[out.len() - 1] == (Recipient::Spectators, UpdateView::MovesUndone { who: p, moves })
            &&& forall|i: int| 0 <= i < out.len() ==> !((#[trigger] out[i]).1 is UndoMovesFailedResponse)
        }),
{
    let (g2, out, ctl) = spec_handle(g, cfg, Some(p), ChessRequest::UndoMoves { moves });
    let u = g.spec_undo(moves as nat)->Ok_0;
    let a = change_updates(g, u);
    let b = seq![(recipient_of(spec_turn(u.position)), moves_update(u))];
    let c = to_everyone(UpdateView::MovesUndone { who: p, moves });
    assert(out =~= Seq::<(Recipient, UpdateView)>::empty() + (a + b + c));
    assert forall|i: int| 0 <= i < out.len() implies !((#[trigger] out[i]).1 is UndoMovesFailedResponse) by {
        if i < a.len() {
            assert(out[i] == a[i]);
            lemma_change_updates_no_undo_refusal(g, u, i);
        } else if i < a.len() + 1 {
            assert(out[i] == b[0]);
        } else {
            assert(out[i] == c[i - a.len() - 1]);
        }
    }
}

/// The updates about a changed game hold no refusal.
proof fn lemma_change_updates_no_undo_refusal(before: GameModel, after: GameModel, i: int)
    requires
        0 <= i < change_updates(before, after).len(),
    ensures
        !(change_updates(before, after)[i].1 is UndoMovesFailedResponse),
{
    let o = if before.outcome != after.outcome {
        to_everyone(UpdateView::Outcome { outcome: after.outcome })
    } else {
        Seq::empty()
    };
    let w = to_everyone(UpdateView::PlayerSwitch { player: spec_turn(after.position), fen: after.position });
    if i < o.len() {
        assert(change_updates(before, after)[i] == o[i]);
    } else {
        assert(change_updates(before, after)[i] == w[i - o.len()]);
    }
}

fn copy_pairs(v: &Vec<(Square, Square)>) -> (r: Vec<(Square, Square)>)
    ensures
        r@ == v@,
{
    let mut out: Vec<(Square, Square)> = Vec::new();
    let mut i: usize = 0;
    while i < v.len()
        invariant
            i <= v.len(),
            out@ == v@.take(i as int),
        decreases v.len() - i,
    {
        out.push(v[i]);
        i = i + 1;
        proof {
            assert(out@ =~= v@.take(i as int));
        }
    }
    assert(v@.take(v.len() as int) =~= v@);
    out
}

/// A copy of an update.
pub fn copy_update(u: &ChessUpdate) -> (r: ChessUpdate)
    ensures
        r@ == u@,
{
    match u {
        ChessUpdate::Board { fen } => ChessUpdate::Board { fen: fen.clone() },
        ChessUpdate::PlayerMovedAPiece { player, moved_piece_source, moved_piece_destination } =>
            ChessUpdate::PlayerMovedAPiece {
            player: *player,
            moved_piece_source: *moved_piece_source,
            moved_piece_destination: *moved_piece_destination,
        },
        ChessUpdate::PlayerSwitch { player, fen } => ChessUpdate::PlayerSwitch { player: *player, fen: fen.clone() },
        ChessUpdate::MovePieceFailedResponse { message, fen } => ChessUpdate::MovePieceFailedResponse {
            message: message.clone(),
            fen: fen.clone(),
        },
        ChessUpdate::Outcome { outcome } => ChessUpdate::Outcome { outcome: *outcome },
        ChessUpdate::PossibleMoves { possible_moves } => ChessUpdate::PossibleMoves {
            possible_moves: copy_pairs(possible_moves),
        },
        ChessUpdate::GenericErrorResponse { message } => ChessUpdate::GenericErrorResponse {
            message: message.clone(),
        },
        ChessUpdate::UndoMovesFailedResponse { message } => ChessUpdate::UndoMovesFailedResponse {
            message: message.clone(),
        },
        ChessUpdate::MovesUndone { who, moves } => ChessUpdate::MovesUndone { who: *who, moves: *moves },
        ChessUpdate::CurrentTotalMovesReponse { total_moves } => ChessUpdate::CurrentTotalMovesReponse {
            total_moves: *total_moves,
        },
    }
}

fn send(out: &mut Vec<Envelope>, to: Recipient, update: ChessUpdate)
    ensures
        outbox_view(final(out)@) == outbox_view(old(out)@).push((to, update@)),
{
    let ghost before = out@;
    out.push(Envelope { to, update });
    proof {
        assert(outbox_view(out@) =~= outbox_view(before).push((to, update@)));
    }
}

fn send_to_everyone(out: &mut Vec<Envelope>, update: ChessUpdate)
    ensures
        outbox_view(final(out)@) == outbox_view(old(out)@) + to_everyone(update@),
{
    let ghost before = outbox_view(out@);
    let a = copy_update(&update);
    let b = copy_update(&update);
    send(out, Recipient::White, a);
    send(out, Recipient::Black, b);
    send(out, Recipient::Spectators, update);
    proof {
        assert(outbox_view(out@) =~= before + to_everyone(update@));
    }
}

fn recipient(p: Player) -> (r: Recipient)
    ensures
        r == recipient_of(p),
{
    match p {
        Player::White => Recipient::White,
        Player::Black => Recipient::Black,
    }
}

fn same_outcome(a: Option<ChessOutcome>, b: Option<ChessOutcome>) -> (r: bool)
    ensures
        r == (a == b),
{
    match (a, b) {
        (None, None) => true,
        (Some(x), Some(y)) => x == y,
        _ => false,
    }
}

fn denied_message(e: &GameError) -> (r: String)
    ensures
        r@ == denied(*e),
{
    let mut s = String::from_str("Denied by engine: ");
    let m = e.message();
    push_str(&mut s, m.as_str());
    s
}

/// The game server: a game and how it was set up.
pub struct GameServer {
    game: ChessGame,
    config: ChessConfig,
}

impl GameServer {
    /// The game being served.
    pub closed spec fn game_model(&self) -> GameModel {
        self.game@
    }

    /// How the game was set up.
    pub closed spec fn config(&self) -> ChessConfig {
        self.config
    }

    /// The server's game is consistent.
    pub open spec fn wf(&self) -> bool {
        self.game_model().wf()
    }

    /// The game being served.
    pub fn game(&self) -> (r: &ChessGame)
        ensures
            r@ == self.game_model(),
    {
        &self.game
    }

    /// The first updates of a game: whose turn it is with the position, to
    /// everyone, and the legal moves to the player to move.
    pub open spec fn spec_start_updates(g: GameModel) -> Seq<(Recipient, UpdateView)> {
        to_everyone(UpdateView::PlayerSwitch { player: spec_turn(g.position), fen: g.position })
            + seq![(recipient_of(spec_turn(g.position)), moves_update(g))]
    }

    /// Sets up a game from the configuration (from its FEN, or from the
    /// standard starting position) and gives the first updates.
    pub fn start(config: ChessConfig) -> (r: Result<(GameServer, Vec<Envelope>), GameError>)
        ensures
            match config.starting_fen {
                Some(fen) => match spec_read_fen(fen@) {
                    Ok(p) => r matches Ok((s, out)) && s.game_model() == GameModel::fresh(p),
                    Err(e) => r matches Err(err) && crate::game::is_fen_error(err, e, fen@),
                },
                None => r matches Ok((s, out)) && s.game_model() == GameModel::fresh(
                    crate::engine::spec_start_fen(),
                ),
            },
            r matches Ok((s, out)) ==> s.wf() && s.config() == config && outbox_view(out@)
                == Self::spec_start_updates(s.game_model()),
    {
        let game = match &config.starting_fen {
            Some(fen) => ChessGame::from_fen(fen.as_str())?,
            None => ChessGame::new(),
        };
        let mut out: Vec<Envelope> = Vec::new();
        let player = game.turn();
        send_to_everyone(&mut out, ChessUpdate::PlayerSwitch { player, fen: game.fen() });
        let possible_moves = moves_to_square_pairs(&game);
        send(&mut out, recipient(player), ChessUpdate::PossibleMoves { possible_moves });
        proof {
            assert(outbox_view(out@) =~= Self::spec_start_updates(game@));
        }
        Ok((GameServer { game, config }, out))
    }

    /// Handles one request from a player (`Some`) or a spectator (`None`):
    /// changes the game, gives the updates to send in order, and says
    /// whether to go on serving the game.
    pub fn handle(&mut self, sender: Option<Player>, request: ChessRequest) -> (r: (Vec<Envelope>, Control))
        requires
            old(self).wf(),
            request is MovePiece ==> old(self).game_model().moves < u16::MAX,
        ensures
            final(self).wf(),
            final(self).config() == old(self).config(),
            ({
                let (g, out, ctl) = spec_handle(
                    old(self).game_model(),
                    old(self).config(),
                    sender,
                    request,
                );
                final(self).game_model() == g && outbox_view(r.0@) == out && r.1 == ctl
            }),
    {
        let mut out: Vec<Envelope> = Vec::new();
        let ghost g0 = self.game@;
        if sender.is_none() && !request.available_to_spectator() {
            send(
                &mut out,
                Recipient::Spectators,
                ChessUpdate::GenericErrorResponse {
                    message: String::from_str("Spectators can't send this kind of request!"),
                },
            );
            return (out, Control::Continue);
        }
        let to = match sender {
            Some(p) => recipient(p),
            None => Recipient::Spectators,
        };
        match request {
            ChessRequest::CurrentBoard => {
                send(&mut out, to, ChessUpdate::Board { fen: self.game.fen() });
            },
            ChessRequest::CurrentTotalMoves => {
                send(
                    &mut out,
                    to,
                    ChessUpdate::CurrentTotalMovesReponse { total_moves: self.game.total_moves() },
                );
            },
            ChessRequest::CurrentOutcome => {
                send(&mut out, to, ChessUpdate::Outcome { outcome: self.game.outcome() });
            },
            _ => {},
        }
        let ghost first = outbox_view(out@);
        let player = match sender {
            Some(p) => p,
            None => {
                return (out, Control::Failed(ProtocolError::NoSender));
            },
        };
        match request {
            ChessRequest::MovePiece { source, destination, promotion } => {
                let prev_outcome = self.game.outcome();
                match self.game.move_piece(source, destination, promotion) {
                    Ok(_) => {
                        send_to_everyone(
                            &mut out,
                            ChessUpdate::PlayerMovedAPiece {
                                player,
                                moved_piece_source: source,
                                moved_piece_destination: destination,
                            },
                        );
                        let new_outcome = self.game.outcome();
                        if !same_outcome(prev_outcome, new_outcome) {
                            send_to_everyone(&mut out, ChessUpdate::Outcome { outcome: new_outcome });
                        }
                        send_to_everyone(
                            &mut out,
                            ChessUpdate::PlayerSwitch { player: self.game.turn(), fen: self.game.fen() },
                        );
                        if new_outcome.is_none() {
                            let possible_moves = moves_to_square_pairs(&self.game);
                            send(
                                &mut out,
                                recipient(player.other_player()),
                                ChessUpdate::PossibleMoves { possible_moves },
                            );
                        }
                        proof {
                            let g2 = self.game@;
                            assert(outbox_view(out@) =~= first + move_updates(
                                g0,
                                g2,
                                player,
                                source,
                                destination,
                            ));
                        }
                    },
                    Err(e) => {
                        send(
                            &mut out,
                            recipient(player),
                            ChessUpdate::MovePieceFailedResponse {
                                message: denied_message(&e),
                                fen: self.game.fen(),
                            },
                        );
                    },
                }
                (out, Control::Continue)
            },
            ChessRequest::Abort { .. } => {
                self.game.player_left(player);
                (out, Control::Finished)
            },
            ChessRequest::UndoMoves { moves } => {
                self.undo_request(&mut out, player, moves);
                (out, Control::Continue)
            },
            _ => (out, Control::Failed(ProtocolError::UnhandledRequest)),
        }
    }

    fn undo_request(&mut self, out: &mut Vec<Envelope>, player: Player, moves: u16)
        requires
            old(self).wf(),
        ensures
            final(self).wf(),
            final(self).config() == old(self).config(),
            ({
                let (g, sent) = undo_request(old(self).game_model(), old(self).config(), player, moves);
                final(self).game_model() == g && outbox_view(final(out)@) == outbox_view(old(out)@)
                    + sent
            }),
    {
        let ghost before = outbox_view(out@);
        let ghost g0 = self.game@;
        let player_allowed = match player {
            Player::Black => self.config.can_black_undo,
            Player::White => self.config.can_white_undo,
        };
        if !player_allowed {
            send(
                out,
                recipient(player),
                ChessUpdate::UndoMovesFailedResponse {
                    message: String::from_str("You are not permitted to do that in this game."),
                },
            );
            proof {
                assert(outbox_view(out@) =~= before + undo_request(g0, self.config, player, moves).1);
            }
            return ;
        }
        let turn = self.game.turn();
        let outcome = self.game.outcome();
        if !(turn == player && outcome.is_none() || outcome.is_some() && self.config.allow_undo_after_loose) {
            if self.config.allow_undo_after_loose {
                send(
                    out,
                    recipient(player),
                    ChessUpdate::UndoMovesFailedResponse {
                        message: String::from_str(
                            "You can only undo when you are playing or it's game over.",
                        ),
                    },
                );
            } else {
                send(
                    out,
                    recipient(player),
                    ChessUpdate::UndoMovesFailedResponse {
                        message: String::from_str("You can only undo when you are playing."),
                    },
                );
            }
            proof {
                assert(outbox_view(out@) =~= before + undo_request(g0, self.config, player, moves).1);
            }
            return ;
        }
        let prev_outcome = self.game.outcome();
        match self.game.undo(moves) {
            Err(e) => {
                send(
                    out,
                    recipient(player),
                    ChessUpdate::UndoMovesFailedResponse { message: denied_message(&e) },
                );
                proof {
                    assert(outbox_view(out@) =~= before + undo_request(g0, self.config, player, moves).1);
                }
            },
            Ok(_) => {
                let new_outcome = self.game.outcome();
                if !same_outcome(prev_outcome, new_outcome) {
                    send_to_everyone(out, ChessUpdate::Outcome { outcome: new_outcome });
                }
                let next = self.game.turn();
                send_to_everyone(out, ChessUpdate::PlayerSwitch { player: next, fen: self.game.fen() });
                let possible_moves = moves_to_square_pairs(&self.game);
                send(out, recipient(next), ChessUpdate::PossibleMoves { possible_moves });
                send_to_everyone(out, ChessUpdate::MovesUndone { who: player, moves });
                proof {
                    assert(outbox_view(out@) =~= before + undo_request(g0, self.config, player, moves).1);
                }
            },
        }
    }
}

} // verus!
