//! Replaying a recorded game move by move, with moves of the user's own in
//! between.

use vstd::prelude::*;
use crate::engine::{spec_legal_moves, spec_read_fen, spec_start_fen, spec_turn, ChessMove, Piece, Role};
use crate::game::{ChessGame, GameModel, file_pred, lemma_first_match, piece_move_candidates, piece_move_pred};
use crate::player::{str_equals, Player};
use crate::square::Square;
use crate::text::push_str;

verus! {

/// A move as a game record writes it.
#[derive(Clone, Debug, PartialEq)]
pub enum PgnMove {
    /// A piece moves to a square; the record may name the file and the rank
    /// (indices from 0) it starts from.
    BasicMove { piece: Role, to: Square, from_file: Option<u8>, from_rank: Option<u8> },
    /// Castling on the king's side.
    CastleKingside,
    /// Castling on the queen's side.
    CastleQueenside,
}

/// A recorded move and the comment after it.
#[derive(Clone, Debug)]
pub struct PgnGameMove {
    pub mv: PgnMove,
    pub comment: Option<String>,
}

/// How a recorded game ended.
#[derive(PartialEq, Eq, Structural, Copy, Clone, Debug)]
pub enum GameTermination {
    WhiteWins,
    BlackWins,
    DrawnGame,
    Unknown,
}

/// A recorded game: its tags (name and value), its moves and how it ended.
#[derive(Clone, Debug)]
pub struct ReplayInfo {
    pub tags: Vec<(String, String)>,
    pub moves: Vec<PgnGameMove>,
    pub termination: GameTermination,
}

/// What the replay shows after a step.
#[derive(Clone, Debug)]
pub struct ReplayResponse {
    pub fen: String,
    pub comment: Option<String>,
    pub last_move_from: Option<Square>,
    pub last_move_to: Option<Square>,
}

/// The abstract content of a replay response.
pub struct ResponseView {
    pub fen: Seq<char>,
    pub comment: Option<Seq<char>>,
    pub last_move_from: Option<Square>,
    pub last_move_to: Option<Square>,
}

impl View for ReplayResponse {
    type V = ResponseView;

    open spec fn view(&self) -> ResponseView {
        ResponseView {
            fen: self.fen@,
            comment: match self.comment {
                Some(c) => Some(c@),
                None => None,
            },
            last_move_from: self.last_move_from,
            last_move_to: self.last_move_to,
        }
    }
}

/// The text added to the comment of the last recorded move.
pub open spec fn termination_text(t: GameTermination) -> Seq<char> {
    match t {
        GameTermination::WhiteWins => " Game Over: White Won"@,
        GameTermination::BlackWins => " Game Over: Black Won"@,
        GameTermination::DrawnGame => " Game Over: Draw"@,
        GameTermination::Unknown => " Game Over: Unknown"@,
    }
}

/// The text added to the comment of the last recorded move.
pub fn termination_string_from(t: GameTermination) -> (r: &'static str)
    ensures
        r@ == termination_text(t),
{
    match t {
        GameTermination::WhiteWins => " Game Over: White Won",
        GameTermination::BlackWins => " Game Over: Black Won",
        GameTermination::DrawnGame => " Game Over: Draw",
        GameTermination::Unknown => " Game Over: Unknown",
    }
}

/// The comment shown when a recorded move cannot be played.
pub open spec fn invalid_move_text() -> Seq<char> {
    "Error playing replay move, please check your PGN's validity"@
}

/// The comment shown when the user's own moves stand in the way.
pub open spec fn undo_manual_text() -> Seq<char> {
    "Undo Manual Moves before proceeding with replay"@
}

/// The value of the first tag with the given name.
pub open spec fn tag_value(tags: Seq<(String, String)>, name: Seq<char>) -> Option<Seq<char>>
    decreases tags.len(),
{
    if tags.len() == 0 {
        None
    } else if tags[0].0@ == name {
        Some(tags[0].1@)
    } else {
        tag_value(tags.drop_first(), name)
    }
}

/// The starting position a record names in its `FEN` tag, if any.
pub open spec fn fen_tag(info: ReplayInfo) -> Option<Seq<char>> {
    tag_value(info.tags@, "FEN"@)
}

/// The piece, destination, start file and start rank that a recorded move
/// stands for, for the side to move. Castling is the king's move from the
/// `E` file to the `G` file (king's side) or the `C` file (queen's side) of
/// its home rank.
pub open spec fn recorded_move_args(mv: PgnMove, white_turn: bool) -> (Piece, Square, Option<u8>, Option<u8>) {
    let color = if white_turn {
        Player::White
    } else {
        Player::Black
    };
    let home: u8 = if white_turn {
        0
    } else {
        7
    };
    match mv {
        PgnMove::BasicMove { piece, to, from_file, from_rank } => (
            Piece { color, role: piece },
            to,
            from_file,
            from_rank,
        ),
        PgnMove::CastleKingside => (Piece { color, role: Role::King }, Square::at(6, home as int), Some(4u8), Some(home)),
        PgnMove::CastleQueenside => (Piece { color, role: Role::King }, Square::at(2, home as int), Some(4u8), Some(home)),
    }
}

/// A recorded move names a piece of the side to move, its destination, and
/// hints as recorded: the file hint is the start file and the rank hint the
/// start rank.
pub proof fn law_recorded_hints(piece: Role, to: Square, from_file: Option<u8>, from_rank: Option<u8>, white_turn: bool)
    ensures
        ({
            let args = recorded_move_args(
                PgnMove::BasicMove { piece, to, from_file, from_rank },
                white_turn,
            );
            &&& args.0.role == piece
            &&& args.0.color == (if white_turn { Player::White } else { Player::Black })
            &&& args.1 == to
            &&& args.2 == from_file
            &&& args.3 == from_rank
        }),
{
}

/// The abstract state of a replay.
pub struct ReplayModel {
    pub game: GameModel,
    pub replay_moves: nat,
    pub player_moves: nat,
    pub white_turn: bool,
}

impl ReplayModel {
    /// A consistent replay: the game is consistent and its undo history
    /// holds exactly the recorded and the user's moves played.
    pub open spec fn wf(self, info: ReplayInfo) -> bool {
        &&& self.game.wf()
        &&& self.replay_moves <= info.moves@.len()
        &&& self.game.history.len() == self.replay_moves + self.player_moves
    }
}

/// The abstract content of an optional comment.
pub open spec fn comment_view(c: Option<String>) -> Option<Seq<char>> {
    match c {
        Some(s) => Some(s@),
        None => None,
    }
}

/// A response that shows a position and maybe a comment, with no move.
pub open spec fn plain_response(fen: Seq<char>, comment: Option<Seq<char>>) -> ResponseView {
    ResponseView { fen, comment, last_move_from: None, last_move_to: None }
}

/// Playing the next recorded move: it is played only when the user has no
/// moves of their own on the board; the comment after the last recorded
/// move tells how the game ended.
pub open spec fn spec_play_replay_move(r: ReplayModel, info: ReplayInfo) -> (ReplayModel, ResponseView) {
    if r.replay_moves + 1 <= info.moves@.len() && r.player_moves == 0 {
        let gm = info.moves@[r.replay_moves as int];
        let c0 = comment_view(gm.comment);
        let args = recorded_move_args(gm.mv, r.white_turn);
        match r.game.spec_move_piece_by_type(args.0, args.1, args.2, args.3) {
            Ok((g2, src)) => {
                let r2 = ReplayModel {
                    game: g2,
                    replay_moves: r.replay_moves + 1,
                    player_moves: r.player_moves,
                    white_turn: !r.white_turn,
                };
                let comment = if r2.replay_moves == info.moves@.len() {
                    Some(
                        match c0 {
                            Some(c) => c,
                            None => Seq::empty(),
                        } + termination_text(info.termination),
                    )
                } else {
                    c0
                };
                (
                    r2,
                    ResponseView {
                        fen: g2.position,
                        comment,
                        last_move_from: Some(src),
                        last_move_to: Some(args.1),
                    },
                )
            },
            Err(_) => (r, plain_response(r.game.position, Some(invalid_move_text()))),
        }
    } else if r.player_moves > 0 {
        (r, plain_response(r.game.position, Some(undo_manual_text())))
    } else {
        (r, plain_response(r.game.position, None))
    }
}

/// A move of the user's own: it is counted when the game accepts it; the
/// response shows the clicked squares either way.
pub open spec fn spec_player_move(r: ReplayModel, source: Square, destination: Square) -> (ReplayModel, ResponseView) {
    let r2 = match r.game.spec_move_piece(source, destination, None) {
        Ok(g2) => ReplayModel { game: g2, player_moves: r.player_moves + 1, ..r },
        Err(_) => r,
    };
    (
        r2,
        ResponseView {
            fen: r2.game.position,
            comment: None,
            last_move_from: Some(source),
            last_move_to: Some(destination),
        },
    )
}

/// Taking back a move: the user's own moves first, then recorded moves.
pub open spec fn spec_undo_move(r: ReplayModel) -> ReplayModel {
    if r.player_moves > 0 {
        ReplayModel { game: r.game.spec_undo(1)->Ok_0, player_moves: (r.player_moves - 1) as nat, ..r }
    } else if r.replay_moves > 0 {
        ReplayModel {
            game: r.game.spec_undo(1)->Ok_0,
            replay_moves: (r.replay_moves - 1) as nat,
            white_turn: !r.white_turn,
            ..r
        }
    } else {
        r
    }
}

/// A replay of a recorded game before any move: from the position of its
/// `FEN` tag, or else from the standard starting position.
pub open spec fn replay_start(info: ReplayInfo) -> ReplayModel {
    ReplayModel {
        game: GameModel::fresh(
            match fen_tag(info) {
                Some(f) => spec_read_fen(f)->Ok_0,
                None => spec_start_fen(),
            },
        ),
        replay_moves: 0,
        player_moves: 0,
        white_turn: true,
    }
}

/// The replay back at the standard starting position.
pub open spec fn spec_reset() -> ReplayModel {
    ReplayModel { game: GameModel::fresh(spec_start_fen()), replay_moves: 0, player_moves: 0, white_turn: true }
}

/// Taking back a recorded move that was just played gives back the replay
/// as it was.
pub proof fn law_undo_reverts_replay_move(r: ReplayModel, info: ReplayInfo)
    requires
        r.wf(info),
        r.game.moves < u16::MAX,
        spec_play_replay_move(r, info).0.replay_moves == r.replay_moves + 1,
    ensures
        spec_undo_move(spec_play_replay_move(r, info).0) == r,
        spec_undo_move(spec_play_replay_move(r, info).0).game.position == r.game.position,
        spec_play_replay_move(spec_undo_move(spec_play_replay_move(r, info).0), info) == spec_play_replay_move(
            r,
            info,
        ),
{
    let gm = info.moves@[r.replay_moves as int];
    let args = recorded_move_args(gm.mv, r.white_turn);
    crate::game::law_undo_reverts_piece_move(r.game, args.0, args.1, args.2, args.3);
}

/// Taking back a move of the user's own that was just played gives back
/// the replay as it was.
pub proof fn law_undo_reverts_player_move(r: ReplayModel, source: Square, destination: Square)
    requires
        r.game.wf(),
        r.game.moves < u16::MAX,
        spec_player_move(r, source, destination).0.player_moves == r.player_moves + 1,
    ensures
        spec_undo_move(spec_player_move(r, source, destination).0) == r,
{
    crate::game::law_undo_reverts_move(r.game, source, destination, None);
}

/// A recorded move whose file hint names the start file of one of the legal
/// moves of that piece to that square is played, from that file when the
/// record is ambiguous.
pub proof fn law_file_hint_picks_move(r: ReplayModel, info: ReplayInfo, piece: Role, to: Square, f: u8, from_rank: Option<u8>)
    requires
        r.replay_moves < info.moves@.len(),
        r.player_moves == 0,
        r.game.outcome is None,
        info.moves@[r.replay_moves as int].mv == (PgnMove::BasicMove { piece, to, from_file: Some(f), from_rank }),
        spec_turn(r.game.position) == (if r.white_turn { Player::White } else { Player::Black }),
        exists|i: int|
            0 <= i < piece_move_candidates(r.game.position, Piece { color: spec_turn(r.game.position), role: piece }, to).len()
                && #[trigger] file_pred(f)(
                piece_move_candidates(r.game.position, Piece { color: spec_turn(r.game.position), role: piece }, to)[i],
            ),
    ensures
        ({
            let (r2, resp) = spec_play_replay_move(r, info);
            let c = piece_move_candidates(r.game.position, Piece { color: spec_turn(r.game.position), role: piece }, to);
            &&& r2.replay_moves == r.replay_moves + 1
            &&& resp.last_move_to == Some(to)
            &&& resp.last_move_from matches Some(s) && (c.len() > 1 ==> s.file() == f)
        }),
{
    let side = spec_turn(r.game.position);
    let c = piece_move_candidates(r.game.position, Piece { color: side, role: piece }, to);
    let pred = piece_move_pred(Piece { color: side, role: piece }, side, to);
    lemma_first_match(c, file_pred(f));
    assert forall|i: int| 0 <= i < c.len() implies !(#[trigger] c[i] is Put) by {
        spec_legal_moves(r.game.position).lemma_filter_pred(pred, i);
    }
}

/// While moves of the user's own are on the board, the recorded game does
/// not go on.
pub proof fn law_manual_moves_block_replay(r: ReplayModel, info: ReplayInfo)
    requires
        r.player_moves > 0,
    ensures
        spec_play_replay_move(r, info).0 == r,
        spec_play_replay_move(r, info).1.comment == Some(undo_manual_text()),
{
}

/// A replay of a recorded game.
pub struct Replay {
    active_game: ChessGame,
    replay_info: ReplayInfo,
    replay_moves_played_offset: usize,
    player_moves_played_offset: usize,
    is_white_turn: bool,
}

impl View for Replay {
    type V = ReplayModel;

    closed spec fn view(&self) -> ReplayModel {
        ReplayModel {
            game: self.active_game@,
            replay_moves: self.replay_moves_played_offset as nat,
            player_moves: self.player_moves_played_offset as nat,
            white_turn: self.is_white_turn,
        }
    }
}

impl Replay {
    /// The recorded game.
    pub closed spec fn info(&self) -> ReplayInfo {
        self.replay_info
    }

    /// The replay is consistent.
    pub open spec fn wf(&self) -> bool {
        self@.wf(self.info())
    }

    /// A replay of a recorded game, from the position of its `FEN` tag or
    /// else from the standard starting position.
    pub fn new(replay_info: ReplayInfo) -> (r: Replay)
        requires
            fen_tag(replay_info) matches Some(f) ==> spec_read_fen(f) is Ok,
        ensures
            r.wf(),
            r.info() == replay_info,
            r@ == replay_start(replay_info),
    {
        let game = match find_tag(&replay_info.tags, "FEN") {
            Some(fen) => match ChessGame::from_fen(fen.as_str()) {
                Ok(g) => g,
                Err(_) => {
                    proof {
                        assert(false);
                    }
                    ChessGame::new()
                },
            },
            None => ChessGame::new(),
        };
        Replay {
            active_game: game,
            replay_info,
            replay_moves_played_offset: 0,
            player_moves_played_offset: 0,
            is_white_turn: true,
        }
    }

    /// A replay of a recorded game, or none when its `FEN` tag does not give
    /// a position.
    pub fn try_new(replay_info: ReplayInfo) -> (r: Option<Replay>)
        ensures
            r is None <==> (fen_tag(replay_info) matches Some(f) && spec_read_fen(f) is Err),
            r matches Some(rp) ==> rp.wf() && rp.info() == replay_info && rp@ == replay_start(replay_info),
    {
        if fen_tag_readable(&replay_info) {
            Some(Replay::new(replay_info))
        } else {
            None
        }
    }

    /// The number of moves on the board.
    pub fn total_moves(&self) -> (r: u16)
        ensures
            r == self@.game.moves,
    {
        self.active_game.total_moves()
    }

    /// The legal moves in the current position.
    pub fn possible_moves(&self) -> (r: Vec<ChessMove>)
        requires
            self.wf(),
        ensures
            r@ == spec_legal_moves(self@.game.position),
            forall|i: int| 0 <= i < r.len() ==> !(r[i] is Put) && r[i].wf(),
    {
        self.active_game.possible_moves()
    }

    /// Plays the next recorded move.
    pub fn play_replay_move(&mut self) -> (r: ReplayResponse)
        requires
            old(self).wf(),
            old(self)@.game.moves < u16::MAX,
        ensures
            final(self).wf(),
            final(self).info() == old(self).info(),
            (final(self)@, r@) == spec_play_replay_move(old(self)@, old(self).info()),
    {
        let mut comment: Option<String> = None;
        let mut last_move_from: Option<Square> = None;
        let mut last_move_to: Option<Square> = None;
        let n = self.replay_info.moves.len();
        if self.replay_moves_played_offset + 1 <= n && self.player_moves_played_offset == 0 {
            let k = self.replay_moves_played_offset;
            comment = match &self.replay_info.moves[k].comment {
                Some(c) => Some(c.clone()),
                None => None,
            };
            let white = self.is_white_turn;
            let color = if white {
                Player::White
            } else {
                Player::Black
            };
            let home: u8 = if white {
                0
            } else {
                7
            };
            let (piece, destination, src_col, src_row) = match &self.replay_info.moves[k].mv {
                PgnMove::BasicMove { piece, to, from_file, from_rank } => (
                    Piece { color, role: *piece },
                    *to,
                    *from_file,
                    *from_rank,
                ),
                PgnMove::CastleKingside => (
                    Piece { color, role: Role::King },
                    Square(home * 8 + 6),
                    Some(4u8),
                    Some(home),
                ),
                PgnMove::CastleQueenside => (
                    Piece { color, role: Role::King },
                    Square(home * 8 + 2),
                    Some(4u8),
                    Some(home),
                ),
            };
            match self.active_game.move_piece_by_type(piece, destination, src_col, src_row) {
                Ok((src, dest)) => {
                    last_move_from = Some(src);
                    last_move_to = Some(dest);
                    self.is_white_turn = !self.is_white_turn;
                    self.replay_moves_played_offset = self.replay_moves_played_offset + 1;
                    if self.replay_moves_played_offset == n {
                        let mut last_move_comment = match comment {
                            Some(c) => c,
                            None => String::new(),
                        };
                        push_str(
                            &mut last_move_comment,
                            termination_string_from(self.replay_info.termination),
                        );
                        comment = Some(last_move_comment);
                    }
                },
                Err(_) => {
                    comment = Some(
                        String::from_str("Error playing replay move, please check your PGN's validity"),
                    );
                },
            }
        } else if self.player_moves_played_offset > 0 {
            comment = Some(String::from_str("Undo Manual Moves before proceeding with replay"));
        }
        ReplayResponse { fen: self.active_game.fen(), comment, last_move_from, last_move_to }
    }

    /// Plays a move of the user's own.
    pub fn player_move(&mut self, source: Square, destination: Square) -> (r: ReplayResponse)
        requires
            old(self).wf(),
            old(self)@.game.moves < u16::MAX,
        ensures
            final(self).wf(),
            final(self).info() == old(self).info(),
            (final(self)@, r@) == spec_player_move(old(self)@, source, destination),
    {
        match self.active_game.move_piece(source, destination, None) {
            Ok(_) => {
                self.player_moves_played_offset = self.player_moves_played_offset + 1;
            },
            Err(_) => {},
        }
        ReplayResponse {
            fen: self.active_game.fen(),
            comment: None,
            last_move_from: Some(source),
            last_move_to: Some(destination),
        }
    }

    /// Takes back the last move: one of the user's own if there are any,
    /// else the last recorded move played.
    pub fn undo_move(&mut self) -> (r: ReplayResponse)
        requires
            old(self).wf(),
        ensures
            final(self).wf(),
            final(self).info() == old(self).info(),
            final(self)@ == spec_undo_move(old(self)@),
            r@ == plain_response(final(self)@.game.position, None),
    {
        if self.player_moves_played_offset > 0 {
            let _ = self.active_game.undo(1);
            self.player_moves_played_offset = self.player_moves_played_offset - 1;
        } else if self.replay_moves_played_offset > 0 {
            let _ = self.active_game.undo(1);
            self.replay_moves_played_offset = self.replay_moves_played_offset - 1;
            self.is_white_turn = !self.is_white_turn;
        }
        ReplayResponse {
            fen: self.active_game.fen(),
            comment: None,
            last_move_from: None,
            last_move_to: None,
        }
    }

    /// Goes back to the standard starting position with no move played.
    pub fn reset(&mut self) -> (r: ReplayResponse)
        requires
            old(self).wf(),
        ensures
            final(self).wf(),
            final(self).info() == old(self).info(),
            final(self)@ == spec_reset(),
            r@ == plain_response(spec_start_fen(), None),
    {
        self.active_game = ChessGame::default();
        self.replay_moves_played_offset = 0;
        self.player_moves_played_offset = 0;
        self.is_white_turn = true;
        ReplayResponse {
            fen: self.active_game.fen(),
            comment: None,
            last_move_from: None,
            last_move_to: None,
        }
    }
}

/// Whether a recorded game's `FEN` tag, if it has one, gives a position.
pub fn fen_tag_readable(replay_info: &ReplayInfo) -> (r: bool)
    ensures
        r == !(fen_tag(*replay_info) matches Some(f) && spec_read_fen(f) is Err),
{
    match find_tag(&replay_info.tags, "FEN") {
        Some(fen) => crate::engine::read_fen(fen.as_str()).is_ok(),
        None => true,
    }
}

/// The FEN tag's value, if the tags have one.
fn find_tag<'a>(tags: &'a Vec<(String, String)>, name: &str) -> (r: Option<&'a String>)
    ensures
        match tag_value(tags@, name@) {
            Some(v) => r matches Some(s) && s@ == v,
            None => r is None,
        },
{
    let n = tags.len();
    let mut i: usize = 0;
    assert(tags@.skip(0) =~= tags@);
    while i < n
        invariant
            n == tags.len(),
            i <= n,
            tag_value(tags@, name@) == tag_value(tags@.skip(i as int), name@),
        decreases n - i,
    {
        proof {
            assert(tags@.skip(i as int).drop_first() =~= tags@.skip(i + 1));
        }
        if str_equals(tags[i].0.as_str(), name) {
            return Some(&tags[i].1);
        }
        i = i + 1;
    }
    None
}

} // verus!
