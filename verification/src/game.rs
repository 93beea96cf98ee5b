//! A chess game: the current position, the positions before each move for
//! undo, the number of moves played and how the game ended.

use vstd::prelude::*;
use crate::engine::{
    board, castle_king_target, castle_target, is_checkmate, is_position, is_stalemate, legal_moves,
    no_legal_moves, play, read_fen, spec_board, spec_is_checkmate, spec_is_stalemate,
    spec_legal_moves, spec_move_dst, spec_move_src, spec_play, spec_read_fen, spec_start_fen,
    spec_turn, start_position, turn, fen_side, spec_fen_error_detail, ChessMove, FenError, Piece, Role,
};
use crate::player::Player;
use crate::square::Square;
use crate::text::{push_decimal, push_str};

pub use crate::engine::{move_dst, move_src, piece_to_char};

verus! {

/// How a game ended.
#[derive(PartialEq, Eq, Structural, Copy, Clone, Debug)]
pub enum ChessOutcome {
    /// The side to move is checkmated; the other side won.
    Checkmate { winner: Player },
    /// The side to move has no legal move but is not in check.
    Stalemate,
    /// A player left the game.
    Aborted { who: Option<Player> },
}

/// Why the game refused a request.
#[derive(PartialEq, Eq, Clone, Debug)]
pub enum GameError {
    /// The FEN text did not give a position: what went wrong and the
    /// engine's description of it.
    Fen { error: FenError, detail: String },
    /// The game has already ended.
    GameOver,
    /// The player to move has no piece on the source square.
    NoPieceOnSource,
    /// Source and destination are the same square.
    NoMovement,
    /// No legal move fits the request.
    MoveNotFound,
    /// More moves were asked to be undone than were played.
    CannotUndo { requested: u16, available: usize },
}

/// The abstract state of a game.
pub struct GameModel {
    /// The current position as FEN.
    pub position: Seq<char>,
    /// The positions before each move played, oldest first.
    pub history: Seq<Seq<char>>,
    /// The number of moves played.
    pub moves: nat,
    /// How the game ended, if it has.
    pub outcome: Option<ChessOutcome>,
}

/// The outcome after the position changed: checkmate and stalemate are read
/// off the position; otherwise an abort stands and any other outcome is
/// cleared.
pub open spec fn next_outcome(fen: Seq<char>, outcome: Option<ChessOutcome>) -> Option<ChessOutcome> {
    if spec_is_checkmate(fen) {
        Some(ChessOutcome::Checkmate { winner: spec_turn(fen).spec_other() })
    } else if spec_is_stalemate(fen) {
        Some(ChessOutcome::Stalemate)
    } else {
        match outcome {
            Some(ChessOutcome::Aborted { who }) => Some(ChessOutcome::Aborted { who }),
            _ => None,
        }
    }
}

/// Whether `player` has a piece on `square` in a position.
pub open spec fn spec_piece_on(fen: Seq<char>, player: Player, square: Square) -> bool {
    square.wf() && (spec_board(fen)[square.0 as int] matches Some(p) && p.color == player)
}

/// The index of the last element of `s` that satisfies `p`.
pub open spec fn last_match<A>(s: Seq<A>, p: spec_fn(A) -> bool) -> Option<int>
    decreases s.len(),
{
    if s.len() == 0 {
        None
    } else if p(s.last()) {
        Some(s.len() - 1)
    } else {
        last_match(s.drop_last(), p)
    }
}

/// The index of the first element of `s` that satisfies `p`.
pub open spec fn first_match<A>(s: Seq<A>, p: spec_fn(A) -> bool) -> Option<int>
    decreases s.len(),
{
    if s.len() == 0 {
        None
    } else {
        match first_match(s.drop_last(), p) {
            Some(i) => Some(i),
            None => if p(s.last()) {
                Some(s.len() - 1)
            } else {
                None
            },
        }
    }
}

pub proof fn lemma_last_match<A>(s: Seq<A>, p: spec_fn(A) -> bool)
    ensures
        last_match(s, p) matches Some(j) ==> 0 <= j < s.len() && p(s[j]),
        last_match(s, p) is None ==> forall|j: int| 0 <= j < s.len() ==> !p(#[trigger] s[j]),
    decreases s.len(),
{
    if s.len() > 0 {
        lemma_last_match(s.drop_last(), p);
        assert forall|j: int| 0 <= j < s.len() - 1 implies s.drop_last()[j] == s[j] by {}
    }
}

pub proof fn lemma_first_match<A>(s: Seq<A>, p: spec_fn(A) -> bool)
    ensures
        first_match(s, p) matches Some(j) ==> 0 <= j < s.len() && p(s[j]) && forall|k: int|
            0 <= k < j ==> !p(#[trigger] s[k]),
        first_match(s, p) is None ==> forall|j: int| 0 <= j < s.len() ==> !p(#[trigger] s[j]),
    decreases s.len(),
{
    if s.len() > 0 {
        lemma_first_match(s.drop_last(), p);
        assert forall|j: int| 0 <= j < s.len() - 1 implies s.drop_last()[j] == s[j] by {}
    }
}

/// Stepping a prefix by one element.
pub proof fn lemma_take_step<A>(s: Seq<A>, i: int)
    requires
        0 <= i < s.len(),
    ensures
        s.take(i + 1).drop_last() == s.take(i),
        s.take(i + 1).last() == s[i],
        s.take(i + 1).len() == i + 1,
{
    assert(s.take(i + 1).drop_last() =~= s.take(i));
}

/// A move that a click from `source` to `destination` asks for: its start
/// and end squares (for castling, the king's and the rook's square) are
/// the clicked ones and, where a promotion piece is asked for, the move
/// promotes to it.
pub open spec fn click_match(m: ChessMove, source: Square, destination: Square, promotion: Option<Role>) -> bool {
    match m {
        ChessMove::Normal { from, to, promotion: p, .. } => from == source && to == destination && (
        promotion is None || p == promotion),
        ChessMove::EnPassant { from, to } => from == source && to == destination && promotion is None,
        ChessMove::Castle { king, rook } => king == source && rook == destination && promotion is None,
        ChessMove::Put { .. } => false,
    }
}

/// A castling move asked for by a click on the king and on the square where
/// the king lands.
pub open spec fn castle_click_match(m: ChessMove, source: Square, destination: Square) -> bool {
    match m {
        ChessMove::Castle { king, rook } => king == source && castle_target(king, rook) == destination,
        _ => false,
    }
}

pub open spec fn click_pred(source: Square, destination: Square, promotion: Option<Role>) -> spec_fn(
    ChessMove,
) -> bool {
    |m: ChessMove| click_match(m, source, destination, promotion)
}

pub open spec fn castle_click_pred(source: Square, destination: Square) -> spec_fn(ChessMove) -> bool {
    |m: ChessMove| castle_click_match(m, source, destination)
}

/// The move of a list that a click asks for: the last move that matches
/// the click, else the last castling move whose king lands on the
/// destination.
pub open spec fn select_from(moves: Seq<ChessMove>, source: Square, destination: Square, promotion: Option<Role>) -> Option<ChessMove> {
    match last_match(moves, click_pred(source, destination, promotion)) {
        Some(i) => Some(moves[i]),
        None => match last_match(moves, castle_click_pred(source, destination)) {
            Some(i) => Some(moves[i]),
            None => None,
        },
    }
}

/// The legal move that a click asks for.
pub open spec fn spec_select_move(fen: Seq<char>, source: Square, destination: Square, promotion: Option<Role>) -> Option<ChessMove> {
    select_from(spec_legal_moves(fen), source, destination, promotion)
}

/// The kind of piece a move moves.
pub open spec fn move_role(m: ChessMove) -> Role {
    match m {
        ChessMove::Normal { role, .. } => role,
        ChessMove::EnPassant { .. } => Role::Pawn,
        ChessMove::Castle { .. } => Role::King,
        ChessMove::Put { role, .. } => role,
    }
}

/// A move of the given piece, of the side to move, to the destination.
pub open spec fn piece_move_match(m: ChessMove, piece: Piece, side: Player, destination: Square) -> bool {
    !(m is Put) && piece == (Piece { color: side, role: move_role(m) }) && spec_move_dst(m) == destination
}

pub open spec fn piece_move_pred(piece: Piece, side: Player, destination: Square) -> spec_fn(ChessMove) -> bool {
    |m: ChessMove| piece_move_match(m, piece, side, destination)
}

/// A move starting on the given file.
pub open spec fn file_pred(file: u8) -> spec_fn(ChessMove) -> bool {
    |m: ChessMove| spec_move_src(m) matches Some(s) && s.file() == file
}

/// A move starting on the given rank.
pub open spec fn rank_pred(rank: u8) -> spec_fn(ChessMove) -> bool {
    |m: ChessMove| spec_move_src(m) matches Some(s) && s.rank() == rank
}

/// The moves of a list that move the given piece of `side` to the
/// destination, in the list's order.
pub open spec fn piece_candidates(moves: Seq<ChessMove>, piece: Piece, side: Player, destination: Square) -> Seq<ChessMove> {
    moves.filter(piece_move_pred(piece, side, destination))
}

/// The legal moves of the given piece to the destination, in the engine's
/// order.
pub open spec fn piece_move_candidates(fen: Seq<char>, piece: Piece, destination: Square) -> Seq<ChessMove> {
    piece_candidates(spec_legal_moves(fen), piece, spec_turn(fen), destination)
}

/// The move of a list that a piece of `side`, a destination and an
/// optional start file and start rank (as written in a game record) stand
/// for: the only fitting move if there is one; else the first fitting move
/// from the given file; else the first fitting move from the given rank.
pub open spec fn select_piece_from(moves: Seq<ChessMove>, piece: Piece, side: Player, destination: Square, src_col: Option<u8>, src_row: Option<u8>) -> Option<ChessMove> {
    let c = piece_candidates(moves, piece, side, destination);
    if c.len() == 0 {
        None
    } else if c.len() == 1 {
        Some(c[0])
    } else {
        let by_file = match src_col {
            Some(f) => first_match(c, file_pred(f)),
            None => None,
        };
        match by_file {
            Some(i) => Some(c[i]),
            None => match src_row {
                Some(r) => match first_match(c, rank_pred(r)) {
                    Some(i) => Some(c[i]),
                    None => None,
                },
                None => None,
            },
        }
    }
}

/// The legal move that a piece, a destination and an optional start file
/// and start rank stand for, in a position.
pub open spec fn spec_select_piece_move(fen: Seq<char>, piece: Piece, destination: Square, src_col: Option<u8>, src_row: Option<u8>) -> Option<ChessMove> {
    select_piece_from(spec_legal_moves(fen), piece, spec_turn(fen), destination, src_col, src_row)
}

impl GameModel {
    /// Moving a piece of a given kind to a destination, as a game record
    /// writes a move: the new game and the move's start square.
    pub open spec fn spec_move_piece_by_type(self, piece: Piece, destination: Square, src_col: Option<u8>, src_row: Option<u8>) -> Result<(GameModel, Square), GameError> {
        if self.outcome is Some {
            Err(GameError::GameOver)
        } else {
            match spec_select_piece_move(self.position, piece, destination, src_col, src_row) {
                Some(m) => Ok(
                    (
                        self.after_move(m),
                        match spec_move_src(m) {
                            Some(s) => s,
                            None => destination,
                        },
                    ),
                ),
                None => Err(GameError::MoveNotFound),
            }
        }
    }

    /// Moving a piece from `source` to `destination`.
    pub open spec fn spec_move_piece(self, source: Square, destination: Square, promotion: Option<Role>) -> Result<GameModel, GameError> {
        if !spec_piece_on(self.position, spec_turn(self.position), source) {
            Err(GameError::NoPieceOnSource)
        } else if source == destination {
            Err(GameError::NoMovement)
        } else if self.outcome is Some {
            Err(GameError::GameOver)
        } else {
            match spec_select_move(self.position, source, destination, promotion) {
                Some(m) => Ok(self.after_move(m)),
                None => Err(GameError::MoveNotFound),
            }
        }
    }
}

impl GameModel {
    /// A consistent game: every position is the engine's FEN of a
    /// position, and the move count is the length of the history.
    pub open spec fn wf(self) -> bool {
        &&& is_position(self.position)
        &&& forall|i: int| 0 <= i < self.history.len() ==> is_position(#[trigger] self.history[i])
        &&& self.moves == self.history.len()
        &&& self.moves <= u16::MAX
    }

    /// A fresh game in a position.
    pub open spec fn fresh(fen: Seq<char>) -> GameModel {
        GameModel { position: fen, history: Seq::empty(), moves: 0, outcome: None }
    }

    /// The game after playing a move.
    pub open spec fn after_move(self, m: ChessMove) -> GameModel {
        let p = spec_play(self.position, m);
        GameModel {
            position: p,
            history: self.history.push(self.position),
            moves: self.moves + 1,
            outcome: next_outcome(p, self.outcome),
        }
    }

    /// The game with its outcome brought up to date with its position.
    pub open spec fn refreshed(self) -> GameModel {
        GameModel { outcome: next_outcome(self.position, self.outcome), ..self }
    }

    /// The game after taking back `count` moves, if that many were played.
    pub open spec fn spec_undo(self, count: nat) -> Result<GameModel, GameError> {
        if count > self.history.len() {
            Err(GameError::CannotUndo { requested: count as u16, available: self.history.len() as usize })
        } else {
            let keep = self.history.len() - count;
            let p = if count == 0 {
                self.position
            } else {
                self.history[keep]
            };
            Ok(
                GameModel {
                    position: p,
                    history: self.history.take(keep),
                    moves: (self.moves - count) as nat,
                    outcome: next_outcome(p, self.outcome),
                },
            )
        }
    }

    /// The game after a player left: the game counts as aborted by that
    /// player unless it had already ended.
    pub open spec fn spec_player_left(self, player: Player) -> GameModel {
        if self.outcome is None {
            GameModel { outcome: Some(ChessOutcome::Aborted { who: Some(player) }), ..self }
        } else {
            self
        }
    }
}

/// A chess game with a history of positions for undo.
pub struct ChessGame {
    position: String,
    history: Vec<String>,
    board_moves_played_offset: u16,
    moves_played: u16,
    outcome: Option<ChessOutcome>,
}

impl View for ChessGame {
    type V = GameModel;

    open spec fn view(&self) -> GameModel {
        self.model()
    }
}

/// The move of a list that a click from `source` to `destination` asks
/// for, as `select_from` states it.
/// The move of a list that a click from `source` to `destination` asks
/// for: the last move that matches the click, else the last castling move
/// whose king lands on `destination`.
pub fn select_move(moves: &Vec<ChessMove>, source: Square, destination: Square, promotion: Option<Role>) -> (r: Option<ChessMove>)
    requires
        forall|t: int| 0 <= t < moves.len() ==> (#[trigger] moves@[t]).wf(),
    ensures
        r == select_from(moves@, source, destination, promotion),
        r matches Some(m) ==> moves@.contains(m),
{
    let ghost ms = moves@;
    let ghost pred = click_pred(source, destination, promotion);
    let mut selected: Option<ChessMove> = None;
    let n = moves.len();
    let mut i: usize = 0;
    while i < n
        invariant
            n == moves.len(),
            ms == moves@,
            pred == click_pred(source, destination, promotion),
            i <= n,
            match last_match(ms.take(i as int), pred) {
                Some(j) => selected == Some(ms[j]),
                None => selected is None,
            },
        decreases n - i,
    {
        proof {
            lemma_take_step(ms, i as int);
            lemma_last_match(ms.take(i as int), pred);
        }
        let m = moves[i];
        let hit = match m {
            ChessMove::Normal { from, to, promotion: p, .. } => from == source && to == destination
                && match promotion {
                None => true,
                Some(want) => match p {
                    Some(got) => got == want,
                    None => false,
                },
            },
            ChessMove::EnPassant { from, to } => from == source && to == destination && promotion.is_none(),
            ChessMove::Castle { king, rook } => king == source && rook == destination && promotion.is_none(),
            ChessMove::Put { .. } => false,
        };
        assert(hit == pred(m));
        if hit {
            selected = Some(m);
        }
        i = i + 1;
        proof {
            lemma_last_match(ms.take(i as int), pred);
        }
    }
    assert(ms.take(n as int) =~= ms);
    if selected.is_none() {
        let ghost cpred = castle_click_pred(source, destination);
        let mut k: usize = 0;
        while k < n
            invariant
                n == moves.len(),
                ms == moves@,
                cpred == castle_click_pred(source, destination),
                k <= n,
                forall|t: int| 0 <= t < n ==> (#[trigger] ms[t]).wf(),
                match last_match(ms.take(k as int), cpred) {
                    Some(j) => selected == Some(ms[j]),
                    None => selected is None,
                },
            decreases n - k,
        {
            proof {
                lemma_take_step(ms, k as int);
            }
            let m = moves[k];
            let hit = match m {
                ChessMove::Castle { king, rook } => king == source && castle_king_target(king, rook)
                    == destination,
                _ => false,
            };
            assert(hit == cpred(m));
            if hit {
                selected = Some(m);
            }
            k = k + 1;
        }
        assert(ms.take(n as int) =~= ms);
    }
    proof {
        lemma_last_match(ms, pred);
        lemma_last_match(ms, castle_click_pred(source, destination));
        if let Some(m) = selected {
            let j = if last_match(ms, pred) is Some {
                last_match(ms, pred)->0
            } else {
                last_match(ms, castle_click_pred(source, destination))->0
            };
            assert(ms[j] == m);
        }
    }
    selected
}

/// The move of a list that a piece of `side`, a destination and an
/// optional start file and start rank (file and rank indices from 0) stand
/// for, as a game record writes a move: the only fitting move if there is
/// one; else the first fitting move from the given file; else the first
/// fitting move from the given rank.
pub fn select_piece_move(moves: &Vec<ChessMove>, piece: Piece, side: Player, destination: Square, src_col: Option<u8>, src_row: Option<u8>) -> (r: Option<ChessMove>)
    requires
        forall|t: int| 0 <= t < moves.len() ==> !((#[trigger] moves@[t]) is Put) && moves@[t].wf(),
    ensures
        r == select_piece_from(moves@, piece, side, destination, src_col, src_row),
        r matches Some(m) ==> moves@.contains(m),
{
    let ghost ms = moves@;
    let ghost pred = piece_move_pred(piece, side, destination);
    let mut candidates: Vec<ChessMove> = Vec::new();
    let n = moves.len();
    let mut i: usize = 0;
    while i < n
        invariant
            n == moves.len(),
            ms == moves@,
            pred == piece_move_pred(piece, side, destination),
            i <= n,
            forall|t: int| 0 <= t < n ==> !((#[trigger] ms[t]) is Put) && ms[t].wf(),
            candidates@ == ms.take(i as int).filter(pred),
            forall|t: int| 0 <= t < candidates.len() ==> ms.contains(#[trigger] candidates@[t]),
        decreases n - i,
    {
        proof {
            lemma_take_step(ms, i as int);
            reveal(Seq::filter);
        }
        let m = moves[i];
        let role = match m {
            ChessMove::Normal { role, .. } => role,
            ChessMove::EnPassant { .. } => Role::Pawn,
            ChessMove::Castle { .. } => Role::King,
            ChessMove::Put { role, .. } => role,
        };
        let hit = piece.color == side && piece.role == role && move_dst(&m) == destination;
        assert(hit == pred(m));
        if hit {
            candidates.push(m);
        }
        i = i + 1;
    }
    assert(ms.take(n as int) =~= ms);
    let ghost cs = candidates@;
    let c = candidates.len();
    if c == 0 {
        return None;
    }
    let mut selected: Option<ChessMove> = None;
    if c == 1 {
        selected = Some(candidates[0]);
    }
    if selected.is_none() {
        if let Some(col) = src_col {
            selected = first_with_file(&candidates, col);
        }
    }
    if selected.is_none() {
        if let Some(row) = src_row {
            selected = first_with_rank(&candidates, row);
        }
    }
    proof {
        if let Some(m) = selected {
            if c > 1 {
                if let Some(col) = src_col {
                    lemma_first_match(cs, file_pred(col));
                }
                if let Some(row) = src_row {
                    lemma_first_match(cs, rank_pred(row));
                }
            }
            assert(cs.contains(m));
            let t = choose|t: int| 0 <= t < cs.len() && cs[t] == m;
            assert(ms.contains(cs[t]));
        }
    }
    selected
}

/// Where a move stands in a list that holds it.
fn index_of_move(moves: &Vec<ChessMove>, m: ChessMove) -> (r: usize)
    requires
        moves@.contains(m),
    ensures
        r < moves.len(),
        moves@[r as int] == m,
{
    let mut i: usize = 0;
    while i < moves.len()
        invariant
            moves@.contains(m),
            i <= moves.len(),
            forall|t: int| 0 <= t < i ==> moves@[t] != m,
        decreases moves.len() - i,
    {
        if moves[i] == m {
            return i;
        }
        i = i + 1;
    }
    proof {
        let t = choose|t: int| 0 <= t < moves@.len() && moves@[t] == m;
        assert(moves@[t] == m);
    }
    0
}

/// The first move of a list that starts on the given file.
fn first_with_file(moves: &Vec<ChessMove>, file: u8) -> (r: Option<ChessMove>)
    ensures
        match first_match(moves@, file_pred(file)) {
            Some(i) => r == Some(moves@[i]),
            None => r is None,
        },
{
    let n = moves.len();
    let mut i: usize = 0;
    while i < n
        invariant
            n == moves.len(),
            i <= n,
            first_match(moves@.take(i as int), file_pred(file)) is None,
        decreases n - i,
    {
        proof {
            lemma_take_step(moves@, i as int);
        }
        let hit = match move_src(&moves[i]) {
            Some(s) => s.0 % 8 == file,
            None => false,
        };
        if hit {
            proof {
                assert(first_match(moves@.take(i + 1), file_pred(file)) == Some(i as int));
                lemma_first_prefix(moves@, file_pred(file), i + 1);
            }
            return Some(moves[i]);
        }
        i = i + 1;
    }
    assert(moves@.take(n as int) =~= moves@);
    None
}

/// The first move of a list that starts on the given rank.
fn first_with_rank(moves: &Vec<ChessMove>, rank: u8) -> (r: Option<ChessMove>)
    ensures
        match first_match(moves@, rank_pred(rank)) {
            Some(i) => r == Some(moves@[i]),
            None => r is None,
        },
{
    let n = moves.len();
    let mut i: usize = 0;
    while i < n
        invariant
            n == moves.len(),
            i <= n,
            first_match(moves@.take(i as int), rank_pred(rank)) is None,
        decreases n - i,
    {
        proof {
            lemma_take_step(moves@, i as int);
        }
        let hit = match move_src(&moves[i]) {
            Some(s) => s.0 / 8 == rank,
            None => false,
        };
        if hit {
            proof {
                assert(first_match(moves@.take(i + 1), rank_pred(rank)) == Some(i as int));
                lemma_first_prefix(moves@, rank_pred(rank), i + 1);
            }
            return Some(moves[i]);
        }
        i = i + 1;
    }
    assert(moves@.take(n as int) =~= moves@);
    None
}

/// A first match in a prefix is the first match of the whole sequence.
pub proof fn lemma_first_prefix<A>(s: Seq<A>, p: spec_fn(A) -> bool, k: int)
    requires
        0 <= k <= s.len(),
        first_match(s.take(k), p) is Some,
    ensures
        first_match(s, p) == first_match(s.take(k), p),
    decreases s.len() - k,
{
    if k < s.len() {
        lemma_take_step(s, k);
        lemma_first_prefix(s, p, k + 1);
    } else {
        assert(s.take(k) =~= s);
    }
}

/// Taking back `count` moves gives back the game as it was before those
/// moves: the position then, the positions before it, and as many moves
/// fewer.
pub proof fn law_undo_restores_earlier_position(g: GameModel, count: nat)
    requires
        g.wf(),
        1 <= count <= g.history.len(),
    ensures
        g.spec_undo(count) matches Ok(u) && u.position == g.history[g.history.len() - count]
            && u.history == g.history.take(g.history.len() - count) && u.moves == g.moves - count,
{
}

/// Taking back `a` moves and then `b` more is taking back `a + b` moves at
/// once: the same position, history and move count.
pub proof fn law_undo_twice(g: GameModel, a: nat, b: nat)
    requires
        g.wf(),
        a + b <= g.history.len(),
    ensures
        g.spec_undo(a) matches Ok(u1) && u1.spec_undo(b) matches Ok(u2) && g.spec_undo(a + b) matches Ok(u)
            && u2.position == u.position && u2.history == u.history && u2.moves == u.moves,
{
    let n = g.history.len();
    let u1 = g.spec_undo(a)->Ok_0;
    assert(u1.history == g.history.take(n - a));
    assert(u1.history.len() == n - a);
    if b > 0 {
        assert(u1.history[n - a - b] == g.history[n - a - b]);
    }
    assert(u1.history.take(n - a - b) =~= g.history.take(n - a - b));
}

/// The outcome after a move follows the position reached: checkmate wins
/// the game for the side that moved, stalemate ends it, and otherwise an
/// abort stands while any other outcome is cleared. Taking moves back
/// brings the outcome up to date in the same way.
pub proof fn law_outcome_follows_position(g: GameModel, m: ChessMove, count: nat)
    ensures
        ({
            let p = spec_play(g.position, m);
            let o = g.after_move(m).outcome;
            &&& spec_is_checkmate(p) ==> o == Some(ChessOutcome::Checkmate { winner: spec_turn(p).spec_other() })
            &&& !spec_is_checkmate(p) && spec_is_stalemate(p) ==> o == Some(ChessOutcome::Stalemate)
            &&& !spec_is_checkmate(p) && !spec_is_stalemate(p) ==> o == match g.outcome {
                Some(ChessOutcome::Aborted { who }) => Some(ChessOutcome::Aborted { who }),
                _ => None,
            }
        }),
        g.spec_undo(count) matches Ok(g2) ==> g2.outcome == next_outcome(g2.position, g.outcome),
{
}

/// Whether an error tells that a FEN text does not give a position, with
/// what went wrong and the engine's description of it.
pub open spec fn is_fen_error(err: GameError, e: FenError, text: Seq<char>) -> bool {
    err matches GameError::Fen { error, detail } && error == e && detail@ == spec_fen_error_detail(text)
}

impl GameError {
    /// The text of the error.
    pub open spec fn spec_message(self) -> Seq<char> {
        match self {
            GameError::Fen { error: FenError::InvalidFen, detail } => "Failed to parse FEN string: "@ + detail@,
            GameError::Fen { error: FenError::InvalidPosition, detail } => "Failed to create game board from FEN. Reason: "@
                + detail@,
            GameError::GameOver => "Can't do move since the game has already ended."@,
            GameError::NoPieceOnSource => "The playing player has no piece on the source square!"@,
            GameError::NoMovement => "Move does not actually move"@,
            GameError::MoveNotFound => "Move not found as possibility"@,
            GameError::CannotUndo { requested, available } => "Can't undo "@ + crate::text::decimal(
                requested as nat,
            ) + " moves. Only "@ + crate::text::decimal(available as nat)
                + " moves available to undo."@,
        }
    }

    /// Describes the error.
    pub fn message(&self) -> (r: String)
        ensures
            r@ == self.spec_message(),
    {
        match self {
            GameError::Fen { error: FenError::InvalidFen, detail } => {
                let mut s = String::from_str("Failed to parse FEN string: ");
                push_str(&mut s, detail.as_str());
                s
            },
            GameError::Fen { error: FenError::InvalidPosition, detail } => {
                let mut s = String::from_str("Failed to create game board from FEN. Reason: ");
                push_str(&mut s, detail.as_str());
                s
            },
            GameError::GameOver => String::from_str("Can't do move since the game has already ended."),
            GameError::NoPieceOnSource => String::from_str(
                "The playing player has no piece on the source square!",
            ),
            GameError::NoMovement => String::from_str("Move does not actually move"),
            GameError::MoveNotFound => String::from_str("Move not found as possibility"),
            GameError::CannotUndo { requested, available } => {
                let mut s = String::from_str("Can't undo ");
                push_decimal(&mut s, *requested as u64);
                push_str(&mut s, " moves. Only ");
                push_decimal(&mut s, *available as u64);
                push_str(&mut s, " moves available to undo.");
                s
            },
        }
    }
}

impl Default for ChessGame {
    /// A game from the standard starting position.
    fn default() -> (r: ChessGame)
        ensures
            r@ == GameModel::fresh(spec_start_fen()),
            r.wf(),
            spec_turn(r@.position) == Player::White,
    {
        ChessGame::new()
    }
}

impl ChessGame {
    /// The abstract state of the game.
    pub closed spec fn model(&self) -> GameModel {
        GameModel {
            position: self.position@,
            history: self.history@.map_values(|s: String| s@),
            moves: self.moves_played as nat,
            outcome: self.outcome,
        }
    }

    /// The game is consistent.
    pub open spec fn wf(&self) -> bool {
        self@.wf()
    }

    /// A game from the standard starting position.
    pub fn new() -> (r: ChessGame)
        ensures
            r@ == GameModel::fresh(spec_start_fen()),
            r.wf(),
            spec_turn(r@.position) == Player::White,
    {
        let g = ChessGame {
            position: start_position(),
            history: Vec::new(),
            board_moves_played_offset: 0,
            moves_played: 0,
            outcome: None,
        };
        proof {
            assert(g@.history =~= Seq::<Seq<char>>::empty());
        }
        g
    }

    /// A game from a position given as FEN.
    pub fn from_fen(fen: &str) -> (r: Result<ChessGame, GameError>)
        ensures
            match spec_read_fen(fen@) {
                Ok(p) => r matches Ok(g) && g@ == GameModel::fresh(p) && g.wf() && spec_turn(p) == fen_side(
                    fen@,
                ),
                Err(e) => r matches Err(err) && is_fen_error(err, e, fen@),
            },
    {
        match read_fen(fen) {
            Ok(position) => {
                let g = ChessGame {
                    position,
                    history: Vec::new(),
                    board_moves_played_offset: 0,
                    moves_played: 0,
                    outcome: None,
                };
                proof {
                    assert(g@.history =~= Seq::<Seq<char>>::empty());
                }
                Ok(g)
            },
            Err((error, detail)) => Err(GameError::Fen { error, detail }),
        }
    }

    /// The current position as FEN.
    pub fn position(&self) -> (r: &str)
        ensures
            r@ == self@.position,
    {
        self.position.as_str()
    }

    /// The current position as FEN.
    pub fn fen(&self) -> (r: String)
        ensures
            r@ == self@.position,
    {
        self.position.clone()
    }

    /// The side to move.
    pub fn turn(&self) -> (r: Player)
        requires
            self.wf(),
        ensures
            r == spec_turn(self@.position),
    {
        turn(self.position.as_str())
    }

    /// How the game ended, if it has.
    pub fn outcome(&self) -> (r: Option<ChessOutcome>)
        ensures
            r == self@.outcome,
    {
        self.outcome
    }

    /// The number of moves played.
    pub fn total_moves(&self) -> (r: u16)
        ensures
            r == self@.moves,
    {
        self.moves_played
    }

    /// The number of moves that can be undone.
    pub fn total_undoable_moves(&self) -> (r: u16)
        requires
            self.wf(),
        ensures
            r == self@.history.len(),
    {
        self.history.len() as u16
    }

    /// The legal moves in the current position.
    pub fn possible_moves(&self) -> (r: Vec<ChessMove>)
        requires
            self.wf(),
        ensures
            r@ == spec_legal_moves(self@.position),
            forall|i: int| 0 <= i < r.len() ==> !(r[i] is Put) && r[i].wf(),
            r.len() <= 256,
    {
        legal_moves(self.position.as_str())
    }

    /// Records that a player left: the game is aborted by that player,
    /// unless it had already ended.
    pub fn player_left(&mut self, player: Player)
        ensures
            final(self)@ == old(self)@.spec_player_left(player),
    {
        if self.outcome.is_none() {
            self.outcome = Some(ChessOutcome::Aborted { who: Some(player) });
        }
    }

    /// Takes back the last `count` moves.
    pub fn undo(&mut self, count: u16) -> (r: Result<(), GameError>)
        requires
            old(self).wf(),
        ensures
            final(self).wf(),
            match old(self)@.spec_undo(count as nat) {
                Ok(g) => r is Ok && final(self)@ == g,
                Err(e) => r == Err::<(), GameError>(e) && final(self)@ == old(self)@,
            },
    {
        if count as usize > self.history.len() {
            return Err(GameError::CannotUndo { requested: count, available: self.history.len() });
        }
        let ghost g0 = self@;
        let ghost n0 = self.history@.len();
        let mut i: u16 = 0;
        while i < count
            invariant
                count <= n0,
                n0 == g0.history.len(),
                g0.wf(),
                i <= count,
                self.history@.len() == n0 - i,
                self@.history =~= g0.history.take(n0 - i),
                self@.position == (if i == 0 {
                    g0.position
                } else {
                    g0.history[n0 - i]
                }),
                self@.moves == g0.moves - i,
                self@.outcome == g0.outcome,
            decreases count - i,
        {
            let ghost before = self.history@;
            proof {
                let k = n0 - i - 1;
                assert(self@.history[k] == before[k]@);
                assert(g0.history.take(n0 - i)[k] == g0.history[k]);
            }
            let prev = self.history.pop();
            match prev {
                Some(p) => {
                    proof {
                        assert(before.last()@ == g0.history[n0 - i - 1]);
                    }
                    self.position = p;
                    self.moves_played = self.moves_played - 1;
                },
                None => {},
            }
            i = i + 1;
            proof {
                assert(self@.history =~= g0.history.take(n0 - i));
            }
        }
        proof {
            assert forall|j: int| 0 <= j < self@.history.len() implies is_position(
                #[trigger] self@.history[j],
            ) by {
                assert(self@.history[j] == g0.history[j]);
            }
        }
        self.update_game_outcome();
        Ok(())
    }

    /// Moves the piece of the player to move from `source` to
    /// `destination`. Castling is asked for by the king's square and either
    /// the rook's square or the square where the king lands. Where several
    /// legal moves fit (promotions), `promotion` picks the promotion piece;
    /// without it the last fitting move in the engine's order is played.
    pub fn move_piece(&mut self, source: Square, destination: Square, promotion: Option<Role>) -> (r: Result<(), GameError>)
        requires
            old(self).wf(),
            old(self)@.moves < u16::MAX,
        ensures
            final(self).wf(),
            match old(self)@.spec_move_piece(source, destination, promotion) {
                Ok(g) => r is Ok && final(self)@ == g,
                Err(e) => r == Err::<(), GameError>(e) && final(self)@ == old(self)@,
            },
            r is Ok ==> spec_turn(final(self)@.position) == spec_turn(old(self)@.position).spec_other(),
    {
        let player = self.turn();
        if !self.piece_on_square(player, source) {
            return Err(GameError::NoPieceOnSource);
        }
        if source == destination {
            return Err(GameError::NoMovement);
        }
        if self.outcome.is_some() {
            return Err(GameError::GameOver);
        }
        let moves = legal_moves(self.position.as_str());
        match select_move(&moves, source, destination, promotion) {
            None => Err(GameError::MoveNotFound),
            Some(m) => {
                self.play_selected(m);
                Ok(())
            },
        }
    }

    /// Plays the move that a piece kind, a destination and optionally the
    /// start file and rank (file and rank indices from 0) stand for, as a
    /// game record writes it. Returns the start and end squares.
    pub fn move_piece_by_type(&mut self, piece: Piece, destination: Square, src_col: Option<u8>, src_row: Option<u8>) -> (r: Result<(Square, Square), GameError>)
        requires
            old(self).wf(),
            old(self)@.moves < u16::MAX,
        ensures
            final(self).wf(),
            match old(self)@.spec_move_piece_by_type(piece, destination, src_col, src_row) {
                Ok((g, src)) => r == Ok::<(Square, Square), GameError>((src, destination)) && final(self)@
                    == g,
                Err(e) => r == Err::<(Square, Square), GameError>(e) && final(self)@ == old(self)@,
            },
            r is Ok ==> spec_turn(final(self)@.position) == spec_turn(old(self)@.position).spec_other(),
    {
        if self.outcome.is_some() {
            return Err(GameError::GameOver);
        }
        let side = self.turn();
        let moves = legal_moves(self.position.as_str());
        match select_piece_move(&moves, piece, side, destination, src_col, src_row) {
            None => Err(GameError::MoveNotFound),
            Some(m) => {
                let src = match move_src(&m) {
                    Some(s) => s,
                    None => destination,
                };
                self.play_selected(m);
                Ok((src, destination))
            },
        }
    }

    fn play_selected(&mut self, m: ChessMove)
        requires
            old(self).wf(),
            old(self)@.moves < u16::MAX,
            spec_legal_moves(old(self)@.position).contains(m),
        ensures
            final(self).wf(),
            final(self)@ == old(self)@.after_move(m),
            spec_turn(final(self)@.position) == spec_turn(old(self)@.position).spec_other(),
    {
        let ghost g0 = self@;
        let moves = legal_moves(self.position.as_str());
        let index = index_of_move(&moves, m);
        let prev = self.position.clone();
        let next = play(self.position.as_str(), index);
        self.history.push(prev);
        self.position = next;
        self.moves_played = self.moves_played + 1;
        proof {
            assert(self@.history =~= g0.history.push(g0.position));
            assert forall|j: int| 0 <= j < self@.history.len() implies is_position(
                #[trigger] self@.history[j],
            ) by {
                if j < g0.history.len() {
                    assert(self@.history[j] == g0.history[j]);
                }
            }
        }
        self.update_game_outcome();
    }

    fn piece_on_square(&self, player: Player, square: Square) -> (r: bool)
        requires
            self.wf(),
        ensures
            r == spec_piece_on(self@.position, player, square),
    {
        if square.0 >= 64 {
            return false;
        }
        let pieces = board(self.position.as_str());
        match pieces[square.0 as usize] {
            Some(p) => p.color == player,
            None => false,
        }
    }

    fn update_game_outcome(&mut self)
        requires
            old(self).wf(),
        ensures
            final(self)@ == old(self)@.refreshed(),
    {
        if is_checkmate(self.position.as_str()) {
            let winner = self.turn().other_player();
            self.outcome = Some(ChessOutcome::Checkmate { winner });
        } else if is_stalemate(self.position.as_str()) {
            self.outcome = Some(ChessOutcome::Stalemate);
        } else {
            match self.outcome {
                Some(ChessOutcome::Aborted { .. }) => {},
                Some(_) => {
                    self.outcome = None;
                },
                None => {},
            }
        }
    }
}

/// A successful move followed by undoing one move gives back the game as
/// it was.
pub proof fn law_undo_reverts_move(
    g: GameModel,
    source: Square,
    destination: Square,
    promotion: Option<Role>,
)
    requires
        g.wf(),
        g.spec_move_piece(source, destination, promotion) is Ok,
    ensures
        g.spec_move_piece(source, destination, promotion)->Ok_0.spec_undo(1) == Ok::<GameModel, GameError>(g),
{
    let m = spec_select_move(g.position, source, destination, promotion)->0;
    let moves = spec_legal_moves(g.position);
    lemma_last_match(moves, click_pred(source, destination, promotion));
    lemma_last_match(moves, castle_click_pred(source, destination));
    let g2 = g.after_move(m);
    assert(g2.history.take(g.history.len() as int) =~= g.history);
    assert(g2.history[g.history.len() as int] == g.position);
    assert(!no_legal_moves(g.position));
}

/// A move recorded from a game record, followed by undoing one move, gives
/// back the game as it was.
pub proof fn law_undo_reverts_piece_move(
    g: GameModel,
    piece: Piece,
    destination: Square,
    src_col: Option<u8>,
    src_row: Option<u8>,
)
    requires
        g.wf(),
        g.spec_move_piece_by_type(piece, destination, src_col, src_row) is Ok,
    ensures
        g.spec_move_piece_by_type(piece, destination, src_col, src_row)->Ok_0.0.spec_undo(1) == Ok::<
            GameModel,
            GameError,
        >(g),
{
    let m = spec_select_piece_move(g.position, piece, destination, src_col, src_row)->0;
    lemma_piece_move_is_legal(g.position, piece, destination, src_col, src_row);
    let g2 = g.after_move(m);
    assert(g2.history.take(g.history.len() as int) =~= g.history);
    assert(g2.history[g.history.len() as int] == g.position);
    let moves = spec_legal_moves(g.position);
    let t = choose|t: int| 0 <= t < moves.len() && moves[t] == m;
    assert(!no_legal_moves(g.position));
}

/// The move picked for a game-record move is a legal move.
pub proof fn lemma_piece_move_is_legal(fen: Seq<char>, piece: Piece, destination: Square, src_col: Option<u8>, src_row: Option<u8>)
    requires
        spec_select_piece_move(fen, piece, destination, src_col, src_row) is Some,
    ensures
        spec_legal_moves(fen).contains(spec_select_piece_move(fen, piece, destination, src_col, src_row)->0),
{
    let c = piece_move_candidates(fen, piece, destination);
    let m = spec_select_piece_move(fen, piece, destination, src_col, src_row)->0;
    if let Some(f) = src_col {
        lemma_first_match(c, file_pred(f));
    }
    if let Some(r) = src_row {
        lemma_first_match(c, rank_pred(r));
    }
    let pred = piece_move_pred(piece, spec_turn(fen), destination);
    lemma_filter_subset(spec_legal_moves(fen), pred);
    assert(c.contains(m));
}

/// Everything a filter keeps comes from the filtered sequence.
pub proof fn lemma_filter_subset<A>(s: Seq<A>, p: spec_fn(A) -> bool)
    ensures
        forall|k: int| 0 <= k < s.filter(p).len() ==> s.contains(#[trigger] s.filter(p)[k]),
    decreases s.len(),
{
    reveal(Seq::filter);
    if s.len() > 0 {
        lemma_filter_subset(s.drop_last(), p);
        assert forall|k: int| 0 <= k < s.filter(p).len() implies s.contains(
            #[trigger] s.filter(p)[k],
        ) by {
            let sub = s.drop_last().filter(p);
            if k < sub.len() {
                assert(s.filter(p)[k] == sub[k]);
                let t = choose|t: int| 0 <= t < s.drop_last().len() && s.drop_last()[t] == sub[k];
                assert(s[t] == sub[k]);
            } else {
                assert(s.filter(p)[k] == s.last());
                assert(s[s.len() - 1] == s.last());
            }
        }
    }
}

/// Undoing moves never takes back an abort, unless the position it goes
/// back to is itself checkmate or stalemate.
pub proof fn law_abort_survives_undo(g: GameModel, count: nat)
    requires
        g.outcome matches Some(ChessOutcome::Aborted { .. }),
        g.spec_undo(count) is Ok,
        !spec_is_checkmate(g.spec_undo(count)->Ok_0.position),
        !spec_is_stalemate(g.spec_undo(count)->Ok_0.position),
    ensures
        g.spec_undo(count)->Ok_0.outcome == g.outcome,
{
}

/// Asking to undo more moves than were played is refused, and anything up
/// to that is done, leaving the matching number of moves.
pub proof fn law_undo_count(g: GameModel, count: nat)
    requires
        g.wf(),
        count <= u16::MAX,
    ensures
        g.spec_undo(count) is Err <==> count > g.history.len(),
        g.spec_undo(count) matches Ok(g2) ==> g2.moves == g.moves - count && g2.wf(),
{
    if count <= g.history.len() {
        let g2 = g.spec_undo(count)->Ok_0;
        assert forall|j: int| 0 <= j < g2.history.len() implies is_position(#[trigger] g2.history[j]) by {
            assert(g2.history[j] == g.history[j]);
        }
    }
}

/// Leaving a game twice is the same as leaving it once, and after leaving
/// the game has an outcome.
pub proof fn law_player_left(g: GameModel, p: Player, q: Player)
    ensures
        g.spec_player_left(p).spec_player_left(q) == g.spec_player_left(p),
        g.spec_player_left(p).outcome is Some,
        g.outcome is Some ==> g.spec_player_left(p) == g,
{
}

/// An ended game accepts no move.
pub proof fn law_no_move_after_end(
    g: GameModel,
    source: Square,
    destination: Square,
    promotion: Option<Role>,
    piece: Piece,
    src_col: Option<u8>,
    src_row: Option<u8>,
)
    requires
        g.outcome is Some,
    ensures
        g.spec_move_piece(source, destination, promotion) is Err,
        g.spec_move_piece_by_type(piece, destination, src_col, src_row) == Err::<(GameModel, Square), GameError>(
            GameError::GameOver,
        ),
{
}

} // verus!
