//! The chess rules, as far as this library needs them. A position is held
//! as the FEN text that the rules engine writes for it; the moves, the side
//! to move and the end conditions of a position come from the engine.

use vstd::prelude::*;
use crate::player::Player;
use crate::square::Square;
use shakmaty::fen::Fen;
use shakmaty::{CastlingMode, Chess, EnPassantMode, Position};
use shakmaty::Color as EngineColor;
use shakmaty::Move as EngineMove;
use shakmaty::Piece as EnginePiece;
use shakmaty::Role as EngineRole;
use shakmaty::Square as EngineSquare;

verus! {

#[verifier::external_type_specification]
#[verifier::external_body]
pub struct ExEngineSquare(EngineSquare);

#[verifier::external_type_specification]
#[verifier::external_body]
pub struct ExEngineRole(EngineRole);

#[verifier::external_type_specification]
#[verifier::external_body]
pub struct ExEngineColor(EngineColor);

#[verifier::external_type_specification]
#[verifier::external_body]
pub struct ExEnginePiece(EnginePiece);

#[verifier::external_type_specification]
#[verifier::external_body]
pub struct ExEngineMove(EngineMove);

/// The kind of a chess piece.
#[derive(PartialEq, Eq, Structural, Hash, Copy, Clone, Debug)]
pub enum Role {
    Pawn,
    Knight,
    Bishop,
    Rook,
    Queen,
    King,
}

/// A piece: its color and its kind.
#[derive(PartialEq, Eq, Structural, Hash, Copy, Clone, Debug)]
pub struct Piece {
    pub color: Player,
    pub role: Role,
}

/// A chess move as the rules engine lists it.
#[derive(PartialEq, Eq, Structural, Hash, Copy, Clone, Debug)]
pub enum ChessMove {
    /// A piece moves from one square to another, possibly capturing and,
    /// for a pawn reaching the last rank, promoting.
    Normal { role: Role, from: Square, capture: Option<Role>, to: Square, promotion: Option<Role> },
    /// A pawn captures en passant.
    EnPassant { from: Square, to: Square },
    /// Castling, given by the squares of the king and of the rook.
    Castle { king: Square, rook: Square },
    /// A piece is dropped on a square (never a legal move in standard chess).
    Put { role: Role, to: Square },
}

/// Why a FEN text does not give a position.
#[derive(PartialEq, Eq, Structural, Copy, Clone, Debug)]
pub enum FenError {
    /// The text is not in FEN syntax.
    InvalidFen,
    /// The text is FEN, but it does not describe a legal standard chess
    /// position.
    InvalidPosition,
}

impl ChessMove {
    /// All squares named by the move are on the board.
    pub open spec fn wf(self) -> bool {
        match self {
            ChessMove::Normal { from, to, .. } => from.wf() && to.wf(),
            ChessMove::EnPassant { from, to } => from.wf() && to.wf(),
            ChessMove::Castle { king, rook } => king.wf() && rook.wf(),
            ChessMove::Put { to, .. } => to.wf(),
        }
    }
}

/// The square the king lands on when castling with the given king and rook:
/// the `G` file when the rook stands to the king's right, else the `C` file.
pub open spec fn castle_target(king: Square, rook: Square) -> Square {
    if rook.file() > king.file() {
        Square::at(6, king.rank())
    } else {
        Square::at(2, king.rank())
    }
}

/// The square a move starts from; drops have none.
pub open spec fn spec_move_src(m: ChessMove) -> Option<Square> {
    match m {
        ChessMove::Normal { from, .. } => Some(from),
        ChessMove::Castle { king, .. } => Some(king),
        ChessMove::EnPassant { from, .. } => Some(from),
        ChessMove::Put { .. } => None,
    }
}

/// The square a move ends on; for castling, where the king lands.
pub open spec fn spec_move_dst(m: ChessMove) -> Square {
    match m {
        ChessMove::Normal { to, .. } => to,
        ChessMove::Castle { king, rook } => castle_target(king, rook),
        ChessMove::EnPassant { to, .. } => to,
        ChessMove::Put { to, .. } => to,
    }
}

/// The letter of a piece kind in uppercase.
pub open spec fn role_char(role: Role) -> char {
    match role {
        Role::Pawn => 'P',
        Role::Knight => 'N',
        Role::Bishop => 'B',
        Role::Rook => 'R',
        Role::Queen => 'Q',
        Role::King => 'K',
    }
}

/// The letter of a piece: uppercase for white, lowercase for black.
pub open spec fn spec_piece_char(piece: Piece) -> char {
    if piece.color == Player::Black {
        crate::text::ascii_lower(role_char(piece.role))
    } else {
        role_char(piece.role)
    }
}

/// The square where the king lands when castling.
pub fn castle_king_target(king: Square, rook: Square) -> (r: Square)
    requires
        king.wf(),
    ensures
        r == castle_target(king, rook),
        r.wf(),
{
    if rook.0 % 8 > king.0 % 8 {
        Square((king.0 / 8) * 8 + 6)
    } else {
        Square((king.0 / 8) * 8 + 2)
    }
}

/// Extracts the source square of a move.
pub fn move_src(m: &ChessMove) -> (r: Option<Square>)
    ensures
        r == spec_move_src(*m),
{
    match m {
        ChessMove::Normal { from, .. } => Some(*from),
        ChessMove::Castle { king, .. } => Some(*king),
        ChessMove::EnPassant { from, .. } => Some(*from),
        ChessMove::Put { .. } => None,
    }
}

/// Extracts the destination square of a move; for castling, the square the
/// king lands on.
pub fn move_dst(m: &ChessMove) -> (r: Square)
    requires
        m.wf(),
    ensures
        r == spec_move_dst(*m),
        r.wf(),
{
    match m {
        ChessMove::Normal { to, .. } => *to,
        ChessMove::Castle { king, rook } => castle_king_target(*king, *rook),
        ChessMove::EnPassant { to, .. } => *to,
        ChessMove::Put { to, .. } => *to,
    }
}

/// Maps a piece to a character for display: `PNBRQK` for white pieces and
/// `pnbrqk` for black ones.
pub fn piece_to_char(piece: Piece) -> (r: char)
    ensures
        r == spec_piece_char(piece),
{
    let c = match piece.role {
        Role::Pawn => 'P',
        Role::Knight => 'N',
        Role::Bishop => 'B',
        Role::Rook => 'R',
        Role::Queen => 'Q',
        Role::King => 'K',
    };
    if piece.color == Player::Black {
        ((c as u8) + 32) as char
    } else {
        c
    }
}

/// A piece's letter is uppercase exactly when the piece is white, and the
/// letters of two pieces of the same kind differ only in case.
pub proof fn law_piece_char_case(role: Role)
    ensures
        'A' <= spec_piece_char(Piece { color: Player::White, role }) <= 'Z',
        'a' <= spec_piece_char(Piece { color: Player::Black, role }) <= 'z',
        spec_piece_char(Piece { color: Player::Black, role }) == crate::text::ascii_lower(
            spec_piece_char(Piece { color: Player::White, role }),
        ),
{
}

/// Castling lands the king on the `G` or `C` file of its own rank.
pub proof fn law_castle_target(king: Square, rook: Square)
    requires
        king.wf(),
    ensures
        castle_target(king, rook).rank() == king.rank(),
        castle_target(king, rook).file() == 6 || castle_target(king, rook).file() == 2,
        castle_target(king, rook).wf(),
{
}

// ---------------------------------------------------------------------
// Conversions from the engine's values to the library's own, used by the
// wrappers below to hand the engine's answers out as plain values. Each
// is trusted: it tells the engine's enum variants apart, one arm each, and
// moves their fields over. Only the square conversion states anything:
// that the index it gives is on the board.
// ---------------------------------------------------------------------

impl From<EngineRole> for Role {
    /// The library's kind of piece for `shakmaty::Role`, variant by variant.
    #[verifier::external_body]
    fn from(r: EngineRole) -> Role {
        match r {
            EngineRole::Pawn => Role::Pawn,
            EngineRole::Knight => Role::Knight,
            EngineRole::Bishop => Role::Bishop,
            EngineRole::Rook => Role::Rook,
            EngineRole::Queen => Role::Queen,
            EngineRole::King => Role::King,
        }
    }
}

impl From<EngineColor> for Player {
    /// The player for `shakmaty::Color`: white for white, black for black.
    #[verifier::external_body]
    fn from(color: EngineColor) -> Player {
        match color {
            EngineColor::Black => Player::Black,
            EngineColor::White => Player::White,
        }
    }
}

impl From<EngineSquare> for Square {
    /// The square with the index of a `shakmaty::Square`, which
    /// `u8::from` gives in 0..64, `A1` first, as this library numbers them.
    #[verifier::external_body]
    fn from(sq: EngineSquare) -> (r: Square)
        ensures
            r.wf(),
    {
        Square(u8::from(sq))
    }
}

impl From<EnginePiece> for Piece {
    /// The piece of a `shakmaty::Piece`: its color and its kind.
    #[verifier::external_body]
    fn from(p: EnginePiece) -> Piece {
        Piece { color: p.color.into(), role: p.role.into() }
    }
}

impl From<EngineMove> for ChessMove {
    /// The move of a `shakmaty::Move`, variant by variant, with its squares
    /// and kinds of piece converted.
    #[verifier::external_body]
    fn from(m: EngineMove) -> ChessMove {
        match m {
            EngineMove::Normal { role, from, capture, to, promotion } => ChessMove::Normal {
                role: role.into(),
                from: from.into(),
                capture: capture.map(Role::from),
                to: to.into(),
                promotion: promotion.map(Role::from),
            },
            EngineMove::EnPassant { from, to } => ChessMove::EnPassant { from: from.into(), to: to.into() },
            EngineMove::Castle { king, rook } => ChessMove::Castle { king: king.into(), rook: rook.into() },
            EngineMove::Put { role, to } => ChessMove::Put { role: role.into(), to: to.into() },
        }
    }
}

// ---------------------------------------------------------------------
// Names for what the engine computes of a position.
// ---------------------------------------------------------------------

/// What the engine makes of a FEN text: it parses the text, builds a
/// standard chess position from it and writes that position back as FEN
/// (with the en passant square only where an en passant capture is legal).
pub uninterp spec fn spec_read_fen(text: Seq<char>) -> Result<Seq<char>, FenError>;

/// The engine's description (`Debug` text) of why a FEN text gives no
/// position.
pub uninterp spec fn spec_fen_error_detail(text: Seq<char>) -> Seq<char>;

/// The legal moves of a position, in the engine's order.
pub uninterp spec fn spec_legal_moves(fen: Seq<char>) -> Seq<ChessMove>;

/// The position after a legal move has been played, as FEN.
pub uninterp spec fn spec_play(fen: Seq<char>, m: ChessMove) -> Seq<char>;

/// The side to move in a position.
pub uninterp spec fn spec_turn(fen: Seq<char>) -> Player;

/// Whether the side to move is checkmated.
pub uninterp spec fn spec_is_checkmate(fen: Seq<char>) -> bool;

/// Whether neither side has enough material left to win.
pub uninterp spec fn spec_is_insufficient_material(fen: Seq<char>) -> bool;

/// The contents of the 64 squares of a position, indexed like `Square`.
pub uninterp spec fn spec_board(fen: Seq<char>) -> Seq<Option<Piece>>;

/// A FEN text as the engine writes it for a position: reading it gives
/// the same text back. The engine's checkmate is "in check and no legal
/// move", so a checkmated position has no legal move.
pub open spec fn is_position(fen: Seq<char>) -> bool {
    &&& spec_read_fen(fen) == Ok::<Seq<char>, FenError>(fen)
    &&& spec_is_checkmate(fen) ==> no_legal_moves(fen)
}

/// The FEN of the standard starting position.
pub open spec fn spec_start_fen() -> Seq<char> {
    "rnbqkbnr/pppppppp/8/8/8/8/PPPPPPPP/RNBQKBNR w KQkq - 0 1"@
}

/// Whether a position has no legal move.
pub open spec fn no_legal_moves(fen: Seq<char>) -> bool {
    spec_legal_moves(fen).len() == 0
}

/// Whether the side to move is stalemated: no legal move and not in check.
pub open spec fn spec_is_stalemate(fen: Seq<char>) -> bool {
    no_legal_moves(fen) && !spec_is_checkmate(fen)
}

/// Whether the game is over in a position: no legal move is left, or
/// neither side can win any more.
pub open spec fn spec_is_game_over(fen: Seq<char>) -> bool {
    no_legal_moves(fen) || spec_is_insufficient_material(fen)
}

// ---------------------------------------------------------------------
// Calls into the engine.
// ---------------------------------------------------------------------

/// Whether a character separates the fields of a FEN text.
pub open spec fn fen_separator(c: char) -> bool {
    c == ' ' || c == '_'
}

/// The fields of the text `s`, the field `cur` having been read so far:
/// the runs of characters between separators.
pub open spec fn fields_from(s: Seq<char>, cur: Seq<char>) -> Seq<Seq<char>>
    decreases s.len(),
{
    let done = if cur.len() > 0 {
        seq![cur]
    } else {
        Seq::empty()
    };
    if s.len() == 0 {
        done
    } else if fen_separator(s[0]) {
        done + fields_from(s.drop_first(), Seq::empty())
    } else {
        fields_from(s.drop_first(), cur.push(s[0]))
    }
}

/// The fields of a FEN text: board, side to move, castling rights, ...
pub open spec fn fen_fields(s: Seq<char>) -> Seq<Seq<char>> {
    fields_from(s, Seq::empty())
}

/// The side to move that a FEN text names: black when its second field is
/// `b`, white when it is `w` or missing.
pub open spec fn fen_side(s: Seq<char>) -> Player {
    let f = fen_fields(s);
    if f.len() >= 2 && f[1] == "b"@ {
        Player::Black
    } else {
        Player::White
    }
}

/// Reads a position from FEN and writes it back as the engine's FEN; on
/// failure, what went wrong and the engine's description of its error.
///
/// Trusted: calls `Fen::from_str`, `Fen::into_position::<Chess>` with
/// standard castling and `Fen::from_position` with legal en passant
/// squares. The result is named by `spec_read_fen`. A FEN that the engine
/// wrote for a position reads back to itself, which the second clause
/// states. The side to move is the one the text's second field names
/// (`Fen::from_ascii` reads `w`, `b` or nothing there and rejects anything
/// else), which the third clause states. The error's description is its
/// `Debug` text, named by `spec_fen_error_detail`.
#[verifier::external_body]
pub(crate) fn read_fen(text: &str) -> (r: Result<String, (FenError, String)>)
    ensures
        match r {
            Ok(s) => spec_read_fen(text@) == Ok::<Seq<char>, FenError>(s@),
            Err((e, d)) => spec_read_fen(text@) == Err::<Seq<char>, FenError>(e) && d@
                == spec_fen_error_detail(text@),
        },
        r matches Ok(s) ==> is_position(s@),
        r matches Ok(s) ==> spec_turn(s@) == fen_side(text@),
{
    let fen: Fen = match text.parse() {
        Ok(f) => f,
        Err(e) => return Err((FenError::InvalidFen, format!("{:?}", e))),
    };
    let pos: Chess = match fen.into_position(CastlingMode::Standard) {
        Ok(p) => p,
        Err(e) => return Err((FenError::InvalidPosition, format!("{:?}", e))),
    };
    Ok(Fen::from_position(pos, EnPassantMode::Legal).to_string())
}

/// The standard starting position.
///
/// Trusted: calls `Chess::default` and writes the position with
/// `Fen::from_position`; the engine documents it as the standard initial
/// position, whose FEN is the one stated, with white to move.
#[verifier::external_body]
pub(crate) fn start_position() -> (r: String)
    ensures
        r@ == spec_start_fen(),
        is_position(r@),
        spec_turn(r@) == Player::White,
{
    Fen::from_position(Chess::default(), EnPassantMode::Legal).to_string()
}

/// The legal moves of a position.
///
/// Trusted: calls `Position::legal_moves` on the position the FEN reads
/// to. The list is named by `spec_legal_moves`; the engine's move list
/// holds at most 256 moves, standard chess has no drops, and every square
/// the engine names is on the board.
#[verifier::external_body]
pub(crate) fn legal_moves(fen: &str) -> (r: Vec<ChessMove>)
    requires
        is_position(fen@),
    ensures
        r@ == spec_legal_moves(fen@),
        r.len() <= 256,
        forall|i: int| 0 <= i < r.len() ==> !(r[i] is Put) && r[i].wf(),
{
    let pos: Chess = fen.parse::<Fen>().unwrap().into_position(CastlingMode::Standard).unwrap();
    pos.legal_moves().into_iter().map(ChessMove::from).collect()
}

/// Plays the legal move at a place of the engine's list of legal moves.
///
/// Trusted: lists the legal moves with `Position::legal_moves`, calls
/// `Position::play_unchecked` with the listed move and writes the new
/// position with `Fen::from_position`. The list is the one named by
/// `spec_legal_moves`, so the move played is a legal one; the result is
/// named by `spec_play` and is again a position's FEN, with the other side
/// to move (`do_move` ends by flipping the turn).
#[verifier::external_body]
pub(crate) fn play(fen: &str, index: usize) -> (r: String)
    requires
        is_position(fen@),
        index < spec_legal_moves(fen@).len(),
    ensures
        r@ == spec_play(fen@, spec_legal_moves(fen@)[index as int]),
        is_position(r@),
        spec_turn(r@) == spec_turn(fen@).spec_other(),
{
    let mut pos: Chess = fen.parse::<Fen>().unwrap().into_position(CastlingMode::Standard).unwrap();
    let moves = pos.legal_moves();
    pos.play_unchecked(&moves[index]);
    Fen::from_position(pos, EnPassantMode::Legal).to_string()
}

/// The side to move.
///
/// Trusted: calls `Position::turn`; the result is named by `spec_turn`.
#[verifier::external_body]
pub(crate) fn turn(fen: &str) -> (r: Player)
    requires
        is_position(fen@),
    ensures
        r == spec_turn(fen@),
{
    let pos: Chess = fen.parse::<Fen>().unwrap().into_position(CastlingMode::Standard).unwrap();
    pos.turn().into()
}

/// Whether the side to move is checkmated.
///
/// Trusted: calls `Position::is_checkmate`, which the engine computes as
/// "in check and no legal move": a checkmated position has no legal move.
#[verifier::external_body]
pub(crate) fn is_checkmate(fen: &str) -> (r: bool)
    requires
        is_position(fen@),
    ensures
        r == spec_is_checkmate(fen@),
        r ==> no_legal_moves(fen@),
{
    let pos: Chess = fen.parse::<Fen>().unwrap().into_position(CastlingMode::Standard).unwrap();
    pos.is_checkmate()
}

/// Whether the side to move is stalemated.
///
/// Trusted: calls `Position::is_stalemate`, which the engine computes, for
/// standard chess, as "not in check and no legal move", that is: no legal
/// move and not checkmated.
#[verifier::external_body]
pub(crate) fn is_stalemate(fen: &str) -> (r: bool)
    requires
        is_position(fen@),
    ensures
        r == spec_is_stalemate(fen@),
{
    let pos: Chess = fen.parse::<Fen>().unwrap().into_position(CastlingMode::Standard).unwrap();
    pos.is_stalemate()
}

/// Whether neither side has enough material to win.
///
/// Trusted: calls `Position::is_insufficient_material`; the result is
/// named by `spec_is_insufficient_material`.
#[verifier::external_body]
pub(crate) fn is_insufficient_material(fen: &str) -> (r: bool)
    requires
        is_position(fen@),
    ensures
        r == spec_is_insufficient_material(fen@),
{
    let pos: Chess = fen.parse::<Fen>().unwrap().into_position(CastlingMode::Standard).unwrap();
    pos.is_insufficient_material()
}

/// Whether the game is over.
///
/// Trusted: calls `Position::is_game_over`, which the engine computes, for
/// standard chess, as "no legal move or insufficient material".
#[verifier::external_body]
pub(crate) fn is_game_over(fen: &str) -> (r: bool)
    requires
        is_position(fen@),
    ensures
        r == spec_is_game_over(fen@),
{
    let pos: Chess = fen.parse::<Fen>().unwrap().into_position(CastlingMode::Standard).unwrap();
    pos.is_game_over()
}

/// The pieces on the 64 squares, `A1` first.
///
/// Trusted: calls `Board::piece_at` for each square of `Square::ALL`,
/// which lists the squares in index order; the result is named by
/// `spec_board`.
#[verifier::external_body]
pub(crate) fn board(fen: &str) -> (r: Vec<Option<Piece>>)
    requires
        is_position(fen@),
    ensures
        r@ == spec_board(fen@),
        r.len() == 64,
{
    let pos: Chess = fen.parse::<Fen>().unwrap().into_position(CastlingMode::Standard).unwrap();
    EngineSquare::ALL.iter().map(|sq| pos.board().piece_at(*sq).map(Piece::from)).collect()
}

} // verus!
