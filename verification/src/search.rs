//! The bot's move search: a material and piece-square evaluation, a
//! depth-limited alpha-beta search, and the choice of the best move.

use vstd::prelude::*;
use crate::engine::{
    board, is_checkmate, is_game_over, is_insufficient_material, is_position, is_stalemate,
    legal_moves, play, spec_board, spec_is_checkmate, spec_is_game_over,
    spec_is_insufficient_material, spec_is_stalemate, spec_legal_moves, spec_play, spec_turn, turn,
    ChessMove, Piece, Role,
};
use crate::player::Player;
use crate::square::Square;

verus! {

/// Piece-square bonus for pawns, in centipawns, from white's point of view
/// with rank 8 in the first row.
pub const PAWN_TABLE: [i8; 64] = [
    0, 0, 0, 0, 0, 0, 0, 0,
    50, 50, 50, 50, 50, 50, 50, 50,
    10, 10, 20, 30, 30, 20, 10, 10,
    5, 5, 10, 25, 25, 10, 5, 5,
    0, 0, 0, 20, 20, 0, 0, 0,
    5, -5, -10, 0, 0, -10, -5, 5,
    5, 10, 10, -20, -20, 10, 10, 5,
    0, 0, 0, 0, 0, 0, 0, 0,
];

/// Piece-square bonus for knights.
pub const KNIGHT_TABLE: [i8; 64] = [
    -50, -40, -30, -30, -30, -30, -40, -50,
    -40, -20, 0, 0, 0, 0, -20, -40,
    -30, 0, 10, 15, 15, 10, 0, -30,
    -30, 5, 15, 20, 20, 15, 5, -30,
    -30, 0, 15, 20, 20, 15, 0, -30,
    -30, 5, 10, 15, 15, 10, 5, -30,
    -40, -20, 0, 5, 5, 0, -20, -40,
    -50, -40, -30, -30, -30, -30, -40, -50,
];

/// Piece-square bonus for bishops.
pub const BISHOP_TABLE: [i8; 64] = [
    -20, -10, -10, -10, -10, -10, -10, -20,
    -10, 0, 0, 0, 0, 0, 0, -10,
    -10, 0, 10, 10, 10, 10, 0, -10,
    -10, 5, 5, 10, 10, 5, 5, -10,
    -10, 0, 5, 10, 10, 5, 0, -10,
    -10, 10, 10, 10, 10, 10, 10, -10,
    -10, 5, 0, 0, 0, 0, 5, -10,
    -20, -10, -10, -10, -10, -10, -10, -20,
];

/// Piece-square bonus for rooks.
pub const ROOK_TABLE: [i8; 64] = [
    0, 0, 0, 0, 0, 0, 0, 0,
    5, 10, 10, 10, 10, 10, 10, 5,
    -5, 0, 0, 0, 0, 0, 0, -5,
    -5, 0, 0, 0, 0, 0, 0, -5,
    -5, 0, 0, 0, 0, 0, 0, -5,
    -5, 0, 0, 0, 0, 0, 0, -5,
    -5, 0, 0, 0, 0, 0, 0, -5,
    0, 0, 0, 5, 5, 0, 0, 0,
];

/// Score of a checkmate, from the point of view of the side that delivers it.
pub const MATE_SCORE: i32 = 100000;

/// No evaluation is further from zero than this.
pub const SCORE_BOUND: i32 = 1300000;

/// The material value of a piece kind, in centipawns.
pub open spec fn material(role: Role) -> int {
    match role {
        Role::Pawn => 100,
        Role::Knight => 320,
        Role::Bishop => 330,
        Role::Rook => 500,
        Role::Queen => 900,
        Role::King => 20000,
    }
}

/// Where a square is found in the piece-square tables: white pieces read
/// the tables with the ranks flipped.
pub open spec fn table_index(sq: int, is_white: bool) -> int {
    if is_white {
        (7 - sq / 8) * 8 + sq % 8
    } else {
        (sq / 8) * 8 + sq % 8
    }
}

/// The piece-square bonus of a piece kind on a square.
pub open spec fn square_bonus(role: Role, sq: int, is_white: bool) -> int {
    let i = table_index(sq, is_white);
    match role {
        Role::Pawn => PAWN_TABLE@[i] as int,
        Role::Knight => KNIGHT_TABLE@[i] as int,
        Role::Bishop => BISHOP_TABLE@[i] as int,
        Role::Rook => ROOK_TABLE@[i] as int,
        _ => 0,
    }
}

/// What the contents of a square add to the score: white pieces count
/// positive, black pieces negative.
pub open spec fn square_score(content: Option<Piece>, sq: int) -> int {
    match content {
        None => 0,
        Some(p) => {
            let v = material(p.role) + square_bonus(p.role, sq, p.color == Player::White);
            if p.color == Player::White {
                v
            } else {
                -v
            }
        },
    }
}

/// The score of the first `n` squares of a board.
pub open spec fn board_score(b: Seq<Option<Piece>>, n: int) -> int
    decreases n,
{
    if n <= 0 {
        0
    } else {
        board_score(b, n - 1) + square_score(b[n - 1], n - 1)
    }
}

/// The static evaluation of a position, in centipawns, positive when white
/// stands better: material and piece-square bonuses, plus two centipawns
/// per legal move for the side to move.
pub open spec fn spec_evaluate(fen: Seq<char>) -> int {
    let mobility = 2 * spec_legal_moves(fen).len() as int;
    board_score(spec_board(fen), 64) + if spec_turn(fen) == Player::White {
        mobility
    } else {
        -mobility
    }
}

/// The value of a position where the search stops, from white's point of
/// view; `maximizing` tells whether white is to move in the search.
pub open spec fn leaf_value(fen: Seq<char>, maximizing: bool) -> int {
    if spec_is_checkmate(fen) {
        if maximizing {
            -MATE_SCORE
        } else {
            MATE_SCORE as int
        }
    } else if spec_is_stalemate(fen) || spec_is_insufficient_material(fen) {
        0
    } else {
        spec_evaluate(fen)
    }
}

/// The depth-limited minimax value of a position: at depth 0 or when the
/// game is over, the leaf value; otherwise the best of the values of the
/// positions after each legal move, one level less deep, for the other side.
pub open spec fn minimax(fen: Seq<char>, depth: nat, maximizing: bool) -> int
    decreases depth, 1nat, 0nat,
{
    if depth == 0 || spec_is_game_over(fen) {
        leaf_value(fen, maximizing)
    } else {
        let moves = spec_legal_moves(fen);
        best_of(fen, moves, (depth - 1) as nat, maximizing, moves.len())
    }
}

/// The best minimax value over the positions after the first `k` moves:
/// the largest for the maximizing side, the smallest for the other; with
/// no move, the smallest (or largest) `i32`.
pub open spec fn best_of(fen: Seq<char>, moves: Seq<ChessMove>, d: nat, maximizing: bool, k: nat) -> int
    decreases d + 1, 0nat, k,
{
    if k == 0 || k > moves.len() {
        if maximizing {
            i32::MIN as int
        } else {
            i32::MAX as int
        }
    } else {
        let prev = best_of(fen, moves, d, maximizing, (k - 1) as nat);
        let v = minimax(spec_play(fen, moves[k - 1]), d, !maximizing);
        if maximizing {
            if v > prev {
                v
            } else {
                prev
            }
        } else {
            if v < prev {
                v
            } else {
                prev
            }
        }
    }
}

/// The value an alpha-beta search reaches with an empty window (`alpha`
/// not below `beta`): each level cuts off after its first move, so the
/// search follows the first legal move down to the leaf.
pub open spec fn first_line(fen: Seq<char>, depth: nat, maximizing: bool) -> int
    decreases depth,
{
    if depth == 0 || spec_is_game_over(fen) {
        leaf_value(fen, maximizing)
    } else {
        first_line(spec_play(fen, spec_legal_moves(fen)[0]), (depth - 1) as nat, !maximizing)
    }
}

/// What an alpha-beta search with window (`alpha`, `beta`) promises about
/// its result `v` and the true value `m`: inside the window they agree; at
/// or below `alpha`, `m` is at most `v`; at or above `beta`, at least `v`.
pub open spec fn fail_soft(v: int, m: int, alpha: int, beta: int) -> bool {
    &&& v <= alpha ==> m <= v
    &&& v >= beta ==> m >= v
    &&& alpha < v < beta ==> m == v
}

/// The best value over a prefix of the moves only improves as the prefix
/// grows.
pub proof fn lemma_best_of_monotone(fen: Seq<char>, moves: Seq<ChessMove>, d: nat, maximizing: bool, k: nat, k2: nat)
    requires
        k <= k2 <= moves.len(),
    ensures
        maximizing ==> best_of(fen, moves, d, maximizing, k) <= best_of(fen, moves, d, maximizing, k2),
        !maximizing ==> best_of(fen, moves, d, maximizing, k) >= best_of(fen, moves, d, maximizing, k2),
    decreases k2 - k,
{
    if k < k2 {
        lemma_best_of_monotone(fen, moves, d, maximizing, k, (k2 - 1) as nat);
    }
}

/// The material value of a piece kind, in centipawns.
pub fn material_value(role: Role) -> (r: i32)
    ensures
        r == material(role),
{
    match role {
        Role::Pawn => 100,
        Role::Knight => 320,
        Role::Bishop => 330,
        Role::Rook => 500,
        Role::Queen => 900,
        Role::King => 20000,
    }
}

/// The piece-square bonus of a piece kind on a square.
pub fn piece_square_value(role: Role, sq: Square, is_white: bool) -> (r: i32)
    requires
        sq.wf(),
    ensures
        r == square_bonus(role, sq.0 as int, is_white),
        -128 <= r <= 127,
{
    let idx: usize = if is_white {
        (7 - sq.y() as usize) * 8 + sq.x() as usize
    } else {
        sq.y() as usize * 8 + sq.x() as usize
    };
    match role {
        Role::Pawn => PAWN_TABLE[idx] as i32,
        Role::Knight => KNIGHT_TABLE[idx] as i32,
        Role::Bishop => BISHOP_TABLE[idx] as i32,
        Role::Rook => ROOK_TABLE[idx] as i32,
        _ => 0,
    }
}

/// The static evaluation of a position.
pub fn evaluate(pos: &str) -> (r: i32)
    requires
        is_position(pos@),
    ensures
        r == spec_evaluate(pos@),
        -SCORE_BOUND <= r <= SCORE_BOUND,
{
    let b = board(pos);
    let mut score: i32 = 0;
    let mut i: usize = 0;
    while i < 64
        invariant
            b@ == spec_board(pos@),
            b.len() == 64,
            i <= 64,
            score == board_score(b@, i as int),
            -20127 * i <= score <= 20127 * i,
        decreases 64 - i,
    {
        match b[i] {
            Some(p) => {
                let val = material_value(p.role) + piece_square_value(
                    p.role,
                    Square(i as u8),
                    p.color == Player::White,
                );
                if p.color == Player::White {
                    score = score + val;
                } else {
                    score = score - val;
                }
            },
            None => {},
        }
        i = i + 1;
    }
    let moves = legal_moves(pos).len() as i32;
    if turn(pos) == Player::White {
        score = score + moves * 2;
    } else {
        score = score - moves * 2;
    }
    score
}

/// Depth-limited alpha-beta search with the window (`alpha`, `beta`);
/// `maximizing` tells whether the side to move is the maximizing (white)
/// side of the search. With an empty window every level cuts off after its
/// first move.
pub fn alpha_beta(pos: &str, depth: u16, alpha: i32, beta: i32, maximizing: bool) -> (r: i32)
    requires
        is_position(pos@),
    ensures
        alpha < beta ==> fail_soft(r as int, minimax(pos@, depth as nat, maximizing), alpha as int, beta as int),
        alpha >= beta ==> r == first_line(pos@, depth as nat, maximizing),
        spec_is_stalemate(pos@) ==> r == 0,
        -SCORE_BOUND <= r <= SCORE_BOUND,
    decreases depth,
{
    if depth == 0 || is_game_over(pos) {
        if is_checkmate(pos) {
            return if maximizing {
                -100000
            } else {
                100000
            };
        }
        if is_stalemate(pos) || is_insufficient_material(pos) {
            return 0;
        }
        return evaluate(pos);
    }
    let moves = legal_moves(pos);
    let ghost fen = pos@;
    let ghost ms = moves@;
    let ghost d = (depth - 1) as nat;
    let n = moves.len();
    proof {
        assert(n > 0);
    }
    if beta <= alpha {
        // With an empty window the search cuts off after the first move.
        let new_pos = play(pos, 0);
        return alpha_beta(new_pos.as_str(), depth - 1, alpha, beta, !maximizing);
    }
    if maximizing {
        let mut max_eval: i32 = i32::MIN;
        let mut alpha = alpha;
        let ghost alpha0 = alpha as int;
        let mut cut = false;
        let mut i: usize = 0;
        while i < n && !cut
            invariant
                n == moves.len(),
                ms == moves@,
                ms == spec_legal_moves(fen),
                fen == pos@,
                is_position(fen),
                d == depth - 1,
                depth > 0,
                i <= n,
                alpha0 < beta,
                !cut ==> max_eval < beta,
                !cut ==> alpha == (if max_eval > alpha0 {
                    max_eval as int
                } else {
                    alpha0
                }),
                !cut && max_eval <= alpha0 ==> best_of(fen, ms, d, true, i as nat) <= max_eval,
                !cut && max_eval > alpha0 ==> best_of(fen, ms, d, true, i as nat) == max_eval,
                cut ==> max_eval >= beta && best_of(fen, ms, d, true, i as nat) >= max_eval,
                i > 0 ==> -SCORE_BOUND <= max_eval <= SCORE_BOUND,
                i == 0 ==> max_eval == i32::MIN && !cut,
            decreases n - i,
        {
            let new_pos = play(pos, i);
            let eval = alpha_beta(new_pos.as_str(), depth - 1, alpha, beta, false);
            proof {
                assert(new_pos@ == spec_play(fen, ms[i as int]));
            }
            if eval > max_eval {
                max_eval = eval;
            }
            if eval > alpha {
                alpha = eval;
            }
            if beta <= alpha {
                cut = true;
            }
            i = i + 1;
        }
        proof {
            lemma_best_of_monotone(fen, ms, d, true, i as nat, n as nat);
        }
        max_eval
    } else {
        let mut min_eval: i32 = i32::MAX;
        let mut cut = false;
        let mut i: usize = 0;
        while i < n && !cut
            invariant
                n == moves.len(),
                ms == moves@,
                ms == spec_legal_moves(fen),
                fen == pos@,
                is_position(fen),
                d == depth - 1,
                depth > 0,
                i <= n,
                alpha < beta,
                !cut ==> min_eval > alpha,
                !cut && min_eval >= beta ==> best_of(fen, ms, d, false, i as nat) >= min_eval,
                !cut && min_eval < beta ==> best_of(fen, ms, d, false, i as nat) == min_eval,
                cut ==> min_eval <= alpha && best_of(fen, ms, d, false, i as nat) <= min_eval,
                i > 0 ==> -SCORE_BOUND <= min_eval <= SCORE_BOUND,
                i == 0 ==> min_eval == i32::MAX && !cut,
            decreases n - i,
        {
            let new_pos = play(pos, i);
            let eval = alpha_beta(new_pos.as_str(), depth - 1, alpha, beta, true);
            proof {
                assert(new_pos@ == spec_play(fen, ms[i as int]));
            }
            if eval < min_eval {
                min_eval = eval;
            }
            let new_beta = if eval < beta {
                eval
            } else {
                beta
            };
            if new_beta <= alpha {
                cut = true;
            }
            i = i + 1;
        }
        proof {
            lemma_best_of_monotone(fen, ms, d, false, i as nat, n as nat);
        }
        min_eval
    }
}

/// The minimax value of the position after the `i`-th legal move, searched
/// `depth - 1` levels deep for the other side.
pub open spec fn child_value(fen: Seq<char>, depth: nat, maximizing: bool, i: int) -> int {
    minimax(spec_play(fen, spec_legal_moves(fen)[i]), (depth - 1) as nat, !maximizing)
}

/// Whether value `a` is at least as good as `b` for the side to move.
pub open spec fn at_least_as_good(a: int, b: int, maximizing: bool) -> bool {
    if maximizing {
        a >= b
    } else {
        a <= b
    }
}

/// The `i`-th legal move is the move the search picks: no move has a better
/// value, and every earlier move has a worse one.
pub open spec fn is_best_index(fen: Seq<char>, depth: nat, maximizing: bool, i: int) -> bool {
    let n = spec_legal_moves(fen).len();
    &&& 0 <= i < n
    &&& forall|j: int| 0 <= j < n ==> at_least_as_good(
        child_value(fen, depth, maximizing, i),
        child_value(fen, depth, maximizing, j),
        maximizing,
    )
    &&& forall|j: int| 0 <= j < i ==> !at_least_as_good(
        child_value(fen, depth, maximizing, j),
        child_value(fen, depth, maximizing, i),
        maximizing,
    )
}

/// The move that the bot plays: the first legal move with the best minimax
/// value at the given depth, white maximizing and black minimizing; none
/// when there is no legal move.
pub fn best_move(pos: &str, depth: u16) -> (r: Option<ChessMove>)
    requires
        is_position(pos@),
        depth >= 1,
    ensures
        r is None <==> spec_legal_moves(pos@).len() == 0,
        r matches Some(m) ==> !(m is Put) && m.wf(),
        r matches Some(m) ==> exists|i: int|
            is_best_index(pos@, depth as nat, spec_turn(pos@) == Player::White, i)
                && spec_legal_moves(pos@)[i] == m,
{
    let moves = legal_moves(pos);
    if moves.len() == 0 {
        return None;
    }
    let maximizing = turn(pos) == Player::White;
    let ghost fen = pos@;
    let ghost ms = moves@;
    let mut best: Option<ChessMove> = None;
    let mut best_eval: i32 = if maximizing {
        i32::MIN
    } else {
        i32::MAX
    };
    let ghost mut bi: int = 0;
    let n = moves.len();
    let mut i: usize = 0;
    while i < n
        invariant
            n == moves.len(),
            n > 0,
            ms == moves@,
            ms == spec_legal_moves(fen),
            forall|t: int| 0 <= t < n ==> !((#[trigger] ms[t]) is Put) && ms[t].wf(),
            fen == pos@,
            is_position(fen),
            depth >= 1,
            maximizing == (spec_turn(fen) == Player::White),
            i <= n,
            i == 0 ==> best is None && best_eval == (if maximizing {
                i32::MIN
            } else {
                i32::MAX
            }),
            i > 0 ==> 0 <= bi < i && best == Some(ms[bi]) && best_eval == child_value(
                fen,
                depth as nat,
                maximizing,
                bi,
            ) && -SCORE_BOUND <= best_eval <= SCORE_BOUND,
            i > 0 ==> forall|j: int|
                0 <= j < i ==> at_least_as_good(
                    child_value(fen, depth as nat, maximizing, bi),
                    child_value(fen, depth as nat, maximizing, j),
                    maximizing,
                ),
            i > 0 ==> forall|j: int|
                0 <= j < bi ==> !at_least_as_good(
                    child_value(fen, depth as nat, maximizing, j),
                    child_value(fen, depth as nat, maximizing, bi),
                    maximizing,
                ),
        decreases n - i,
    {
        let m = moves[i];
        let new_pos = play(pos, i);
        let eval = alpha_beta(new_pos.as_str(), depth - 1, i32::MIN, i32::MAX, !maximizing);
        proof {
            assert(new_pos@ == spec_play(fen, ms[i as int]));
            assert(eval == child_value(fen, depth as nat, maximizing, i as int));
        }
        let is_better = if maximizing {
            eval > best_eval
        } else {
            eval < best_eval
        };
        if is_better {
            best_eval = eval;
            best = Some(m);
            proof {
                bi = i as int;
            }
        }
        i = i + 1;
    }
    proof {
        assert(is_best_index(fen, depth as nat, maximizing, bi));
    }
    best
}

/// At most one move is the move the search picks, so the contract of
/// `best_move` fixes its result.
pub proof fn law_best_index_unique(fen: Seq<char>, depth: nat, maximizing: bool, i: int, j: int)
    requires
        is_best_index(fen, depth, maximizing, i),
        is_best_index(fen, depth, maximizing, j),
    ensures
        i == j,
{
    if i < j {
        assert(!at_least_as_good(child_value(fen, depth, maximizing, i), child_value(fen, depth, maximizing, j), maximizing));
    } else if j < i {
        assert(!at_least_as_good(child_value(fen, depth, maximizing, j), child_value(fen, depth, maximizing, i), maximizing));
    }
}

/// The square on the same file and the mirrored rank: rank 1 and rank 8
/// swap places, rank 2 and rank 7, and so on.
pub open spec fn flip_rank(sq: int) -> int {
    (7 - sq / 8) * 8 + sq % 8
}

/// The same piece in the other colour.
pub open spec fn other_colour(content: Option<Piece>) -> Option<Piece> {
    match content {
        Some(p) => Some(Piece { color: p.color.spec_other(), role: p.role }),
        None => None,
    }
}

/// A board seen from the other side: every piece changes colour and moves
/// to the mirrored rank of its file.
pub open spec fn mirrored(b: Seq<Option<Piece>>) -> Seq<Option<Piece>> {
    Seq::new(64, |sq: int| other_colour(b[flip_rank(sq)]))
}

/// The score of the first `n` squares of rank `r`.
pub open spec fn rank_score(b: Seq<Option<Piece>>, r: int, n: int) -> int
    decreases n,
{
    if n <= 0 {
        0
    } else {
        rank_score(b, r, n - 1) + square_score(b[8 * r + n - 1], 8 * r + n - 1)
    }
}

/// The score of the first `k` ranks.
pub open spec fn ranks_score(b: Seq<Option<Piece>>, k: int) -> int
    decreases k,
{
    if k <= 0 {
        0
    } else {
        ranks_score(b, k - 1) + rank_score(b, k - 1, 8)
    }
}

/// Counting a board square by square is counting it rank by rank.
proof fn lemma_board_by_ranks(b: Seq<Option<Piece>>, k: int, f: int)
    requires
        0 <= k,
        0 <= f <= 8,
    ensures
        board_score(b, 8 * k + f) == ranks_score(b, k) + rank_score(b, k, f),
    decreases k, f,
{
    if f > 0 {
        lemma_board_by_ranks(b, k, f - 1);
    } else if k > 0 {
        lemma_board_by_ranks(b, k - 1, 8);
    }
}

/// A square of the mirrored board scores the opposite of the square it
/// came from.
proof fn lemma_mirrored_square(b: Seq<Option<Piece>>, sq: int)
    requires
        b.len() == 64,
        0 <= sq < 64,
    ensures
        0 <= flip_rank(sq) < 64,
        flip_rank(flip_rank(sq)) == sq,
        square_score(mirrored(b)[sq], sq) == -square_score(b[flip_rank(sq)], flip_rank(sq)),
{
    let t = flip_rank(sq);
    assert(0 <= t < 64 && t / 8 == 7 - sq / 8 && t % 8 == sq % 8 && flip_rank(t) == sq) by (nonlinear_arith)
        requires
            0 <= sq < 64,
            t == (7 - sq / 8) * 8 + sq % 8,
    ;
    assert(table_index(sq, true) == t);
    assert(table_index(t, false) == t);
}

/// A rank of the mirrored board scores the opposite of the mirrored rank.
proof fn lemma_mirrored_rank(b: Seq<Option<Piece>>, r: int, n: int)
    requires
        b.len() == 64,
        0 <= r < 8,
        0 <= n <= 8,
    ensures
        rank_score(mirrored(b), r, n) == -rank_score(b, 7 - r, n),
    decreases n,
{
    if n > 0 {
        lemma_mirrored_rank(b, r, n - 1);
        let sq = 8 * r + n - 1;
        lemma_mirrored_square(b, sq);
        assert(flip_rank(sq) == 8 * (7 - r) + n - 1) by (nonlinear_arith)
            requires
                sq == 8 * r + n - 1,
                0 <= r < 8,
                1 <= n <= 8,
        ;
    }
}

/// Seeing the board from the other side (every piece changes colour and
/// moves to the mirrored rank) negates its material and piece-square score.
pub proof fn law_mirror_negates_board_score(b: Seq<Option<Piece>>)
    requires
        b.len() == 64,
    ensures
        board_score(mirrored(b), 64) == -board_score(b, 64),
{
    lemma_board_by_ranks(b, 8, 0);
    lemma_board_by_ranks(mirrored(b), 8, 0);
    lemma_mirrored_rank(b, 0, 8);
    lemma_mirrored_rank(b, 1, 8);
    lemma_mirrored_rank(b, 2, 8);
    lemma_mirrored_rank(b, 3, 8);
    lemma_mirrored_rank(b, 4, 8);
    lemma_mirrored_rank(b, 5, 8);
    lemma_mirrored_rank(b, 6, 8);
    lemma_mirrored_rank(b, 7, 8);
    reveal_with_fuel(ranks_score, 9);
}

/// The evaluation of a position seen from the other side is the opposite:
/// a position whose board is the mirrored board, with the other side to
/// move and as many legal moves, evaluates to the negated score.
pub proof fn law_mirror_negates_evaluation(fen: Seq<char>, mirror: Seq<char>)
    requires
        spec_board(fen).len() == 64,
        spec_board(mirror) == mirrored(spec_board(fen)),
        spec_turn(mirror) == spec_turn(fen).spec_other(),
        spec_legal_moves(mirror).len() == spec_legal_moves(fen).len(),
    ensures
        spec_evaluate(mirror) == -spec_evaluate(fen),
{
    law_mirror_negates_board_score(spec_board(fen));
}

/// Stalemate is a draw: when the side to move has no legal move and is not
/// in check, the position is worth 0 to either side, at any depth, whatever
/// the search window.
pub proof fn law_stalemate_is_draw(fen: Seq<char>, depth: nat, maximizing: bool)
    requires
        spec_is_stalemate(fen),
    ensures
        leaf_value(fen, maximizing) == 0,
        minimax(fen, depth, maximizing) == 0,
        first_line(fen, depth, maximizing) == 0,
{
}

/// A search over the full window of `i32` that stays within the score
/// bound returns the exact minimax value.
pub proof fn law_full_window_is_exact(v: int, m: int)
    requires
        fail_soft(v, m, i32::MIN as int, i32::MAX as int),
        -SCORE_BOUND <= v <= SCORE_BOUND,
    ensures
        v == m,
{
}

} // verus!
