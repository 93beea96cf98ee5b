//! The replay screen's state and decisions: what a touch does, which
//! squares to draw and how, and when the move comment is cleared and
//! drawn. Painting is left to the caller.

use vstd::prelude::*;
use crate::board_ui::{
    board_hitboxes, contains_pair, full_board_rect, lemma_board_fits, square_rect, BoardSelection, SelectionModel, SquareSet,
};
use crate::engine::{
    board, is_position, read_fen, spec_board, spec_legal_moves, spec_read_fen, spec_start_fen, start_position, Piece,
};
use crate::hal::{mxcfb_rect, InputEvent, MultitouchEvent, Point2};
use crate::proto::{move_pairs, square_pairs};
use crate::replay::{
    fen_tag, fen_tag_readable, plain_response, replay_start, spec_play_replay_move, spec_player_move, spec_reset, spec_undo_move, Replay,
    ReplayInfo, ReplayModel, ReplayResponse, ResponseView,
};
use crate::square::Square;

verus! {

/// Whether a rectangle holds a point: its left and top edges belong to
/// it, its right and bottom edges do not.
pub open spec fn rect_contains(rect: mxcfb_rect, x: int, y: int) -> bool {
    &&& rect.left <= x < rect.left + rect.width
    &&& rect.top <= y < rect.top + rect.height
}

/// Whether a touch position falls in a hit box.
pub fn is_hitting(pos: Point2<u16>, hitbox: mxcfb_rect) -> (r: bool)
    ensures
        r == rect_contains(hitbox, pos.x as int, pos.y as int),
{
    let x = pos.x as u64;
    let y = pos.y as u64;
    x >= hitbox.left as u64 && x < hitbox.left as u64 + hitbox.width as u64 && y >= hitbox.top as u64
        && y < hitbox.top as u64 + hitbox.height as u64
}

/// Whether file `x` and rank `y` name a square.
pub open spec fn on_board(x: int, y: int) -> bool {
    0 <= x < 8 && 0 <= y < 8
}

/// Whether the square at file `x`, rank `y` of a board laid out on a
/// display of the given size holds a point.
pub open spec fn square_holds(width: u32, height: u32, x: int, y: int, px: int, py: int) -> bool {
    on_board(x, y) && rect_contains(square_rect(width, height, x, y), px, py)
}

/// The square of the board, laid out on a display of the given size, that
/// holds a point; none when the point is off the board.
pub open spec fn spec_hit(width: u32, height: u32, px: int, py: int) -> Option<Square> {
    if exists|x: int, y: int| #[trigger] square_holds(width, height, x, y, px, py) {
        let (x, y) = choose|x: int, y: int| #[trigger] square_holds(width, height, x, y, px, py);
        Some(Square::at(x, y))
    } else {
        None
    }
}

/// No point of the display lies on two squares of the board.
pub proof fn law_one_square_per_point(width: u32, height: u32, x1: int, y1: int, x2: int, y2: int, px: int, py: int)
    requires
        square_holds(width, height, x1, y1, px, py),
        square_holds(width, height, x2, y2, px, py),
    ensures
        x1 == x2 && y1 == y2,
{
    lemma_board_fits(width, height, x1, y1);
    lemma_board_fits(width, height, x2, y2);
    let s = (if width < height {
        width
    } else {
        height
    }) / 8;
    if x1 < x2 {
        assert(s * x1 + s <= s * x2) by (nonlinear_arith)
            requires
                x1 < x2,
                s >= 0,
        ;
    }
    if x2 < x1 {
        assert(s * x2 + s <= s * x1) by (nonlinear_arith)
            requires
                x2 < x1,
                s >= 0,
        ;
    }
    if y1 < y2 {
        assert(s * (7 - y2) + s <= s * (7 - y1)) by (nonlinear_arith)
            requires
                y1 < y2,
                s >= 0,
        ;
    }
    if y2 < y1 {
        assert(s * (7 - y1) + s <= s * (7 - y2)) by (nonlinear_arith)
            requires
                y2 < y1,
                s >= 0,
        ;
    }
}

/// The square of a board layout holding a point: the only one, by
/// `law_one_square_per_point`.
pub proof fn lemma_hit_is_unique(width: u32, height: u32, x: int, y: int, px: int, py: int)
    requires
        square_holds(width, height, x, y, px, py),
    ensures
        spec_hit(width, height, px, py) == Some(Square::at(x, y)),
{
    let (cx, cy) = choose|a: int, b: int| #[trigger] square_holds(width, height, a, b, px, py);
    law_one_square_per_point(width, height, x, y, cx, cy, px, py);
}

/// Which square of a board's hit boxes a touch falls on, looking at every
/// square from `A1` up each file, file by file.
pub fn hit_square(boxes: &Vec<Vec<mxcfb_rect>>, width: u32, height: u32, pos: Point2<u16>) -> (r: Option<Square>)
    requires
        boxes.len() == 8,
        forall|x: int| 0 <= x < 8 ==> (#[trigger] boxes@[x]).len() == 8,
        forall|x: int, y: int| on_board(x, y) ==> boxes@[x]@[y] == square_rect(width, height, x, y),
    ensures
        r == spec_hit(width, height, pos.x as int, pos.y as int),
{
    let ghost px = pos.x as int;
    let ghost py = pos.y as int;
    let mut found: Option<Square> = None;
    let mut x: usize = 0;
    while x < 8
        invariant
            boxes.len() == 8,
            forall|i: int| 0 <= i < 8 ==> (#[trigger] boxes@[i]).len() == 8,
            forall|i: int, j: int| on_board(i, j) ==> boxes@[i]@[j] == square_rect(width, height, i, j),
            x <= 8,
            px == pos.x && py == pos.y,
            found matches Some(sq) ==> exists|i: int, j: int|
                #[trigger] square_holds(width, height, i, j, px, py) && sq == Square::at(i, j),
            found is None ==> forall|i: int, j: int|
                0 <= i < x && 0 <= j < 8 ==> !#[trigger] square_holds(width, height, i, j, px, py),
        decreases 8 - x,
    {
        let mut y: usize = 0;
        while y < 8
            invariant
                boxes.len() == 8,
                forall|i: int| 0 <= i < 8 ==> (#[trigger] boxes@[i]).len() == 8,
                forall|i: int, j: int| on_board(i, j) ==> boxes@[i]@[j] == square_rect(width, height, i, j),
                x < 8,
                y <= 8,
                px == pos.x && py == pos.y,
                found matches Some(sq) ==> exists|i: int, j: int|
                    #[trigger] square_holds(width, height, i, j, px, py) && sq == Square::at(i, j),
                found is None ==> forall|i: int, j: int|
                    (0 <= i < x && 0 <= j < 8) || (i == x && 0 <= j < y) ==> !#[trigger] square_holds(
                        width,
                        height,
                        i,
                        j,
                        px,
                        py,
                    ),
            decreases 8 - y,
        {
            proof {
                assert(on_board(x as int, y as int));
                assert(boxes@[x as int]@[y as int] == square_rect(width, height, x as int, y as int));
            }
            if is_hitting(pos, boxes[x][y]) {
                proof {
                    assert(square_holds(width, height, x as int, y as int, px, py));
                }
                found = Some(Square((y * 8 + x) as u8));
            }
            y = y + 1;
        }
        x = x + 1;
    }
    proof {
        match found {
            Some(sq) => {
                let (i, j) = choose|i: int, j: int|
                    #[trigger] square_holds(width, height, i, j, px, py) && sq == Square::at(i, j);
                lemma_hit_is_unique(width, height, i, j, px, py);
            },
            None => {
                assert(!exists|i: int, j: int| #[trigger] square_holds(width, height, i, j, px, py));
            },
        }
    }
    found
}

/// The side of a square on a board laid out on a display of the given
/// size: an eighth of the shorter side.
pub open spec fn square_size(width: u32, height: u32) -> u32 {
    (if width < height {
        width
    } else {
        height
    }) / 8
}

/// The squares whose piece differs between two boards.
pub open spec fn changed_squares(before: Seq<Option<Piece>>, after: Seq<Option<Piece>>) -> Set<Square> {
    Set::new(|sq: Square| sq.wf() && before[sq.0 as int] != after[sq.0 as int])
}

/// The squares named by two optional squares.
pub open spec fn marked_squares(a: Option<Square>, b: Option<Square>) -> Set<Square> {
    let sa = match a {
        Some(s) => set![s],
        None => Set::empty(),
    };
    let sb = match b {
        Some(s) => set![s],
        None => Set::empty(),
    };
    sa + sb
}

/// Whether a touch falls in a button's hit box, if the button is shown.
pub open spec fn pressed(button: Option<mxcfb_rect>, px: int, py: int) -> bool {
    button matches Some(rect) && rect_contains(rect, px, py)
}

/// Marks for redrawing the squares whose piece differs between two boards.
fn mark_changed(redraw: &mut SquareSet, before: &Vec<Option<Piece>>, after: &Vec<Option<Piece>>)
    requires
        old(redraw).wf(),
        before.len() == 64,
        after.len() == 64,
    ensures
        final(redraw).wf(),
        final(redraw)@ == old(redraw)@ + changed_squares(before@, after@),
{
    let mut i: usize = 0;
    while i < 64
        invariant
            redraw.wf(),
            before.len() == 64,
            after.len() == 64,
            i <= 64,
            redraw@ == old(redraw)@ + Set::new(
                |sq: Square| sq.0 < i && before@[sq.0 as int] != after@[sq.0 as int],
            ),
        decreases 64 - i,
    {
        let differs = match (before[i], after[i]) {
            (Some(a), Some(b)) => a != b,
            (None, None) => false,
            _ => true,
        };
        if differs {
            redraw.insert(Square(i as u8));
        }
        proof {
            assert(redraw@ =~= old(redraw)@ + Set::new(
                |sq: Square| sq.0 < i + 1 && before@[sq.0 as int] != after@[sq.0 as int],
            ));
        }
        i = i + 1;
    }
    proof {
        assert(redraw@ =~= old(redraw)@ + changed_squares(before@, after@));
    }
}

/// The rectangle covering the whole board on a display of the given size:
/// from the top left corner of `A8` to the bottom right corner of `H1`.
pub open spec fn board_rect(width: u32, height: u32) -> mxcfb_rect {
    let tl = square_rect(width, height, 0, 7);
    let br = square_rect(width, height, 7, 0);
    mxcfb_rect {
        left: tl.left,
        top: tl.top,
        width: (br.left + br.width - tl.left) as u32,
        height: (br.top + br.height - tl.top) as u32,
    }
}

/// The corners of the board lie on the display, top left before bottom
/// right.
proof fn lemma_board_corners(width: u32, height: u32)
    ensures
        ({
            let tl = square_rect(width, height, 0, 7);
            let br = square_rect(width, height, 7, 0);
            &&& br.left + br.width <= width
            &&& br.top + br.height <= height
            &&& tl.left <= br.left + br.width
            &&& tl.top <= br.top + br.height
        }),
{
    lemma_board_fits(width, height, 0, 7);
    lemma_board_fits(width, height, 7, 0);
}

/// How one square of the board is drawn, layer by layer: its background
/// (light or dark), the marks of the last move's start and end, its piece,
/// and over the piece the selection mark and the move hint.
#[derive(PartialEq, Eq, Structural, Copy, Clone, Debug)]
pub struct SquarePaint {
    pub square: Square,
    pub bounds: mxcfb_rect,
    pub light: bool,
    pub moved_from: bool,
    pub moved_to: bool,
    pub piece: Option<Piece>,
    pub selected: bool,
    pub move_hint: bool,
}

/// The hit boxes of the screen's buttons, as drawn.
#[derive(PartialEq, Eq, Structural, Copy, Clone, Debug)]
pub struct SceneButtons {
    pub back: mxcfb_rect,
    pub undo: mxcfb_rect,
    pub reset: mxcfb_rect,
    pub next: mxcfb_rect,
    pub full_refresh: mxcfb_rect,
}

/// The replay screen.
pub struct ReplayScene {
    board_fen: String,
    pieces: Vec<Option<Piece>>,
    first_draw: bool,
    back_button_hitbox: Option<mxcfb_rect>,
    undo_button_hitbox: Option<mxcfb_rect>,
    next_move_button_hitbox: Option<mxcfb_rect>,
    reset_button_hitbox: Option<mxcfb_rect>,
    full_refresh_button_hitbox: Option<mxcfb_rect>,
    width: u32,
    height: u32,
    piece_hitboxes: Vec<Vec<mxcfb_rect>>,
    piece_padding: u32,
    overlay_padding: u32,
    selection: BoardSelection,
    redraw_all_squares: bool,
    last_move_from: Option<Square>,
    last_move_to: Option<Square>,
    /// Set when the user asked to leave the screen.
    pub return_to_main_menu: bool,
    full_refresh_requested: bool,
    move_comment: Option<String>,
    move_comment_last_rect: Option<mxcfb_rect>,
    is_game_over: bool,
    replay: Replay,
}

/// The abstract state of the replay screen.
pub struct SceneView {
    /// The recorded game.
    pub info: ReplayInfo,
    pub replay: ReplayModel,
    pub selection: SelectionModel,
    /// The position shown, as FEN.
    pub board: Seq<char>,
    pub last_move_from: Option<Square>,
    pub last_move_to: Option<Square>,
    /// The display size the board is laid out for.
    pub width: u32,
    pub height: u32,
    pub back_button: Option<mxcfb_rect>,
    pub undo_button: Option<mxcfb_rect>,
    pub next_move_button: Option<mxcfb_rect>,
    pub reset_button: Option<mxcfb_rect>,
    pub full_refresh_button: Option<mxcfb_rect>,
    /// Whether every square is to be redrawn.
    pub redraw_all: bool,
    pub first_draw: bool,
    pub return_to_main_menu: bool,
    /// Whether a full refresh of the display was asked for.
    pub refresh_requested: bool,
    /// The comment waiting to be drawn.
    pub comment: Option<Seq<char>>,
    /// Where the comment last drawn stands.
    pub comment_rect: Option<mxcfb_rect>,
    pub game_over: bool,
}

impl View for ReplayScene {
    type V = SceneView;

    closed spec fn view(&self) -> SceneView {
        SceneView {
            info: self.replay.info(),
            replay: self.replay@,
            selection: self.selection@,
            board: self.board_fen@,
            last_move_from: self.last_move_from,
            last_move_to: self.last_move_to,
            width: self.width,
            height: self.height,
            back_button: self.back_button_hitbox,
            undo_button: self.undo_button_hitbox,
            next_move_button: self.next_move_button_hitbox,
            reset_button: self.reset_button_hitbox,
            full_refresh_button: self.full_refresh_button_hitbox,
            redraw_all: self.redraw_all_squares,
            first_draw: self.first_draw,
            return_to_main_menu: self.return_to_main_menu,
            refresh_requested: self.full_refresh_requested,
            comment: match self.move_comment {
                Some(c) => Some(c@),
                None => None,
            },
            comment_rect: self.move_comment_last_rect,
            game_over: self.is_game_over,
        }
    }
}

impl SceneView {
    /// The screen showing the position of a FEN text, with the squares
    /// whose piece changed marked for redrawing; unchanged if the text
    /// does not give a position.
    pub open spec fn with_board(self, fen: Seq<char>) -> SceneView {
        match spec_read_fen(fen) {
            Ok(f) => SceneView {
                board: f,
                selection: SelectionModel {
                    redraw: self.selection.redraw + changed_squares(spec_board(self.board), spec_board(f)),
                    ..self.selection
                },
                ..self
            },
            Err(_) => self,
        }
    }

    /// The screen after a move: nothing selected, no finger down, the move
    /// hints and the last move's marks cleared (their squares redrawn),
    /// and the legal moves of the replay's position listed.
    pub open spec fn cleared_after_move(self) -> SceneView {
        let c = SelectionModel { selected: None, finger_down: None, ..self.selection }.cleared_hints();
        SceneView {
            selection: SelectionModel {
                redraw: c.redraw + marked_squares(self.last_move_from, self.last_move_to),
                moves: move_pairs(spec_legal_moves(self.replay.game.position)),
                ..c
            },
            last_move_from: None,
            last_move_to: None,
            ..self
        }
    }

    /// The screen showing a replay response: its position, its comment and
    /// its move's squares.
    pub open spec fn showing(self, resp: ResponseView) -> SceneView {
        let s = self.with_board(resp.fen).cleared_after_move();
        SceneView {
            comment: resp.comment,
            last_move_from: resp.last_move_from,
            last_move_to: resp.last_move_to,
            ..s
        }
    }
}

impl SceneView {
    /// What a finger going down does: the square under it is remembered;
    /// then the first button under it, in the order back, refresh, next
    /// move, reset, undo, takes effect.
    pub open spec fn spec_on_press(self, px: int, py: int) -> SceneView {
        let v = match spec_hit(self.width, self.height, px, py) {
            Some(sq) => SceneView { selection: SelectionModel { finger_down: Some(sq), ..self.selection }, ..self },
            None => self,
        };
        if pressed(v.back_button, px, py) {
            SceneView { return_to_main_menu: true, ..v }
        } else if pressed(v.full_refresh_button, px, py) {
            SceneView { refresh_requested: true, ..v }
        } else if pressed(v.next_move_button, px, py) {
            let (r2, resp) = spec_play_replay_move(v.replay, v.info);
            SceneView { replay: r2, ..v }.showing(resp)
        } else if pressed(v.reset_button, px, py) {
            SceneView { replay: spec_reset(), ..v }.showing(plain_response(spec_start_fen(), None))
        } else if pressed(v.undo_button, px, py) {
            let r2 = spec_undo_move(v.replay);
            SceneView { replay: r2, ..v }.showing(plain_response(r2.game.position, None))
        } else {
            v
        }
    }

    /// What a finger lifted does: on a square, the selection reacts to the
    /// tap, and a move it completes is played as the user's own.
    pub open spec fn spec_on_release(self, px: int, py: int) -> SceneView {
        if self.game_over {
            self
        } else {
            match spec_hit(self.width, self.height, px, py) {
                None => self,
                Some(sq) => {
                    let has_piece = spec_board(self.board)[sq.0 as int] is Some;
                    let (sel, mv) = self.selection.spec_on_release(sq, has_piece);
                    let v = SceneView { selection: sel, ..self };
                    match mv {
                        None => v,
                        Some((src, dst)) => {
                            let (r2, resp) = spec_player_move(v.replay, src, dst);
                            SceneView { replay: r2, ..v }.showing(resp)
                        },
                    }
                },
            }
        }
    }

    /// Whether a finger going down plays the next recorded move: it falls on
    /// the next-move button and on neither button checked before it.
    pub open spec fn press_plays_a_move(self, px: int, py: int) -> bool {
        !pressed(self.back_button, px, py) && !pressed(self.full_refresh_button, px, py) && pressed(
            self.next_move_button,
            px,
            py,
        )
    }

    /// Whether a finger lifted plays a move of the user's own: it completes
    /// a move on the board.
    pub open spec fn release_plays_a_move(self, px: int, py: int) -> bool {
        &&& !self.game_over
        &&& spec_hit(self.width, self.height, px, py) matches Some(sq)
        &&& self.selection.spec_on_release(sq, spec_board(self.board)[sq.0 as int] is Some).1 is Some
    }

    /// Whether an input event plays a move.
    pub open spec fn plays_a_move(self, event: InputEvent) -> bool {
        match event {
            InputEvent::MultitouchEvent { event: MultitouchEvent::Press { finger } } => self.press_plays_a_move(
                finger.pos.x as int,
                finger.pos.y as int,
            ),
            InputEvent::MultitouchEvent { event: MultitouchEvent::Release { finger } } => self.release_plays_a_move(
                finger.pos.x as int,
                finger.pos.y as int,
            ),
            _ => false,
        }
    }

    /// What an input event does: presses and releases of a finger count,
    /// other events are ignored.
    pub open spec fn spec_on_input(self, event: InputEvent) -> SceneView {
        match event {
            InputEvent::MultitouchEvent { event: MultitouchEvent::Press { finger } } => self.spec_on_press(
                finger.pos.x as int,
                finger.pos.y as int,
            ),
            InputEvent::MultitouchEvent { event: MultitouchEvent::Release { finger } } => self.spec_on_release(
                finger.pos.x as int,
                finger.pos.y as int,
            ),
            _ => self,
        }
    }

    /// The screen as it starts for a recorded game on a display of the
    /// given size: the standard position shown, nothing selected, no legal
    /// moves listed yet, no buttons drawn.
    pub open spec fn initial(info: ReplayInfo, replay: ReplayModel, width: u32, height: u32) -> SceneView {
        SceneView {
            info,
            replay,
            selection: SelectionModel {
                selected: None,
                hints: Set::empty(),
                redraw: Set::empty(),
                finger_down: None,
                moves: Seq::empty(),
            },
            board: spec_start_fen(),
            last_move_from: None,
            last_move_to: None,
            width,
            height,
            back_button: None,
            undo_button: None,
            next_move_button: None,
            reset_button: None,
            full_refresh_button: None,
            redraw_all: false,
            first_draw: true,
            return_to_main_menu: false,
            refresh_requested: false,
            comment: None,
            comment_rect: None,
            game_over: false,
        }
    }
}

impl SceneView {
    /// Whether a square is to be drawn.
    pub open spec fn redraws(self, sq: Square) -> bool {
        self.redraw_all || self.selection.redraw.contains(sq)
    }

    /// How the square at file `x`, rank `y` is drawn.
    pub open spec fn paint_at(self, x: int, y: int) -> SquarePaint {
        let sq = Square::at(x, y);
        let piece = spec_board(self.board)[sq.0 as int];
        SquarePaint {
            square: sq,
            bounds: square_rect(self.width, self.height, x, y),
            light: x % 2 == y % 2,
            moved_from: self.last_move_from == Some(sq),
            moved_to: self.last_move_to == Some(sq),
            piece,
            selected: piece is Some && self.selection.selected == Some(sq),
            move_hint: self.selection.hints.contains(sq),
        }
    }

    /// The drawing of the first `k` squares, in the order `A1`, `A2`, ...,
    /// `A8`, `B1`, ..., `H8`, of those to be drawn.
    pub open spec fn paints_upto(self, k: int) -> Seq<SquarePaint>
        decreases k,
    {
        if k <= 0 {
            Seq::empty()
        } else {
            let p = self.paints_upto(k - 1);
            let x = (k - 1) / 8;
            let y = (k - 1) % 8;
            if self.redraws(Square::at(x, y)) {
                p.push(self.paint_at(x, y))
            } else {
                p
            }
        }
    }

    /// The drawing of every square to be drawn.
    pub open spec fn board_paints(self) -> Seq<SquarePaint> {
        self.paints_upto(64)
    }

    /// The display regions to refresh after drawing the board: the whole
    /// board when every square was drawn or when regions are merged, else
    /// each square drawn.
    pub open spec fn board_regions(self, no_merge: bool) -> Seq<mxcfb_rect> {
        if self.redraw_all || !no_merge {
            seq![board_rect(self.width, self.height)]
        } else {
            self.board_paints().map_values(|p: SquarePaint| p.bounds)
        }
    }
}

/// The square at the place `j` of the drawing order.
pub open spec fn square_in_order(j: int) -> Square {
    Square::at(j / 8, j % 8)
}

/// The place of a square in the drawing order.
pub open spec fn order_index(sq: Square) -> int {
    sq.file() * 8 + sq.rank()
}

/// The square at a place of the drawing order has that place, and every
/// square on the board is the square at its place.
proof fn lemma_order_index(j: int, sq: Square)
    ensures
        0 <= j < 64 ==> square_in_order(j).wf() && order_index(square_in_order(j)) == j,
        sq.wf() ==> 0 <= order_index(sq) < 64 && square_in_order(order_index(sq)) == sq,
{
    if 0 <= j < 64 {
        let a = (j % 8) * 8 + j / 8;
        assert(a % 8 == j / 8 && a / 8 == j % 8 && 0 <= a < 64) by (nonlinear_arith)
            requires
                a == (j % 8) * 8 + j / 8,
                0 <= j < 64,
        ;
        assert(square_in_order(j).0 == a);
    }
    if sq.wf() {
        let i = order_index(sq);
        assert(i / 8 == sq.file() && i % 8 == sq.rank() && 0 <= i < 64) by (nonlinear_arith)
            requires
                i == sq.file() * 8 + sq.rank(),
                0 <= sq.rank() < 8,
                0 <= sq.file() < 8,
        ;
        assert(sq.rank() * 8 + sq.file() == sq.0);
    }
}

/// The squares drawn among the first `k` places of the drawing order.
pub open spec fn painted_squares(v: SceneView, k: int) -> Seq<Square> {
    v.paints_upto(k).map_values(|p: SquarePaint| p.square)
}

/// The squares drawn among the first `k` places: one for each place whose
/// square is to be drawn, in order, none twice.
proof fn lemma_paints_upto(v: SceneView, k: int)
    requires
        0 <= k <= 64,
    ensures
        forall|i: int|
            0 <= i < painted_squares(v, k).len() ==> (#[trigger] painted_squares(v, k)[i]).wf() && order_index(
                painted_squares(v, k)[i],
            ) < k && v.redraws(painted_squares(v, k)[i]),
        forall|j: int|
            0 <= j < k && v.redraws(#[trigger] square_in_order(j)) ==> painted_squares(v, k).contains(
                square_in_order(j),
            ),
        painted_squares(v, k).no_duplicates(),
    decreases k,
{
    if k == 0 {
        assert(painted_squares(v, k) =~= Seq::<Square>::empty());
    } else {
        lemma_paints_upto(v, k - 1);
        let p = painted_squares(v, k - 1);
        let q = painted_squares(v, k);
        let j = k - 1;
        let sj = square_in_order(j);
        lemma_order_index(j, sj);
        assert(v.paint_at(j / 8, j % 8).square == sj);
        if v.redraws(sj) {
            assert(q =~= p.push(sj));
            assert forall|j2: int| 0 <= j2 < k && v.redraws(#[trigger] square_in_order(j2)) implies q.contains(
                square_in_order(j2),
            ) by {
                if j2 < j {
                    let i = choose|i: int| 0 <= i < p.len() && p[i] == square_in_order(j2);
                    assert(q[i] == p[i]);
                } else {
                    assert(q[p.len() as int] == sj);
                }
            }
            assert forall|i1: int, i2: int| 0 <= i1 < i2 < q.len() implies q[i1] != q[i2] by {
                if i2 < p.len() {
                    assert(q[i1] == p[i1] && q[i2] == p[i2]);
                } else {
                    assert(q[i1] == p[i1]);
                    assert(order_index(p[i1]) < j);
                }
            }
        } else {
            assert(q =~= p);
        }
    }
}

/// Drawing the board draws each square marked for drawing once, and no
/// other square.
pub proof fn law_draws_marked_squares(v: SceneView, sq: Square)
    requires
        sq.wf(),
    ensures
        v.redraws(sq) <==> v.board_paints().map_values(|p: SquarePaint| p.square).contains(sq),
        v.board_paints().map_values(|p: SquarePaint| p.square).no_duplicates(),
{
    lemma_paints_upto(v, 64);
    lemma_order_index(0, sq);
    assert(square_in_order(order_index(sq)) == sq);
    let ps = painted_squares(v, 64);
    if ps.contains(sq) {
        let i = choose|i: int| 0 <= i < ps.len() && ps[i] == sq;
        assert(v.redraws(ps[i]));
    }
}

/// Where the next button starts: `gap` pixels right of a button.
pub fn right_of(rect: mxcfb_rect, gap: i32) -> (r: i32)
    requires
        rect.left <= i32::MAX,
        rect.left + rect.width <= i32::MAX,
        rect.left + rect.width + gap <= i32::MAX,
    ensures
        r == rect.left + rect.width + gap,
{
    let left = rect.left as i32;
    let width = rect.width as i32;
    assert(left == rect.left && width == rect.width);
    left + width + gap
}

/// Whether the screen, after an input, still shows what it showed before or
/// else shows the replay's position with its legal moves listed.
pub open spec fn shows_replay_or_unchanged(before: SceneView, after: SceneView) -> bool {
    ||| after.board == before.board && after.selection.moves == before.selection.moves
    ||| after.board == after.replay.game.position && after.selection.moves == move_pairs(
        spec_legal_moves(after.replay.game.position),
    )
}

/// Showing a response that carries the replay's position shows that
/// position with its legal moves.
proof fn lemma_showing_position(v: SceneView, resp: ResponseView)
    requires
        resp.fen == v.replay.game.position,
        is_position(resp.fen),
    ensures
        v.showing(resp).board == v.replay.game.position,
        v.showing(resp).selection.moves == move_pairs(spec_legal_moves(v.replay.game.position)),
        v.showing(resp).replay == v.replay,
{
}

/// Every step of the replay that an input triggers shows the replay's new
/// position: an input leaves the board and the listed moves as they were,
/// or shows the replay's position and its legal moves.
proof fn lemma_input_shows_replay(v: SceneView, e: InputEvent)
    requires
        is_position(v.spec_on_input(e).replay.game.position),
    ensures
        shows_replay_or_unchanged(v, v.spec_on_input(e)),
{
    match e {
        InputEvent::MultitouchEvent { event: MultitouchEvent::Press { finger } } => {
            let px = finger.pos.x as int;
            let py = finger.pos.y as int;
            let w = match spec_hit(v.width, v.height, px, py) {
                Some(sq) => SceneView { selection: SelectionModel { finger_down: Some(sq), ..v.selection }, ..v },
                None => v,
            };
            if pressed(w.back_button, px, py) || pressed(w.full_refresh_button, px, py) {
            } else if pressed(w.next_move_button, px, py) {
                let (r2, resp) = spec_play_replay_move(w.replay, w.info);
                lemma_showing_position(SceneView { replay: r2, ..w }, resp);
            } else if pressed(w.reset_button, px, py) {
                lemma_showing_position(SceneView { replay: spec_reset(), ..w }, plain_response(spec_start_fen(), None));
            } else if pressed(w.undo_button, px, py) {
                let r2 = spec_undo_move(w.replay);
                lemma_showing_position(SceneView { replay: r2, ..w }, plain_response(r2.game.position, None));
            }
        },
        InputEvent::MultitouchEvent { event: MultitouchEvent::Release { finger } } => {
            let px = finger.pos.x as int;
            let py = finger.pos.y as int;
            if !v.game_over {
                match spec_hit(v.width, v.height, px, py) {
                    None => {},
                    Some(sq) => {
                        let has_piece = spec_board(v.board)[sq.0 as int] is Some;
                        let (sel, mv) = v.selection.spec_on_release(sq, has_piece);
                        let w = SceneView { selection: sel, ..v };
                        match mv {
                            None => {},
                            Some((src, dst)) => {
                                let (r2, resp) = spec_player_move(w.replay, src, dst);
                                lemma_showing_position(SceneView { replay: r2, ..w }, resp);
                            },
                        }
                    },
                }
            }
        },
        _ => {},
    }
}

/// Whether a button, if shown, holds a touch.
fn button_hit(button: Option<mxcfb_rect>, pos: Point2<u16>) -> (r: bool)
    ensures
        r == pressed(button, pos.x as int, pos.y as int),
{
    match button {
        Some(rect) => is_hitting(pos, rect),
        None => false,
    }
}

impl ReplayScene {
    /// The screen is consistent: the replay is, the pieces are those of the
    /// position shown, the hit boxes lay the board out on the display, and
    /// the paddings are a tenth and a twentieth of a square.
    pub closed spec fn wf(&self) -> bool {
        &&& self.replay.wf()
        &&& self.selection.wf()
        &&& is_position(self.board_fen@)
        &&& self.pieces@ == spec_board(self.board_fen@)
        &&& self.pieces.len() == 64
        &&& self.piece_hitboxes.len() == 8
        &&& forall|x: int| 0 <= x < 8 ==> (#[trigger] self.piece_hitboxes@[x]).len() == 8
        &&& forall|x: int, y: int|
            on_board(x, y) ==> self.piece_hitboxes@[x]@[y] == square_rect(self.width, self.height, x, y)
        &&& self.piece_padding == square_size(self.width, self.height) / 10
        &&& self.overlay_padding == square_size(self.width, self.height) / 20
    }

    /// Shows a position: the squares whose piece differs from the position
    /// shown before are marked for redrawing. A text that does not give a
    /// position is ignored.
    fn update_board(&mut self, fen: &str)
        requires
            old(self).wf(),
        ensures
            final(self).wf(),
            final(self)@ == old(self)@.with_board(fen@),
    {
        let new_fen = match read_fen(fen) {
            Ok(f) => f,
            Err(_) => {
                return ;
            },
        };
        let new_pieces = board(new_fen.as_str());
        mark_changed(&mut self.selection.redraw_squares, &self.pieces, &new_pieces);
        self.board_fen = new_fen;
        self.pieces = new_pieces;
    }

    /// Marks the squares of the last move for redrawing and forgets them.
    fn clear_last_moved_hints(&mut self)
        requires
            old(self).wf(),
        ensures
            final(self).wf(),
            final(self)@ == (SceneView {
                selection: SelectionModel {
                    redraw: old(self)@.selection.redraw + marked_squares(
                        old(self)@.last_move_from,
                        old(self)@.last_move_to,
                    ),
                    ..old(self)@.selection
                },
                last_move_from: None,
                last_move_to: None,
                ..old(self)@
            }),
    {
        let ghost r0 = self.selection.redraw_squares@;
        match self.last_move_from {
            Some(sq) => self.selection.redraw_squares.insert(sq),
            None => {},
        }
        match self.last_move_to {
            Some(sq) => self.selection.redraw_squares.insert(sq),
            None => {},
        }
        proof {
            assert(self.selection.redraw_squares@ =~= r0 + marked_squares(self.last_move_from, self.last_move_to));
        }
        self.last_move_from = None;
        self.last_move_to = None;
    }

    /// Clears the selection and the marks after a move and lists the legal
    /// moves of the replay's position.
    fn clear_state_post_move(&mut self)
        requires
            old(self).wf(),
        ensures
            final(self).wf(),
            final(self)@ == old(self)@.cleared_after_move(),
    {
        self.selection.selected_square = None;
        self.selection.finger_down_square = None;
        self.selection.clear_move_hints();
        self.clear_last_moved_hints();
        let moves = self.replay.possible_moves();
        self.selection.possible_moves = square_pairs(&moves);
        proof {
            assert(self@.selection.redraw =~= old(self)@.cleared_after_move().selection.redraw);
        }
    }

    /// The screen for a recorded game on a display of the given size.
    pub fn new(replay_info: ReplayInfo, display_width: u32, display_height: u32) -> (r: ReplayScene)
        requires
            fen_tag(replay_info) matches Some(f) ==> spec_read_fen(f) is Ok,
        ensures
            r.wf(),
            r@ == SceneView::initial(replay_info, replay_start(replay_info), display_width, display_height),
    {
        let square_size = (if display_width < display_height {
            display_width
        } else {
            display_height
        }) / 8;
        let piece_padding = square_size / 10;
        let overlay_padding = square_size / 20;
        let piece_hitboxes = board_hitboxes(display_width, display_height);
        let board_fen = start_position();
        let pieces = board(board_fen.as_str());
        let replay = Replay::new(replay_info);
        let r = ReplayScene {
            board_fen,
            pieces,
            first_draw: true,
            back_button_hitbox: None,
            undo_button_hitbox: None,
            next_move_button_hitbox: None,
            reset_button_hitbox: None,
            full_refresh_button_hitbox: None,
            width: display_width,
            height: display_height,
            piece_hitboxes,
            piece_padding,
            overlay_padding,
            selection: BoardSelection::new(),
            redraw_all_squares: false,
            last_move_from: None,
            last_move_to: None,
            return_to_main_menu: false,
            full_refresh_requested: false,
            move_comment: None,
            move_comment_last_rect: None,
            is_game_over: false,
            replay,
        };
        proof {
            assert(r@.selection.moves =~= Seq::<(Square, Square)>::empty());
        }
        r
    }

    /// The screen for a recorded game on a display of the given size, or
    /// none when the game's `FEN` tag does not give a position.
    pub fn try_new(replay_info: ReplayInfo, display_width: u32, display_height: u32) -> (r: Option<ReplayScene>)
        ensures
            r is None <==> (fen_tag(replay_info) matches Some(f) && spec_read_fen(f) is Err),
            r matches Some(s) ==> s.wf() && s@ == SceneView::initial(
                replay_info,
                replay_start(replay_info),
                display_width,
                display_height,
            ),
    {
        if fen_tag_readable(&replay_info) {
            Some(ReplayScene::new(replay_info, display_width, display_height))
        } else {
            None
        }
    }

    /// The square under a touch, if any.
    fn square_at(&self, pos: Point2<u16>) -> (r: Option<Square>)
        requires
            self.wf(),
        ensures
            r == spec_hit(self@.width, self@.height, pos.x as int, pos.y as int),
    {
        hit_square(&self.piece_hitboxes, self.width, self.height, pos)
    }

    /// Handles a finger going down.
    fn on_press(&mut self, pos: Point2<u16>)
        requires
            old(self).wf(),
            old(self)@.press_plays_a_move(pos.x as int, pos.y as int) ==> old(self)@.replay.game.moves < u16::MAX,
        ensures
            final(self).wf(),
            final(self)@ == old(self)@.spec_on_press(pos.x as int, pos.y as int),
    {
        match self.square_at(pos) {
            Some(sq) => {
                self.selection.finger_down_square = Some(sq);
            },
            None => {},
        }
        if button_hit(self.back_button_hitbox, pos) {
            self.return_to_main_menu = true;
        } else if button_hit(self.full_refresh_button_hitbox, pos) {
            self.full_refresh_requested = true;
        } else if button_hit(self.next_move_button_hitbox, pos) {
            let response = self.replay.play_replay_move();
            self.play_replay_move(response);
        } else if button_hit(self.reset_button_hitbox, pos) {
            let response = self.replay.reset();
            self.play_replay_move(response);
        } else if button_hit(self.undo_button_hitbox, pos) {
            let response = self.replay.undo_move();
            self.play_replay_move(response);
        }
    }

    /// Handles a finger lifted.
    fn on_release(&mut self, pos: Point2<u16>)
        requires
            old(self).wf(),
            old(self)@.release_plays_a_move(pos.x as int, pos.y as int) ==> old(self)@.replay.game.moves < u16::MAX,
        ensures
            final(self).wf(),
            final(self)@ == old(self)@.spec_on_release(pos.x as int, pos.y as int),
    {
        if self.is_game_over {
            return ;
        }
        match self.square_at(pos) {
            None => {},
            Some(sq) => {
                let has_piece = self.pieces[sq.0 as usize].is_some();
                match self.selection.on_release(sq, has_piece) {
                    None => {},
                    Some((src, dst)) => self.on_user_move(src, dst),
                }
            },
        }
    }

    /// Plays a move of the user's own and shows the answer.
    fn on_user_move(&mut self, src: Square, dest: Square)
        requires
            old(self).wf(),
            old(self)@.replay.game.moves < u16::MAX,
        ensures
            final(self).wf(),
            final(self)@ == ({
                let (r2, resp) = spec_player_move(old(self)@.replay, src, dest);
                SceneView { replay: r2, ..old(self)@ }.showing(resp)
            }),
    {
        let response = self.replay.player_move(src, dest);
        self.play_replay_move(response);
    }

    /// Handles an input event: taps on the board select pieces and play
    /// moves, taps on the buttons step through the replay, leave the
    /// screen or ask for a full refresh.
    #[verifier::spinoff_prover]
    #[verifier::rlimit(60)]
    pub fn on_input(&mut self, event: InputEvent)
        requires
            old(self).wf(),
            old(self)@.plays_a_move(event) ==> old(self)@.replay.game.moves < u16::MAX,
        ensures
            final(self).wf(),
            final(self)@ == old(self)@.spec_on_input(event),
            shows_replay_or_unchanged(old(self)@, final(self)@),
    {
        let ghost v = self@;
        match event {
            InputEvent::MultitouchEvent { event } => match event {
                MultitouchEvent::Press { finger } => self.on_press(finger.pos),
                MultitouchEvent::Release { finger } => self.on_release(finger.pos),
                _ => {},
            },
            _ => {},
        }
    }

    /// Works out the board's drawing: how each square to be drawn is drawn
    /// and which display regions to refresh; the squares are then no longer
    /// marked for drawing. The caller paints.
    pub fn draw_board(&mut self, no_merge: bool) -> (r: (Vec<SquarePaint>, Vec<mxcfb_rect>))
        requires
            old(self).wf(),
        ensures
            final(self).wf(),
            r.0@ == old(self)@.board_paints(),
            r.1@ == old(self)@.board_regions(no_merge),
            final(self)@ == (SceneView {
                redraw_all: false,
                selection: SelectionModel { redraw: Set::empty(), ..old(self)@.selection },
                ..old(self)@
            }),
    {
        let ghost v = self@;
        let mut paints: Vec<SquarePaint> = Vec::new();
        let mut regions: Vec<mxcfb_rect> = Vec::new();
        let mut x: usize = 0;
        while x < 8
            invariant
                self.wf(),
                self@ == v,
                x <= 8,
                paints@ == v.paints_upto(x * 8),
                regions@ == paints@.map_values(|p: SquarePaint| p.bounds),
            decreases 8 - x,
        {
            let mut y: usize = 0;
            while y < 8
                invariant
                    self.wf(),
                    self@ == v,
                    x < 8,
                    y <= 8,
                    paints@ == v.paints_upto(x * 8 + y),
                    regions@ == paints@.map_values(|p: SquarePaint| p.bounds),
                decreases 8 - y,
            {
                proof {
                    assert((x * 8 + y) / 8 == x && (x * 8 + y) % 8 == y) by (nonlinear_arith)
                        requires
                            0 <= y < 8,
                            0 <= x,
                    ;
                    assert(on_board(x as int, y as int));
                }
                let square = Square((y * 8 + x) as u8);
                if self.redraw_all_squares || self.selection.redraw_squares.contains(square) {
                    let bounds = self.piece_hitboxes[x][y];
                    let piece = self.pieces[square.0 as usize];
                    let moved_from = match self.last_move_from {
                        Some(s) => s == square,
                        None => false,
                    };
                    let moved_to = match self.last_move_to {
                        Some(s) => s == square,
                        None => false,
                    };
                    let selected = piece.is_some() && match self.selection.selected_square {
                        Some(s) => s == square,
                        None => false,
                    };
                    let move_hint = self.selection.move_hints.contains(square);
                    let paint = SquarePaint {
                        square,
                        bounds,
                        light: x % 2 == y % 2,
                        moved_from,
                        moved_to,
                        piece,
                        selected,
                        move_hint,
                    };
                    paints.push(paint);
                    regions.push(bounds);
                    proof {
                        assert(paint == v.paint_at(x as int, y as int));
                    }
                }
                proof {
                    assert(regions@ =~= paints@.map_values(|p: SquarePaint| p.bounds));
                }
                y = y + 1;
            }
            x = x + 1;
        }
        if self.redraw_all_squares || !no_merge {
            proof {
                lemma_board_corners(self.width, self.height);
                assert(on_board(7, 0) && on_board(0, 7));
                assert(self.piece_hitboxes@[7]@[0] == square_rect(self.width, self.height, 7, 0));
                assert(self.piece_hitboxes@[0]@[7] == square_rect(self.width, self.height, 0, 7));
            }
            regions = Vec::new();
            regions.push(full_board_rect(&self.piece_hitboxes));
            proof {
                assert(regions@ =~= seq![board_rect(self.width, self.height)]);
            }
        }
        self.selection.redraw_squares.clear();
        self.redraw_all_squares = false;
        (paints, regions)
    }

    /// Whether the first frame is still to be drawn.
    pub fn is_first_draw(&self) -> (r: bool)
        ensures
            r == self@.first_draw,
    {
        self.first_draw
    }

    /// Records the first frame: the buttons stand where they were drawn,
    /// and every square is to be drawn.
    pub fn finish_first_frame(&mut self, buttons: SceneButtons)
        requires
            old(self).wf(),
        ensures
            final(self).wf(),
            final(self)@ == (SceneView {
                back_button: Some(buttons.back),
                undo_button: Some(buttons.undo),
                reset_button: Some(buttons.reset),
                next_move_button: Some(buttons.next),
                full_refresh_button: Some(buttons.full_refresh),
                redraw_all: true,
                first_draw: false,
                ..old(self)@
            }),
    {
        self.back_button_hitbox = Some(buttons.back);
        self.undo_button_hitbox = Some(buttons.undo);
        self.reset_button_hitbox = Some(buttons.reset);
        self.next_move_button_hitbox = Some(buttons.next);
        self.full_refresh_button_hitbox = Some(buttons.full_refresh);
        self.redraw_all_squares = true;
        self.first_draw = false;
    }

    /// Whether any square is to be drawn.
    pub fn needs_board_redraw(&self) -> (r: bool)
        requires
            self.wf(),
        ensures
            r == (self@.redraw_all || self@.selection.redraw.len() > 0),
    {
        self.redraw_all_squares || self.selection.redraw_squares.len() > 0
    }

    /// Whether a full refresh was asked for; the request is then
    /// forgotten.
    pub fn take_refresh_request(&mut self) -> (r: bool)
        requires
            old(self).wf(),
        ensures
            final(self).wf(),
            r == old(self)@.refresh_requested,
            final(self)@ == (SceneView { refresh_requested: false, ..old(self)@ }),
    {
        let r = self.full_refresh_requested;
        self.full_refresh_requested = false;
        r
    }

    /// The region of the comment last drawn, to be cleared now that a new
    /// comment waits; the region is then forgotten. None while no new
    /// comment waits or no comment was drawn.
    pub fn comment_to_clear(&mut self) -> (r: Option<mxcfb_rect>)
        requires
            old(self).wf(),
        ensures
            final(self).wf(),
            old(self)@.comment_rect is Some && old(self)@.comment is Some ==> r == old(self)@.comment_rect
                && final(self)@ == (SceneView { comment_rect: None, ..old(self)@ }),
            !(old(self)@.comment_rect is Some && old(self)@.comment is Some) ==> r is None && final(self)@
                == old(self)@,
    {
        if self.move_comment_last_rect.is_some() && self.move_comment.is_some() {
            let r = self.move_comment_last_rect;
            self.move_comment_last_rect = None;
            r
        } else {
            None
        }
    }

    /// The comment waiting to be drawn, if any; it no longer waits.
    pub fn take_comment(&mut self) -> (r: Option<String>)
        requires
            old(self).wf(),
        ensures
            final(self).wf(),
            match r {
                Some(c) => old(self)@.comment == Some(c@),
                None => old(self)@.comment is None,
            },
            final(self)@ == (SceneView { comment: None, ..old(self)@ }),
    {
        let r = match &self.move_comment {
            Some(c) => Some(c.clone()),
            None => None,
        };
        self.move_comment = None;
        r
    }

    /// Records where the comment was drawn.
    pub fn comment_drawn(&mut self, rect: mxcfb_rect)
        requires
            old(self).wf(),
        ensures
            final(self).wf(),
            final(self)@ == (SceneView { comment_rect: Some(rect), ..old(self)@ }),
    {
        self.move_comment_last_rect = Some(rect);
    }

    /// The side of a square on the display.
    pub fn square_size(&self) -> (r: u32)
        ensures
            r == square_size(self@.width, self@.height),
    {
        (if self.width < self.height {
            self.width
        } else {
            self.height
        }) / 8
    }

    /// The space between a square's edge and its piece's image: a tenth of
    /// a square.
    pub fn piece_padding(&self) -> (r: u32)
        requires
            self.wf(),
        ensures
            r == square_size(self@.width, self@.height) / 10,
    {
        self.piece_padding
    }

    /// The space between a square's edge and the selection and hint marks:
    /// a twentieth of a square.
    pub fn overlay_padding(&self) -> (r: u32)
        requires
            self.wf(),
        ensures
            r == square_size(self@.width, self@.height) / 20,
    {
        self.overlay_padding
    }

    /// Whether an input event would play a move: the next recorded move, or
    /// a move of the user's own on the board.
    pub fn plays_a_move(&self, event: InputEvent) -> (r: bool)
        requires
            self.wf(),
        ensures
            r == self@.plays_a_move(event),
    {
        match event {
            InputEvent::MultitouchEvent { event } => match event {
                MultitouchEvent::Press { finger } => !button_hit(self.back_button_hitbox, finger.pos)
                    && !button_hit(self.full_refresh_button_hitbox, finger.pos) && button_hit(
                    self.next_move_button_hitbox,
                    finger.pos,
                ),
                MultitouchEvent::Release { finger } => {
                    if self.is_game_over {
                        return false;
                    }
                    match self.square_at(finger.pos) {
                        None => false,
                        Some(sq) => match self.selection.selected_square {
                            Some(last) => last != sq && contains_pair(&self.selection.possible_moves, last, sq),
                            None => {
                                let down = match self.selection.finger_down_square {
                                    Some(d) => d,
                                    None => sq,
                                };
                                down != sq
                            },
                        },
                    }
                },
                _ => false,
            },
            _ => false,
        }
    }

    /// The number of moves on the board.
    pub fn total_moves(&self) -> (r: u16)
        ensures
            r == self@.replay.game.moves,
    {
        self.replay.total_moves()
    }

    /// Shows what a step of the replay answered: its position, the moved
    /// squares and the comment.
    fn play_replay_move(&mut self, replay_response: ReplayResponse)
        requires
            old(self).wf(),
        ensures
            final(self).wf(),
            final(self)@ == old(self)@.showing(replay_response@),
    {
        self.update_board(replay_response.fen.as_str());
        self.clear_state_post_move();
        self.move_comment = replay_response.comment;
        self.last_move_from = replay_response.last_move_from;
        self.last_move_to = replay_response.last_move_to;
    }
}

} // verus!
