//! The board screen's decisions: where the squares are drawn, and what a
//! tap on a square does to the selection, the move hints and the squares
//! to redraw.

use vstd::prelude::*;
use crate::hal::mxcfb_rect;
use crate::square::Square;
use fxhash::{FxHashSet, FxHasher};
use std::hash::BuildHasherDefault;

verus! {

/// Adding an element to a sequence adds it to its set.
pub proof fn lemma_push_to_set<A>(s: Seq<A>, x: A)
    ensures
        s.push(x).to_set() == s.to_set().insert(x),
{
    assert forall|a: A| s.push(x).to_set().contains(a) == s.to_set().insert(x).contains(a) by {
        if s.push(x).contains(a) {
            let k = choose|k: int| 0 <= k < s.push(x).len() && s.push(x)[k] == a;
            if k < s.len() {
                assert(s[k] == a);
            }
        }
        if s.contains(a) {
            let k = choose|k: int| 0 <= k < s.len() && s[k] == a;
            assert(s.push(x)[k] == a);
        }
        if a == x {
            assert(s.push(x)[s.len() as int] == a);
        }
    }
    assert(s.push(x).to_set() =~= s.to_set().insert(x));
}

/// The squares of a board of the given display size fit on the display.
pub proof fn lemma_board_fits(width: u32, height: u32, x: int, y: int)
    requires
        0 <= x < 8,
        0 <= y < 8,
    ensures
        ({
            let size = (if width < height {
                width
            } else {
                height
            }) / 8;
            &&& size * 8 <= width
            &&& size * 8 <= height
            &&& (width - size * 8) / 2 + size * x <= width
            &&& (height - size * 8) / 2 + size * (7 - y) <= height
        }),
{
    let m = if width < height {
        width
    } else {
        height
    };
    let size = m / 8;
    assert(size * 8 <= m);
    assert(size * x <= size * 7) by (nonlinear_arith)
        requires
            0 <= x < 8,
            size >= 0,
    ;
    assert(size * (7 - y) <= size * 7) by (nonlinear_arith)
        requires
            0 <= y < 8,
            size >= 0,
    ;
}

#[verifier::external_type_specification]
#[verifier::external_body]
pub struct ExFxHasher(FxHasher);

#[verifier::external_type_specification]
#[verifier::external_body]
#[verifier::reject_recursive_types(H)]
pub struct ExBuildHasherDefault<H>(BuildHasherDefault<H>);

/// Adds an index to a hash set of indices.
///
/// Trusted: calls `HashSet::insert`, which std documents as adding the
/// value; with `u8` keys, whose `Hash` and `Eq` agree, the set then holds
/// exactly what it held and the value.
#[verifier::external_body]
fn insert_index(set: &mut FxHashSet<u8>, i: u8)
    ensures
        final(set)@ == old(set)@.insert(i),
{
    set.insert(i);
}

/// Whether a hash set of indices holds an index.
///
/// Trusted: calls `HashSet::contains`, which std documents as telling
/// whether the set holds the value.
#[verifier::external_body]
fn contains_index(set: &FxHashSet<u8>, i: u8) -> (r: bool)
    ensures
        r == set@.contains(i),
{
    set.contains(&i)
}

/// The number of indices in a hash set.
///
/// Trusted: calls `HashSet::len`, which std documents as the number of
/// elements in the set.
#[verifier::external_body]
fn index_count(set: &FxHashSet<u8>) -> (r: usize)
    ensures
        r == set@.len(),
{
    set.len()
}

/// The indices of a hash set, each once, in the order the set is walked.
///
/// Trusted: calls `HashSet::iter`, which std documents as visiting every
/// element once, in arbitrary order, and collects the copies. The order is
/// left open.
#[verifier::external_body]
fn indices(set: &FxHashSet<u8>) -> (r: Vec<u8>)
    ensures
        r@.to_set() == set@,
        r@.no_duplicates(),
{
    set.iter().copied().collect()
}

/// The square with a given index.
pub open spec fn square_of(i: u8) -> Square {
    Square(i)
}

/// A set of squares, held as a hash set of their indices.
#[derive(Debug)]
pub struct SquareSet {
    items: FxHashSet<u8>,
}

impl View for SquareSet {
    type V = Set<Square>;

    closed spec fn view(&self) -> Set<Square> {
        self.items@.map(|i: u8| square_of(i))
    }
}

/// The squares of a set of indices hold a square exactly when the set
/// holds its index.
proof fn lemma_squares_of(items: Set<u8>, sq: Square)
    ensures
        items.map(|i: u8| square_of(i)).contains(sq) == items.contains(sq.0),
{
    if items.contains(sq.0) {
        assert(square_of(sq.0) == sq);
    }
}

impl SquareSet {
    /// The set of indices is finite.
    pub closed spec fn wf(&self) -> bool {
        self.items@.finite()
    }

    /// The empty set.
    pub fn new() -> (r: SquareSet)
        ensures
            r.wf(),
            r@ == Set::<Square>::empty(),
    {
        let r = SquareSet { items: FxHashSet::default() };
        proof {
            assert forall|sq: Square| !r@.contains(sq) by {
                lemma_squares_of(r.items@, sq);
            }
            assert(r@ =~= Set::<Square>::empty());
        }
        r
    }

    /// Whether the set holds a square.
    pub fn contains(&self, sq: Square) -> (r: bool)
        ensures
            r == self@.contains(sq),
    {
        proof {
            lemma_squares_of(self.items@, sq);
        }
        contains_index(&self.items, sq.0)
    }

    /// Adds a square.
    pub fn insert(&mut self, sq: Square)
        requires
            old(self).wf(),
        ensures
            final(self).wf(),
            final(self)@ == old(self)@.insert(sq),
    {
        let ghost before = self.items@;
        insert_index(&mut self.items, sq.0);
        proof {
            assert forall|q: Square| self@.contains(q) == old(self)@.insert(sq).contains(q) by {
                lemma_squares_of(self.items@, q);
                lemma_squares_of(before, q);
            }
            assert(self@ =~= old(self)@.insert(sq));
        }
    }

    /// Removes every square.
    pub fn clear(&mut self)
        ensures
            final(self).wf(),
            final(self)@ == Set::<Square>::empty(),
    {
        self.items.clear();
        proof {
            assert forall|sq: Square| !self@.contains(sq) by {
                lemma_squares_of(self.items@, sq);
            }
            assert(self@ =~= Set::<Square>::empty());
        }
    }

    /// The number of squares held.
    pub fn len(&self) -> (r: usize)
        requires
            self.wf(),
        ensures
            r == self@.len(),
    {
        proof {
            let f = |i: u8| square_of(i);
            assert(vstd::relations::injective_on(f, self.items@));
            vstd::set_lib::lemma_map_size(self.items@, self@, f);
        }
        index_count(&self.items)
    }

    /// The squares held, each once, in no particular order.
    pub fn to_vec(&self) -> (r: Vec<Square>)
        ensures
            r@.to_set() == self@,
            r@.no_duplicates(),
    {
        let idx = indices(&self.items);
        let mut out: Vec<Square> = Vec::new();
        let mut k: usize = 0;
        while k < idx.len()
            invariant
                k <= idx.len(),
                out@ == idx@.take(k as int).map_values(|i: u8| square_of(i)),
            decreases idx.len() - k,
        {
            out.push(Square(idx[k]));
            k = k + 1;
            proof {
                assert(out@ =~= idx@.take(k as int).map_values(|i: u8| square_of(i)));
            }
        }
        proof {
            assert(idx@.take(idx.len() as int) =~= idx@);
            assert forall|sq: Square| out@.to_set().contains(sq) == self@.contains(sq) by {
                lemma_squares_of(self.items@, sq);
                if out@.contains(sq) {
                    let j = choose|j: int| 0 <= j < out@.len() && out@[j] == sq;
                    assert(idx@[j] == sq.0);
                    assert(idx@.to_set().contains(sq.0));
                }
                if self.items@.contains(sq.0) {
                    assert(idx@.to_set().contains(sq.0));
                    let j = choose|j: int| 0 <= j < idx@.len() && idx@[j] == sq.0;
                    assert(out@[j] == sq);
                    assert(out@.contains(sq));
                }
            }
            assert(out@.to_set() =~= self@);
            assert forall|a: int, b: int| 0 <= a < b < out@.len() implies out@[a] != out@[b] by {
                assert(idx@[a] != idx@[b]);
            }
        }
        out
    }
}

/// The squares a piece standing on `from` can move to.
pub open spec fn hint_targets(moves: Seq<(Square, Square)>, from: Square) -> Set<Square> {
    Set::new(|d: Square| exists|i: int| 0 <= i < moves.len() && moves[i].0 == from && moves[i].1 == d)
}

/// The selection state of the board screen.
pub struct BoardSelection {
    /// The square whose piece is selected.
    pub selected_square: Option<Square>,
    /// Where the selected piece may move.
    pub move_hints: SquareSet,
    /// The squares whose drawing changed.
    pub redraw_squares: SquareSet,
    /// The square a finger last went down on.
    pub finger_down_square: Option<Square>,
    /// The legal moves, as start and end squares.
    pub possible_moves: Vec<(Square, Square)>,
}

/// The abstract selection state.
pub struct SelectionModel {
    pub selected: Option<Square>,
    pub hints: Set<Square>,
    pub redraw: Set<Square>,
    pub finger_down: Option<Square>,
    pub moves: Seq<(Square, Square)>,
}

impl View for BoardSelection {
    type V = SelectionModel;

    open spec fn view(&self) -> SelectionModel {
        SelectionModel {
            selected: self.selected_square,
            hints: self.move_hints@,
            redraw: self.redraw_squares@,
            finger_down: self.finger_down_square,
            moves: self.possible_moves@,
        }
    }
}

impl SelectionModel {
    /// Hints cleared; the squares that showed them are redrawn.
    pub open spec fn cleared_hints(self) -> SelectionModel {
        SelectionModel { hints: Set::empty(), redraw: self.redraw + self.hints, ..self }
    }

    /// The piece on `sq` selected, with hints (redrawn) where it may move.
    pub open spec fn selecting(self, sq: Square) -> SelectionModel {
        let c = self.cleared_hints();
        let t = hint_targets(self.moves, sq);
        SelectionModel { selected: Some(sq), hints: t, redraw: c.redraw.insert(sq) + t, ..c }
    }

    /// What lifting a finger from `sq` does: the new selection state and
    /// the move to play, if any. `has_piece` tells whether a piece stands
    /// on `sq`.
    pub open spec fn spec_on_release(self, sq: Square, has_piece: bool) -> (SelectionModel, Option<(Square, Square)>) {
        match self.selected {
            Some(last) => {
                let s = SelectionModel { redraw: self.redraw.insert(last), ..self };
                if last == sq {
                    (SelectionModel { selected: None, ..s }.cleared_hints(), None)
                } else if self.moves.contains((last, sq)) {
                    (SelectionModel { redraw: s.redraw.insert(sq), ..s }, Some((last, sq)))
                } else if has_piece {
                    (s.selecting(sq), None)
                } else {
                    (SelectionModel { selected: None, ..s }.cleared_hints(), None)
                }
            },
            None => {
                let down = match self.finger_down {
                    Some(d) => d,
                    None => sq,
                };
                if down != sq {
                    (SelectionModel { redraw: self.redraw.insert(down), ..self }, Some((down, sq)))
                } else if has_piece {
                    (self.selecting(sq), None)
                } else {
                    (self, None)
                }
            },
        }
    }
}

impl BoardSelection {
    /// Both square sets hold each square once.
    pub open spec fn wf(&self) -> bool {
        self.move_hints.wf() && self.redraw_squares.wf()
    }

    /// Nothing selected, no hints, nothing to redraw, no moves.
    pub fn new() -> (r: BoardSelection)
        ensures
            r.wf(),
            r@.selected is None && r@.finger_down is None,
            r@.hints == Set::<Square>::empty() && r@.redraw == Set::<Square>::empty(),
            r@.moves.len() == 0,
    {
        BoardSelection {
            selected_square: None,
            move_hints: SquareSet::new(),
            redraw_squares: SquareSet::new(),
            finger_down_square: None,
            possible_moves: Vec::new(),
        }
    }

    /// Clears the move hints and marks their squares for redrawing.
    pub fn clear_move_hints(&mut self)
        requires
            old(self).wf(),
        ensures
            final(self).wf(),
            final(self)@ == old(self)@.cleared_hints(),
    {
        let hints = self.move_hints.to_vec();
        let ghost r0 = self.redraw_squares@;
        let mut i: usize = 0;
        while i < hints.len()
            invariant
                self.wf(),
                i <= hints.len(),
                self.redraw_squares@ == r0 + hints@.take(i as int).to_set(),
                self.move_hints@ == hints@.to_set(),
                self.selected_square == old(self).selected_square,
                self.finger_down_square == old(self).finger_down_square,
                self.possible_moves@ == old(self).possible_moves@,
                r0 == old(self).redraw_squares@,
                self.move_hints@ == old(self).move_hints@,
            decreases hints.len() - i,
        {
            self.redraw_squares.insert(hints[i]);
            proof {
                assert(hints@.take(i + 1) =~= hints@.take(i as int).push(hints@[i as int]));
                lemma_push_to_set(hints@.take(i as int), hints@[i as int]);
            }
            i = i + 1;
        }
        proof {
            assert(hints@.take(hints.len() as int) =~= hints@);
        }
        self.move_hints.clear();
        proof {
            assert(self.redraw_squares@ =~= old(self)@.redraw + old(self)@.hints);
        }
    }

    /// Selects nothing new but shows where the piece on `square` may move:
    /// clears the old hints, then hints (and redraws) every destination of
    /// a legal move from `square`.
    pub fn set_move_hints(&mut self, square: Square)
        requires
            old(self).wf(),
        ensures
            final(self).wf(),
            final(self)@ == ({
                let c = old(self)@.cleared_hints();
                let t = hint_targets(old(self)@.moves, square);
                SelectionModel { hints: t, redraw: c.redraw + t, ..c }
            }),
    {
        self.clear_move_hints();
        let ghost c = self@;
        let n = self.possible_moves.len();
        let mut i: usize = 0;
        while i < n
            invariant
                self.wf(),
                n == self.possible_moves.len(),
                i <= n,
                self.possible_moves@ == c.moves,
                self.selected_square == c.selected,
                self.finger_down_square == c.finger_down,
                self.move_hints@ == hint_targets(c.moves.take(i as int), square),
                self.redraw_squares@ == c.redraw + hint_targets(c.moves.take(i as int), square),
                c.hints == Set::<Square>::empty(),
            decreases n - i,
        {
            let (src, dest) = self.possible_moves[i];
            if src == square {
                self.move_hints.insert(dest);
                self.redraw_squares.insert(dest);
            }
            i = i + 1;
            proof {
                let pre = c.moves.take(i - 1);
                let post = c.moves.take(i as int);
                assert forall|d: Square| hint_targets(post, square).contains(d) == (hint_targets(
                    pre,
                    square,
                ).contains(d) || (src == square && d == dest)) by {
                    if hint_targets(post, square).contains(d) {
                        let k = choose|k: int| 0 <= k < post.len() && post[k].0 == square && post[k].1 == d;
                        if k < i - 1 {
                            assert(pre[k] == post[k]);
                        }
                    }
                    if hint_targets(pre, square).contains(d) {
                        let k = choose|k: int| 0 <= k < pre.len() && pre[k].0 == square && pre[k].1 == d;
                        assert(post[k] == pre[k]);
                    }
                    if src == square && d == dest {
                        assert(post[i - 1] == (src, dest));
                    }
                }
                assert(self.move_hints@ =~= hint_targets(post, square));
                assert(self.redraw_squares@ =~= c.redraw + hint_targets(post, square));
            }
        }
        proof {
            assert(c.moves.take(n as int) =~= c.moves);
        }
    }

    /// Handles a finger lifted from `square`; `has_piece` tells whether a
    /// piece stands there. Returns the move to play, if the tap completes
    /// one.
    pub fn on_release(&mut self, square: Square, has_piece: bool) -> (r: Option<(Square, Square)>)
        requires
            old(self).wf(),
        ensures
            final(self).wf(),
            (final(self)@, r) == old(self)@.spec_on_release(square, has_piece),
    {
        match self.selected_square {
            Some(last) => {
                self.redraw_squares.insert(last);
                if last == square {
                    self.selected_square = None;
                    self.clear_move_hints();
                    None
                } else if contains_pair(&self.possible_moves, last, square) {
                    self.redraw_squares.insert(square);
                    Some((last, square))
                } else if has_piece {
                    self.selected_square = Some(square);
                    self.redraw_squares.insert(square);
                    self.set_move_hints(square);
                    proof {
                        let s = SelectionModel { redraw: old(self)@.redraw.insert(last), ..old(self)@ };
                        assert(self@.redraw =~= s.selecting(square).redraw);
                    }
                    None
                } else {
                    self.selected_square = None;
                    self.clear_move_hints();
                    None
                }
            },
            None => {
                let down = match self.finger_down_square {
                    Some(d) => d,
                    None => square,
                };
                if down != square {
                    self.redraw_squares.insert(down);
                    Some((down, square))
                } else if has_piece {
                    self.selected_square = Some(square);
                    self.redraw_squares.insert(square);
                    self.set_move_hints(square);
                    proof {
                        assert(self@.redraw =~= old(self)@.selecting(square).redraw);
                    }
                    None
                } else {
                    None
                }
            },
        }
    }
}

/// With a square selected, a tap on another square that ends a listed move
/// from it plays that move, whether or not a piece stands there (a capture
/// is played, not a new selection), and leaves the selection as it was.
pub proof fn law_tap_on_target_plays(m: SelectionModel, last: Square, sq: Square, has_piece: bool)
    requires
        m.selected == Some(last),
        last != sq,
        m.moves.contains((last, sq)),
    ensures
        m.spec_on_release(sq, has_piece).1 == Some((last, sq)),
        m.spec_on_release(sq, has_piece).0.selected == Some(last),
        m.spec_on_release(sq, has_piece).0.hints == m.hints,
{
}

/// Tapping the selected square again cancels the selection: nothing stays
/// selected, no move hint remains, and no move is played.
pub proof fn law_second_tap_cancels(m: SelectionModel, sq: Square, has_piece: bool)
    requires
        m.selected == Some(sq),
    ensures
        m.spec_on_release(sq, has_piece).0.selected is None,
        m.spec_on_release(sq, has_piece).0.hints == Set::<Square>::empty(),
        m.spec_on_release(sq, has_piece).1 is None,
{
}

/// Tapping a piece while nothing is selected, with the finger gone down on
/// the same square, selects it and hints exactly the end squares of its
/// legal moves.
pub proof fn law_tap_selects_piece(m: SelectionModel, sq: Square)
    requires
        m.selected is None,
        m.finger_down is None || m.finger_down == Some(sq),
    ensures
        m.spec_on_release(sq, true).0.selected == Some(sq),
        m.spec_on_release(sq, true).0.hints == hint_targets(m.moves, sq),
        m.spec_on_release(sq, true).1 is None,
{
}

/// Whether a list of moves holds the given start and end squares.
pub fn contains_pair(moves: &Vec<(Square, Square)>, from: Square, to: Square) -> (r: bool)
    ensures
        r == moves@.contains((from, to)),
{
    let mut i: usize = 0;
    while i < moves.len()
        invariant
            i <= moves.len(),
            forall|k: int| 0 <= k < i ==> moves@[k] != (from, to),
        decreases moves.len() - i,
    {
        let (a, b) = moves[i];
        if a == from && b == to {
            proof {
                assert(moves@[i as int] == (from, to));
            }
            return true;
        }
        i = i + 1;
    }
    false
}

/// The hit boxes of the 64 squares on a display: `r[x][y]` is file `x`,
/// rank `y`, with rank 8 at the top and the board centred.
pub open spec fn square_rect(width: u32, height: u32, x: int, y: int) -> mxcfb_rect {
    let size = (if width < height {
        width
    } else {
        height
    }) / 8;
    mxcfb_rect {
        left: ((width - size * 8) / 2 + size * x) as u32,
        top: ((height - size * 8) / 2 + size * (7 - y)) as u32,
        width: size as u32,
        height: size as u32,
    }
}

/// The hit boxes of the squares on a display of the given size.
pub fn board_hitboxes(width: u32, height: u32) -> (r: Vec<Vec<mxcfb_rect>>)
    ensures
        r.len() == 8,
        forall|x: int| 0 <= x < 8 ==> (#[trigger] r@[x]).len() == 8,
        forall|x: int, y: int|
            0 <= x < 8 && 0 <= y < 8 ==> r@[x]@[y] == square_rect(width, height, x, y),
{
    let size = (if width < height {
        width
    } else {
        height
    }) / 8;
    let mut boxes: Vec<Vec<mxcfb_rect>> = Vec::new();
    let mut x: u32 = 0;
    while x < 8
        invariant
            size == (if width < height {
                width
            } else {
                height
            }) / 8,
            x <= 8,
            boxes.len() == x,
            forall|i: int| 0 <= i < x ==> (#[trigger] boxes@[i]).len() == 8,
            forall|i: int, j: int|
                0 <= i < x && 0 <= j < 8 ==> boxes@[i]@[j] == square_rect(width, height, i, j),
        decreases 8 - x,
    {
        let mut column: Vec<mxcfb_rect> = Vec::new();
        let mut y: u32 = 0;
        while y < 8
            invariant
                size == (if width < height {
                    width
                } else {
                    height
                }) / 8,
                x < 8,
                y <= 8,
                column.len() == y,
                forall|j: int| 0 <= j < y ==> column@[j] == square_rect(width, height, x as int, j),
            decreases 8 - y,
        {
            proof {
                lemma_board_fits(width, height, x as int, y as int);
            }
            column.push(
                mxcfb_rect {
                    left: (width - size * 8) / 2 + size * x,
                    top: (height - size * 8) / 2 + size * (7 - y),
                    width: size,
                    height: size,
                },
            );
            y = y + 1;
        }
        boxes.push(column);
        x = x + 1;
    }
    boxes
}

/// The rectangle covering the whole board: from the top left corner of
/// `A8` to the bottom right corner of `H1`.
pub fn full_board_rect(boxes: &Vec<Vec<mxcfb_rect>>) -> (r: mxcfb_rect)
    requires
        boxes.len() == 8,
        forall|x: int| 0 <= x < 8 ==> (#[trigger] boxes@[x]).len() == 8,
        boxes@[7]@[0].left + boxes@[7]@[0].width <= u32::MAX,
        boxes@[7]@[0].top + boxes@[7]@[0].height <= u32::MAX,
        boxes@[0]@[7].left <= boxes@[7]@[0].left + boxes@[7]@[0].width,
        boxes@[0]@[7].top <= boxes@[7]@[0].top + boxes@[7]@[0].height,
    ensures
        r.left == boxes@[0]@[7].left,
        r.top == boxes@[0]@[7].top,
        r.width == boxes@[7]@[0].left + boxes@[7]@[0].width - boxes@[0]@[7].left,
        r.height == boxes@[7]@[0].top + boxes@[7]@[0].height - boxes@[0]@[7].top,
{
    let left = boxes[0][7].left;
    let top = boxes[0][7].top;
    let right = boxes[7][0].left + boxes[7][0].width;
    let bottom = boxes[7][0].top + boxes[7][0].height;
    mxcfb_rect { left, top, width: right - left, height: bottom - top }
}

} // verus!
