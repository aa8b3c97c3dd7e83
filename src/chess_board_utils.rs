//! Square arithmetic and the square queries that move generation uses.

use vstd::prelude::*;
use crate::chess_board::{ChessBoard, Square, SquareIndex, SquareIndexDelta, UnsafeSquareIndex};
use crate::chess_move::Move;
use crate::chess_piece::{Color, Piece};

verus! {

/// The square reached from `index` by moving `dr` ranks and `dc` columns,
/// or -1 when that leaves the board.
pub open spec fn delta_target(index: int, dr: int, dc: int) -> int {
    if 0 <= index / 8 + dr < 8 && 0 <= index % 8 + dc < 8 {
        index + dr * 8 + dc
    } else {
        -1
    }
}

/// The square `dr` ranks and `dc` columns away from `index`, computed in
/// `i32`, which holds every offset that an `i8` step times a `u8` distance
/// can give.
fn offset_square(index: SquareIndex, dr: i32, dc: i32) -> (r: UnsafeSquareIndex)
    requires
        index < 64,
        -40000 <= dr <= 40000,
        -40000 <= dc <= 40000,
    ensures
        r as int == delta_target(index as int, dr as int, dc as int),
        -1 <= r < 64,
{
    let row = (index / 8) as i32;
    let col = (index % 8) as i32;
    if row + dr >= 0 && row + dr < 8 && col + dc >= 0 && col + dc < 8 {
        ((row + dr) * 8 + col + dc) as i8
    } else {
        -1
    }
}

/// Applies a step to a square; -1 when the step leaves the board.
pub fn apply_delta(index: SquareIndex, delta: SquareIndexDelta) -> (r: UnsafeSquareIndex)
    requires
        index < 64,
    ensures
        r as int == delta_target(index as int, delta.0 as int, delta.1 as int),
        -1 <= r < 64,
{
    offset_square(index, delta.0 as i32, delta.1 as i32)
}

/// Applies a step `dist` times in a straight line.
pub fn apply_delta_with_dist(index: SquareIndex, delta: SquareIndexDelta, dist: u8) -> (r:
    UnsafeSquareIndex)
    requires
        index < 64,
    ensures
        r as int == delta_target(index as int, delta.0 * dist, delta.1 * dist),
        -1 <= r < 64,
{
    assert(-40000 <= delta.0 * dist <= 40000 && -40000 <= delta.1 * dist <= 40000)
        by (nonlinear_arith)
        requires
            -128 <= delta.0 <= 127,
            -128 <= delta.1 <= 127,
            0 <= dist <= 255,
    ;
    offset_square(index, delta.0 as i32 * dist as i32, delta.1 as i32 * dist as i32)
}

/// The square index, when it lies on the board.
pub fn within_bounds(index: UnsafeSquareIndex) -> (r: Option<SquareIndex>)
    ensures
        r == (if 0 <= index < 64 {
            Some(index as SquareIndex)
        } else {
            None
        }),
{
    if index >= 0 && index < 64 {
        Some(index as SquareIndex)
    } else {
        None
    }
}

/// The pieces of color `c` on the first `n` squares, in square order, each
/// with its square.
pub open spec fn pieces_upto(b: ChessBoard, c: Color, n: int) -> Seq<(u8, Piece)>
    decreases n,
{
    if n <= 0 {
        seq![]
    } else {
        pieces_upto(b, c, n - 1) + match b.square_at(n - 1) {
            Square::Occupied(p) => if p.color == c {
                seq![((n - 1) as u8, p)]
            } else {
                seq![]
            },
            Square::Empty => seq![],
        }
    }
}

impl ChessBoard {
    /// The piece on square `t`, when `t` is on the board and occupied.
    pub open spec fn piece_at(self, t: int) -> Option<Piece> {
        if 0 <= t < 64 {
            match self.square_at(t) {
                Square::Empty => None,
                Square::Occupied(p) => Some(p),
            }
        } else {
            None
        }
    }

    /// Square `t` is on the board and empty.
    pub open spec fn empty_at(self, t: int) -> bool {
        0 <= t < 64 && self.square_at(t) == Square::Empty
    }

    /// Square `t` is on the board and holds a piece not of color `c`.
    pub open spec fn opponent_at(self, t: int, c: Color) -> bool {
        match self.piece_at(t) {
            Some(p) => p.color != c,
            None => false,
        }
    }

    /// A pawn of color `c` may move diagonally to square `t`: it is the
    /// en-passant target or holds an opponent piece.
    pub open spec fn pawn_target_at(self, t: int, c: Color) -> bool {
        0 <= t < 64 && (self.ep_target() == Some(t as u8) || self.opponent_at(t, c))
    }

    pub fn within_bounds_and_empty(&self, index: UnsafeSquareIndex) -> (r: Option<SquareIndex>)
        requires
            self.wf(),
        ensures
            r == (if self.empty_at(index as int) {
                Some(index as SquareIndex)
            } else {
                None
            }),
    {
        match within_bounds(index) {
            None => None,
            Some(index) => match self.at(index) {
                Square::Empty => Some(index),
                Square::Occupied(_) => None,
            },
        }
    }

    fn occupied_by_opponent(&self, index: SquareIndex, color: &Color) -> (r: Option<SquareIndex>)
        requires
            self.wf(),
            index < 64,
        ensures
            r == (if self.opponent_at(index as int, *color) {
                Some(index)
            } else {
                None
            }),
    {
        match self.at(index) {
            Square::Empty => None,
            Square::Occupied(piece) => {
                if piece.color != *color {
                    Some(index)
                } else {
                    None
                }
            },
        }
    }

    pub fn within_bounds_and_occupied_by_opponent(
        &self,
        index: UnsafeSquareIndex,
        color: &Color,
    ) -> (r: Option<SquareIndex>)
        requires
            self.wf(),
        ensures
            r == (if self.opponent_at(index as int, *color) {
                Some(index as SquareIndex)
            } else {
                None
            }),
    {
        match within_bounds(index) {
            None => None,
            Some(index) => self.occupied_by_opponent(index, color),
        }
    }

    pub fn within_bounds_and_pawn_take_target(
        &self,
        index: UnsafeSquareIndex,
        color: &Color,
    ) -> (r: Option<SquareIndex>)
        requires
            self.wf(),
        ensures
            r == (if self.pawn_target_at(index as int, *color) {
                Some(index as SquareIndex)
            } else {
                None
            }),
    {
        match within_bounds(index) {
            None => None,
            Some(index) => {
                if self.en_passant_target_square() == Some(index) {
                    Some(index)
                } else {
                    self.occupied_by_opponent(index, color)
                }
            },
        }
    }

    pub fn maybe_piece_at(&self, index: UnsafeSquareIndex) -> (r: Option<Piece>)
        requires
            self.wf(),
        ensures
            r == self.piece_at(index as int),
    {
        match within_bounds(index) {
            None => None,
            Some(index) => match self.at(index) {
                Square::Empty => None,
                Square::Occupied(piece) => Some(piece),
            },
        }
    }

    /// The piece on the move's source square; the square must be occupied.
    pub fn piece_at_source_or_panic(&self, mov: &Move) -> (r: Piece)
        requires
            self.wf(),
            mov.from < 64,
            self.piece_at(mov.from as int) is Some,
        ensures
            Some(r) == self.piece_at(mov.from as int),
    {
        match self.at(mov.from) {
            Square::Occupied(piece) => piece,
            Square::Empty => Piece { kind: crate::chess_piece::PieceKind::King, color: Color::White },
        }
    }

    pub fn contains_piece_at(&self, index: UnsafeSquareIndex, piece_to_find: Piece) -> (r: bool)
        requires
            self.wf(),
        ensures
            r == (self.piece_at(index as int) == Some(piece_to_find)),
    {
        match self.maybe_piece_at(index) {
            None => false,
            Some(piece) => piece == piece_to_find,
        }
    }

    /// Whether `piece_to_find` stands one step away from `index` along any
    /// of the given steps.
    pub fn contains_piece_in_any_direction(
        &self,
        index: SquareIndex,
        piece_to_find: Piece,
        directions: &[SquareIndexDelta],
    ) -> (r: bool)
        requires
            self.wf(),
            index < 64,
        ensures
            r == exists|i: int|
                0 <= i < directions@.len() && self.piece_at(
                    delta_target(index as int, #[trigger] directions@[i].0 as int, directions@[i].1 as int),
                ) == Some(piece_to_find),
    {
        let mut i: usize = 0;
        while i < directions.len()
            invariant
                self.wf(),
                i <= directions@.len(),
                index < 64,
                forall|j: int|
                    0 <= j < i ==> self.piece_at(
                        delta_target(index as int, #[trigger] directions@[j].0 as int, directions@[j].1 as int),
                    ) != Some(piece_to_find),
            decreases directions@.len() - i,
        {
            if self.contains_piece_at(apply_delta(index, directions[i]), piece_to_find) {
                return true;
            }
            i = i + 1;
        }
        false
    }

    /// The squares holding a piece of `color`, in square order, each with
    /// its piece.
    pub fn for_each_piece(&self, color: Color) -> (r: Vec<(SquareIndex, Piece)>)
        requires
            self.wf(),
        ensures
            r@ == pieces_upto(*self, color, 64),
    {
        let mut out: Vec<(SquareIndex, Piece)> = Vec::new();
        let mut index: u8 = 0;
        while index < 64
            invariant
                self.wf(),
                index <= 64,
                out@ == pieces_upto(*self, color, index as int),
            decreases 64 - index,
        {
            match self.at(index) {
                Square::Occupied(piece) => {
                    if piece.color == color {
                        out.push((index, piece));
                    }
                },
                Square::Empty => {},
            }
            assert(out@ =~= pieces_upto(*self, color, index + 1));
            index = index + 1;
        }
        out
    }
}

} // verus!
