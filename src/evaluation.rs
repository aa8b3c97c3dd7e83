//! Material count of a position.

use vstd::prelude::*;
use crate::chess_board::{ChessBoard, Square};
use crate::chess_piece::{Color, PieceKind};

verus! {

/// The material weight of a piece kind.
pub open spec fn kind_weight(k: PieceKind) -> int {
    match k {
        PieceKind::King => 200,
        PieceKind::Queen => 9,
        PieceKind::Rook => 5,
        PieceKind::Bishop => 3,
        PieceKind::Knight => 3,
        PieceKind::Pawn => 1,
    }
}

/// The weight of a square's piece, counted for white and against black.
pub open spec fn square_material(s: Square) -> int {
    match s {
        Square::Empty => 0,
        Square::Occupied(p) => match p.color {
            Color::White => kind_weight(p.kind),
            Color::Black => -kind_weight(p.kind),
        },
    }
}

/// The material balance of the first `n` squares.
pub open spec fn material_upto(b: ChessBoard, n: int) -> int
    decreases n,
{
    if n <= 0 {
        0
    } else {
        material_upto(b, n - 1) + square_material(b.square_at(n - 1))
    }
}

/// The material balance: white's weights minus black's.
pub open spec fn material(b: ChessBoard) -> int {
    material_upto(b, 64)
}

fn kind_weight_exec(k: PieceKind) -> (r: i32)
    ensures
        r == kind_weight(k),
{
    match k {
        PieceKind::King => 200,
        PieceKind::Queen => 9,
        PieceKind::Rook => 5,
        PieceKind::Bishop => 3,
        PieceKind::Knight => 3,
        PieceKind::Pawn => 1,
    }
}

impl ChessBoard {
    /// The material balance of the position: each piece's weight (king 200,
    /// queen 9, rook 5, bishop 3, knight 3, pawn 1), added for white and
    /// subtracted for black.
    pub fn material_score(&self) -> (r: i32)
        requires
            self.wf(),
            self.wf(),
        ensures
            r == material(*self),
    {
        let mut score: i32 = 0;
        let mut index: u8 = 0;
        while index < 64
            invariant
                self.wf(),
                index <= 64,
                score == material_upto(*self, index as int),
                -200 * index <= score <= 200 * index,
            decreases 64 - index,
        {
            match self.at(index) {
                Square::Empty => {},
                Square::Occupied(piece) => {
                    let w = kind_weight_exec(piece.kind);
                    match piece.color {
                        Color::White => score = score + w,
                        Color::Black => score = score - w,
                    }
                },
            }
            index = index + 1;
        }
        score
    }
}

/// Emptying a square changes the material balance by exactly the weight of
/// the piece that stood there: removing a queen shifts it by 9, against the
/// queen's side.
pub proof fn lemma_remove_piece_material(b: ChessBoard, i: int)
    requires
        b.wf(),
        0 <= i < 64,
    ensures
        material(b.with_square(i, Square::Empty)) == material(b) - square_material(b.square_at(i)),
{
    b.lemma_with_square(i, Square::Empty);
    lemma_material_upto_removed(b, i, 64);
}

proof fn lemma_material_upto_removed(b: ChessBoard, i: int, n: int)
    requires
        b.wf(),
        0 <= i < 64,
        0 <= n <= 64,
        forall|j: int|
            0 <= j < 64 ==> #[trigger] b.with_square(i, Square::Empty).square_at(j) == (if j == i {
                Square::Empty
            } else {
                b.square_at(j)
            }),
    ensures
        material_upto(b.with_square(i, Square::Empty), n) == material_upto(b, n) - (if i < n {
            square_material(b.square_at(i))
        } else {
            0
        }),
    decreases n,
{
    if n > 0 {
        lemma_material_upto_removed(b, i, n - 1);
        assert(b.with_square(i, Square::Empty).square_at(n - 1) == (if n - 1 == i {
            Square::Empty
        } else {
            b.square_at(n - 1)
        }));
    }
}

} // verus!
