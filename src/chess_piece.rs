//! Pieces: a kind and a color.

use vstd::prelude::*;

verus! {

#[derive(Clone, Copy, PartialEq, Eq, Debug, Structural)]
pub enum PieceKind {
    Pawn,
    Rook,
    Knight,
    Bishop,
    Queen,
    King,
}

#[derive(Clone, Copy, PartialEq, Eq, Debug, Structural)]
pub enum Color {
    White,
    Black,
}

#[derive(Clone, Copy, PartialEq, Eq, Debug, Structural)]
pub struct Piece {
    pub kind: PieceKind,
    pub color: Color,
}

impl Piece {
    pub fn white_pawn() -> (r: Piece)
        ensures
            r == (Piece { kind: PieceKind::Pawn, color: Color::White }),
    {
        Piece { kind: PieceKind::Pawn, color: Color::White }
    }

    pub fn white_queen() -> (r: Piece)
        ensures
            r == (Piece { kind: PieceKind::Queen, color: Color::White }),
    {
        Piece { kind: PieceKind::Queen, color: Color::White }
    }

    pub fn white_king() -> (r: Piece)
        ensures
            r == (Piece { kind: PieceKind::King, color: Color::White }),
    {
        Piece { kind: PieceKind::King, color: Color::White }
    }

    pub fn white_rook() -> (r: Piece)
        ensures
            r == (Piece { kind: PieceKind::Rook, color: Color::White }),
    {
        Piece { kind: PieceKind::Rook, color: Color::White }
    }

    pub fn white_knight() -> (r: Piece)
        ensures
            r == (Piece { kind: PieceKind::Knight, color: Color::White }),
    {
        Piece { kind: PieceKind::Knight, color: Color::White }
    }

    pub fn white_bishop() -> (r: Piece)
        ensures
            r == (Piece { kind: PieceKind::Bishop, color: Color::White }),
    {
        Piece { kind: PieceKind::Bishop, color: Color::White }
    }

    pub fn black_pawn() -> (r: Piece)
        ensures
            r == (Piece { kind: PieceKind::Pawn, color: Color::Black }),
    {
        Piece { kind: PieceKind::Pawn, color: Color::Black }
    }

    pub fn black_queen() -> (r: Piece)
        ensures
            r == (Piece { kind: PieceKind::Queen, color: Color::Black }),
    {
        Piece { kind: PieceKind::Queen, color: Color::Black }
    }

    pub fn black_king() -> (r: Piece)
        ensures
            r == (Piece { kind: PieceKind::King, color: Color::Black }),
    {
        Piece { kind: PieceKind::King, color: Color::Black }
    }

    pub fn black_rook() -> (r: Piece)
        ensures
            r == (Piece { kind: PieceKind::Rook, color: Color::Black }),
    {
        Piece { kind: PieceKind::Rook, color: Color::Black }
    }

    pub fn black_knight() -> (r: Piece)
        ensures
            r == (Piece { kind: PieceKind::Knight, color: Color::Black }),
    {
        Piece { kind: PieceKind::Knight, color: Color::Black }
    }

    pub fn black_bishop() -> (r: Piece)
        ensures
            r == (Piece { kind: PieceKind::Bishop, color: Color::Black }),
    {
        Piece { kind: PieceKind::Bishop, color: Color::Black }
    }
}

/// The other side.
pub open spec fn opponent(c: Color) -> Color {
    match c {
        Color::White => Color::Black,
        Color::Black => Color::White,
    }
}

impl Color {
    /// The other side.
    pub fn opposite(self) -> (r: Color)
        ensures
            r == opponent(self),
    {
        match self {
            Color::White => Color::Black,
            Color::Black => Color::White,
        }
    }
}

impl std::ops::Not for Color {
    type Output = Color;

    fn not(self) -> Color {
        self.opposite()
    }
}

impl vstd::std_specs::ops::NotSpecImpl for Color {
    open spec fn obeys_not_spec() -> bool {
        true
    }

    open spec fn not_req(self) -> bool {
        true
    }

    open spec fn not_spec(self) -> Color {
        opponent(self)
    }
}

/// Knight leaps as (rank offset, column offset).
pub open spec fn knight_dirs() -> Seq<(i8, i8)> {
    seq![(1i8, 2i8), (2i8, 1i8), (-1i8, 2i8), (2i8, -1i8), (1i8, -2i8), (-2i8, 1i8), (-1i8, -2i8), (-2i8, -1i8)]
}

/// Diagonal steps.
pub open spec fn bishop_dirs() -> Seq<(i8, i8)> {
    seq![(1i8, 1i8), (1i8, -1i8), (-1i8, 1i8), (-1i8, -1i8)]
}

/// Orthogonal steps.
pub open spec fn rook_dirs() -> Seq<(i8, i8)> {
    seq![(1i8, 0i8), (0i8, 1i8), (-1i8, 0i8), (0i8, -1i8)]
}

/// The eight steps of a king (and the rays of a queen).
pub open spec fn king_dirs() -> Seq<(i8, i8)> {
    seq![(1i8, 1i8), (1i8, 0i8), (1i8, -1i8), (0i8, 1i8), (0i8, -1i8), (-1i8, 1i8), (-1i8, 0i8), (-1i8, -1i8)]
}

/// A step of at most two ranks and two columns.
pub open spec fn small_delta(d: (i8, i8)) -> bool {
    -2 <= d.0 <= 2 && -2 <= d.1 <= 2
}

/// Every step of the sequence is small and moves somewhere.
pub open spec fn valid_dirs(dirs: Seq<(i8, i8)>) -> bool {
    forall|i: int| 0 <= i < dirs.len() ==> small_delta(#[trigger] dirs[i]) && dirs[i] != (0i8, 0i8)
}

pub proof fn lemma_dirs_valid()
    ensures
        valid_dirs(knight_dirs()),
        valid_dirs(bishop_dirs()),
        valid_dirs(rook_dirs()),
        valid_dirs(king_dirs()),
{
}

pub fn knight_directions() -> (r: [(i8, i8); 8])
    ensures
        r@ == knight_dirs(),
{
    let r = [(1, 2), (2, 1), (-1, 2), (2, -1), (1, -2), (-2, 1), (-1, -2), (-2, -1)];
    assert(r@ =~= knight_dirs());
    r
}

pub fn bishop_directions() -> (r: [(i8, i8); 4])
    ensures
        r@ == bishop_dirs(),
{
    let r = [(1, 1), (1, -1), (-1, 1), (-1, -1)];
    assert(r@ =~= bishop_dirs());
    r
}

pub fn rook_directions() -> (r: [(i8, i8); 4])
    ensures
        r@ == rook_dirs(),
{
    let r = [(1, 0), (0, 1), (-1, 0), (0, -1)];
    assert(r@ =~= rook_dirs());
    r
}

pub fn king_directions() -> (r: [(i8, i8); 8])
    ensures
        r@ == king_dirs(),
{
    let r = [(1, 1), (1, 0), (1, -1), (0, 1), (0, -1), (-1, 1), (-1, 0), (-1, -1)];
    assert(r@ =~= king_dirs());
    r
}

} // verus!
