//! Attack and check detection.

use vstd::prelude::*;
use vstd::std_specs::bits::{axiom_u64_trailing_zeros, u64_trailing_zeros};
use crate::bits::{has_bit, lemma_bit_shift};
use crate::chess_board::{ChessBoard, Square, SquareIndex, square_has_color, square_has_kind};
use crate::chess_board_utils::{apply_delta, apply_delta_with_dist, delta_target};
use crate::valid_moves::valid_moves;
use crate::chess_piece::{
    king_directions, king_dirs, knight_directions, knight_dirs, lemma_dirs_valid, opponent,
    small_delta, Color, Piece, PieceKind,
};

verus! {

/// The rank step that is "forward" for a color.
pub open spec fn forward(c: Color) -> int {
    match c {
        Color::White => 1,
        Color::Black => -1,
    }
}

/// A piece found first along ray `d` attacks back along it: an opponent
/// queen, an opponent rook on a rank or file, an opponent bishop on a
/// diagonal.
pub open spec fn slider_hits(p: Piece, d: (i8, i8), c: Color) -> bool {
    p.color != c && (p.kind == PieceKind::Queen || (p.kind == PieceKind::Rook && (d.0 == 0 || d.1
        == 0)) || (p.kind == PieceKind::Bishop && d.0 != 0 && d.1 != 0))
}

/// Walking `dist`, `dist + 1`, ... steps along a small nonzero step `d`
/// never needs eight steps.
pub proof fn lemma_ray_leaves_board(sq: int, d: (i8, i8))
    requires
        0 <= sq < 64,
        small_delta(d),
        d != (0i8, 0i8),
    ensures
        delta_target(sq, d.0 * 8, d.1 * 8) == -1,
{
}

impl ChessBoard {
    /// The first piece met walking from `sq` along `d`, starting `dist`
    /// steps out; `None` when the ray leaves the board first.
    pub open spec fn ray_blocker(self, sq: int, d: (i8, i8), dist: int) -> Option<Piece>
        decreases 8 - dist,
    {
        if dist >= 8 {
            None
        } else {
            let t = delta_target(sq, d.0 * dist, d.1 * dist);
            if t < 0 {
                None
            } else {
                match self.square_at(t) {
                    Square::Empty => self.ray_blocker(sq, d, dist + 1),
                    Square::Occupied(p) => Some(p),
                }
            }
        }
    }

    /// A rook, bishop or queen of the side other than `c` attacks `sq` along `d`.
    pub open spec fn attacked_along(self, sq: int, d: (i8, i8), c: Color) -> bool {
        match self.ray_blocker(sq, d, 1) {
            Some(p) => slider_hits(p, d, c),
            None => false,
        }
    }

    pub open spec fn attacked_by_slider(self, sq: int, c: Color) -> bool {
        exists|i: int| 0 <= i < 8 && #[trigger] self.attacked_along(sq, king_dirs()[i], c)
    }

    /// A piece of the other side of kind `k` stands one step from `sq` along
    /// one of `dirs`.
    pub open spec fn attacked_by_leaper(self, sq: int, c: Color, k: PieceKind, dirs: Seq<(i8, i8)>) -> bool {
        exists|i: int|
            0 <= i < dirs.len() && self.piece_at(
                delta_target(sq, #[trigger] dirs[i].0 as int, dirs[i].1 as int),
            ) == Some(Piece { kind: k, color: opponent(c) })
    }

    /// An opponent pawn stands diagonally one rank forward of `sq`, on
    /// column offset `dc`, from the point of view of `c`.
    pub open spec fn pawn_attacks_from(self, sq: int, c: Color, dc: int) -> bool {
        match self.piece_at(delta_target(sq, forward(c), dc)) {
            Some(p) => p.kind == PieceKind::Pawn && p.color != c,
            None => false,
        }
    }

    pub open spec fn attacked_by_pawn(self, sq: int, c: Color) -> bool {
        self.pawn_attacks_from(sq, c, 1) || self.pawn_attacks_from(sq, c, -1)
    }

    /// Square `sq` is attacked by the side other than `c`.
    pub open spec fn square_attacked(self, sq: int, c: Color) -> bool {
        self.attacked_by_slider(sq, c) || self.attacked_by_leaper(
            sq,
            c,
            PieceKind::Knight,
            knight_dirs(),
        ) || self.attacked_by_leaper(sq, c, PieceKind::King, king_dirs())
            || self.attacked_by_pawn(sq, c)
    }

    /// Square `i` holds the king of color `c`.
    pub open spec fn king_at(self, c: Color, i: int) -> bool {
        self.square_at(i) == Square::Occupied(Piece { kind: PieceKind::King, color: c })
    }

    /// `k` is the lowest square holding the king of color `c`.
    pub open spec fn is_king_square(self, c: Color, k: int) -> bool {
        0 <= k < 64 && self.king_at(c, k) && forall|j: int| 0 <= j < k ==> !#[trigger] self.king_at(c, j)
    }

    pub open spec fn has_king(self, c: Color) -> bool {
        exists|i: int| 0 <= i < 64 && #[trigger] self.king_at(c, i)
    }

    /// The king of color `c` stands on an attacked square. A position
    /// without such a king has none in check.
    pub open spec fn king_in_check(self, c: Color) -> bool {
        exists|k: int| #[trigger] self.is_king_square(c, k) && self.square_attacked(k, c)
    }

    /// The lowest square of the king of `color`, or 64 when there is none.
    pub fn find_king(self, color: Color) -> (r: SquareIndex)
        requires
            self.wf(),
        ensures
            r <= 64,
            r < 64 ==> self.is_king_square(color, r as int),
            r == 64 ==> !self.has_king(color),
    {
        let m = match color {
            Color::White => self.white_pieces & self.kings,
            Color::Black => self.black_pieces & self.kings,
        };
        let tz = m.trailing_zeros();
        proof {
            axiom_u64_trailing_zeros(m);
            assert forall|j: int| 0 <= j < 64 implies #[trigger] self.king_at(color, j) == has_bit(
                m,
                j as u64,
            ) by {
                self.lemma_square_bits(j);
                crate::bits::lemma_bit_and(self.color_mask(color), self.kings, j as u64);
                assert(square_has_color(self.square_at(j), color) == has_bit(
                    self.color_mask(color),
                    j as u64,
                ));
                assert(square_has_kind(self.square_at(j), PieceKind::King) == has_bit(
                    self.kind_mask(PieceKind::King),
                    j as u64,
                ));
            }
            assert forall|j: int| 0 <= j < tz implies !#[trigger] self.king_at(color, j) by {
                assert((m >> (j as u64)) & 1u64 == 0u64);
                lemma_bit_shift(m, j as u64);
            }
            if tz < 64 {
                lemma_bit_shift(m, tz as u64);
            }
        }
        tz as SquareIndex
    }

    fn is_square_checked_by_knight(self, index: SquareIndex, color: Color) -> (r: bool)
        requires
            self.wf(),
            index < 64,
        ensures
            r == self.attacked_by_leaper(index as int, color, PieceKind::Knight, knight_dirs()),
    {
        let piece_to_find = Piece { kind: PieceKind::Knight, color: color.opposite() };
        let dirs = knight_directions();
        proof {
            lemma_dirs_valid();
        }
        self.contains_piece_in_any_direction(index, piece_to_find, dirs.as_slice())
    }

    fn is_square_checked_by_king(self, index: SquareIndex, color: Color) -> (r: bool)
        requires
            self.wf(),
            index < 64,
        ensures
            r == self.attacked_by_leaper(index as int, color, PieceKind::King, king_dirs()),
    {
        let piece_to_find = Piece { kind: PieceKind::King, color: color.opposite() };
        let dirs = king_directions();
        proof {
            lemma_dirs_valid();
        }
        self.contains_piece_in_any_direction(index, piece_to_find, dirs.as_slice())
    }

    fn is_square_checked_by_slider(self, index: SquareIndex, color: Color) -> (r: bool)
        requires
            self.wf(),
            index < 64,
        ensures
            r == self.attacked_by_slider(index as int, color),
    {
        let dirs = king_directions();
        proof {
            lemma_dirs_valid();
        }
        let mut i: usize = 0;
        while i < 8
            invariant
                self.wf(),
                i <= 8,
                index < 64,
                dirs@ == king_dirs(),
                forall|j: int| 0 <= j < i ==> !#[trigger] self.attacked_along(index as int, king_dirs()[j], color),
            decreases 8 - i,
        {
            let delta = dirs[i];
            assert(small_delta(delta) && delta != (0i8, 0i8));
            let mut dist: u8 = 1;
            while self.within_bounds_and_empty(apply_delta_with_dist(index, delta, dist)).is_some()
                invariant
                    self.wf(),
                    1 <= dist <= 8,
                    index < 64,
                    small_delta(delta),
                    delta != (0i8, 0i8),
                    self.ray_blocker(index as int, delta, 1) == self.ray_blocker(
                        index as int,
                        delta,
                        dist as int,
                    ),
                decreases 8 - dist,
            {
                proof {
                    lemma_ray_leaves_board(index as int, delta);
                }
                dist = dist + 1;
            }
            proof {
                lemma_ray_leaves_board(index as int, delta);
            }
            let found = self.maybe_piece_at(apply_delta_with_dist(index, delta, dist));
            assert(found == self.ray_blocker(index as int, delta, dist as int));
            assert(delta == king_dirs()[i as int]);
            match found {
                None => {},
                Some(piece) => {
                    if piece.color != color {
                        match piece.kind {
                            PieceKind::Rook => {
                                if delta.0 == 0 || delta.1 == 0 {
                                    assert(self.attacked_along(index as int, king_dirs()[i as int], color));
                                    return true;
                                }
                            },
                            PieceKind::Bishop => {
                                if delta.0 != 0 && delta.1 != 0 {
                                    assert(self.attacked_along(index as int, king_dirs()[i as int], color));
                                    return true;
                                }
                            },
                            PieceKind::Queen => {
                                assert(self.attacked_along(index as int, king_dirs()[i as int], color));
                                    return true;
                            },
                            _ => {},
                        }
                    }
                },
            }
            i = i + 1;
        }
        false
    }

    /// Whether an opponent pawn attacks square `index`, from the point of
    /// view of `color`.
    pub fn is_square_checked_by_pawn(self, index: SquareIndex, color: Color) -> (r: bool)
        requires
            self.wf(),
            index < 64,
        ensures
            r == self.attacked_by_pawn(index as int, color),
    {
        let di: i8 = match color {
            Color::White => 1,
            Color::Black => -1,
        };
        match self.maybe_piece_at(apply_delta(index, (di, 1))) {
            None => {},
            Some(piece) => {
                if piece.kind == PieceKind::Pawn && color != piece.color {
                    return true;
                }
            },
        }
        match self.maybe_piece_at(apply_delta(index, (di, -1))) {
            None => {},
            Some(piece) => {
                if piece.kind == PieceKind::Pawn && color != piece.color {
                    return true;
                }
            },
        }
        false
    }

    /// Whether square `index` is attacked by the side other than `color`.
    pub fn is_square_checked(self, index: SquareIndex, color: Color) -> (r: bool)
        requires
            self.wf(),
            index < 64,
        ensures
            r == self.square_attacked(index as int, color),
    {
        self.is_square_checked_by_slider(index, color) || self.is_square_checked_by_knight(
            index,
            color,
        ) || self.is_square_checked_by_king(index, color) || self.is_square_checked_by_pawn(
            index,
            color,
        )
    }

    /// Whether the king of `color` is in check; a position without that king
    /// has it in no check.
    pub(crate) fn king_in_check_if_present(self, color: Color) -> (r: bool)
        requires
            self.wf(),
        ensures
            r == self.king_in_check(color),
    {
        let k = self.find_king(color);
        if k >= 64 {
            assert forall|j: int| !#[trigger] self.is_king_square(color, j) by {
                if self.is_king_square(color, j) {
                    assert(self.king_at(color, j));
                }
            }
            false
        } else {
            proof {
                assert forall|j: int| #[trigger] self.is_king_square(color, j) implies j == k by {
                    if j < k {
                        assert(!self.king_at(color, j));
                    } else if j > k {
                        assert(!self.king_at(color, k as int));
                    }
                }
            }
            self.is_square_checked(k, color)
        }
    }

    /// Whether the king of `color` is attacked.
    pub fn is_king_checked(self, color: Color) -> (r: bool)
        requires
            self.wf(),
            self.has_king(color),
        ensures
            r == self.king_in_check(color),
    {
        self.king_in_check_if_present(color)
    }

    /// The king of `color` is in check and `color` has no legal move.
    pub fn king_cannot_move(self, color: Color) -> (r: bool)
        requires
            self.wf(),
            self.has_king(color),
        ensures
            r == (self.king_in_check(color) && valid_moves(self, color).len() == 0),
    {
        self.is_king_checked(color) && self.all_valid_moves(color).len() == 0
    }

    /// The board holds kings and nothing else. This is only a partial test of
    /// stalemate: the full rule (no legal move and not in check) is not
    /// applied here.
    pub fn is_stalemate(self) -> (r: bool)
        requires
            self.wf(),
        ensures
            r == forall|i: int| 0 <= i < 64 ==> #[trigger] square_has_kind_or_empty(self.square_at(i)),
    {
        let mut index: u8 = 0;
        while index < 64
            invariant
                self.wf(),
                index <= 64,
                forall|i: int| 0 <= i < index ==> #[trigger] square_has_kind_or_empty(self.square_at(i)),
            decreases 64 - index,
        {
            match self.at(index) {
                Square::Occupied(piece) => {
                    if piece.kind != PieceKind::King {
                        assert(!square_has_kind_or_empty(self.square_at(index as int)));
                        return false;
                    }
                },
                _ => {},
            }
            index = index + 1;
        }
        true
    }
}

/// The square is empty or holds a king.
pub open spec fn square_has_kind_or_empty(sq: Square) -> bool {
    match sq {
        Square::Empty => true,
        Square::Occupied(p) => p.kind == PieceKind::King,
    }
}

} // verus!
