//! One turn of a game between two players who pick among the legal moves,
//! and a text picture of the board.

use vstd::prelude::*;
use crate::chess_board::{ChessBoard, Square};
use crate::chess_move::{after_move, playable, Move};
use crate::check_mate::square_has_kind_or_empty;
use crate::chess_piece::{Color, Piece, PieceKind};
use crate::valid_moves::valid_moves;

verus! {

/// What became of a turn.
#[derive(Clone, Copy, PartialEq, Eq, Debug, Structural)]
pub enum TurnOutcome {
    /// The side to move had no legal move and its king was in check.
    Checkmate,
    /// The side to move had no legal move and its king was not in check.
    NoLegalMove,
    /// The move was played.
    Played(Move),
    /// The move was played and left nothing but kings on the board.
    PlayedBareKings(Move),
    /// The move was not played: it is a castling move and no piece stands
    /// on the king's home square.
    NotPlayable(Move),
}

/// The board holds nothing but kings.
pub open spec fn bare_kings(b: ChessBoard) -> bool {
    forall|i: int| 0 <= i < 64 ==> #[trigger] square_has_kind_or_empty(b.square_at(i))
}

impl ChessBoard {
    /// Plays the legal move of `turn` at position `pick` (taken modulo the
    /// number of moves) of its move list. With no legal move the position is
    /// kept and the outcome says whether the king is in check. A listed
    /// castling move whose source square is empty is not played.
    pub fn play_turn(&mut self, turn: Color, pick: usize) -> (r: TurnOutcome)
        requires
            old(self).wf(),
        ensures
            final(self).wf(),
            valid_moves(*old(self), turn).len() == 0 ==> *final(self) == *old(self) && r == (if old(
                self,
            ).king_in_check(turn) {
                TurnOutcome::Checkmate
            } else {
                TurnOutcome::NoLegalMove
            }),
            valid_moves(*old(self), turn).len() > 0 ==> {
                let moves = valid_moves(*old(self), turn);
                let m = moves[(pick as int) % (moves.len() as int)];
                if playable(*old(self), m) {
                    &&& *final(self) == after_move(*old(self), m)
                    &&& r == (if bare_kings(*final(self)) {
                        TurnOutcome::PlayedBareKings(m)
                    } else {
                        TurnOutcome::Played(m)
                    })
                } else {
                    *final(self) == *old(self) && r == TurnOutcome::NotPlayable(m)
                }
            },
    {
        let moves = self.all_valid_moves(turn);
        if moves.len() == 0 {
            if self.king_in_check_if_present(turn) {
                return TurnOutcome::Checkmate;
            } else {
                return TurnOutcome::NoLegalMove;
            }
        }
        let m = moves[pick % moves.len()];
        if m.from >= 64 || m.to >= 64 || self.at(m.from) == Square::Empty {
            return TurnOutcome::NotPlayable(m);
        }
        self.move_piece(&m);
        if self.is_stalemate() {
            TurnOutcome::PlayedBareKings(m)
        } else {
            TurnOutcome::Played(m)
        }
    }
}

/// The chess symbol of a piece.
pub open spec fn piece_symbol(p: Piece) -> char {
    match (p.color, p.kind) {
        (Color::White, PieceKind::Pawn) => '\u{2659}',
        (Color::White, PieceKind::Rook) => '\u{2656}',
        (Color::White, PieceKind::Knight) => '\u{2658}',
        (Color::White, PieceKind::Bishop) => '\u{2657}',
        (Color::White, PieceKind::Queen) => '\u{2655}',
        (Color::White, PieceKind::King) => '\u{2654}',
        (Color::Black, PieceKind::Pawn) => '\u{265F}',
        (Color::Black, PieceKind::Rook) => '\u{265C}',
        (Color::Black, PieceKind::Knight) => '\u{265E}',
        (Color::Black, PieceKind::Bishop) => '\u{265D}',
        (Color::Black, PieceKind::Queen) => '\u{265B}',
        (Color::Black, PieceKind::King) => '\u{265A}',
    }
}

/// The symbol of a square: its piece's, or `-` when empty.
pub open spec fn square_symbol(s: Square) -> char {
    match s {
        Square::Empty => '-',
        Square::Occupied(p) => piece_symbol(p),
    }
}

impl Piece {
    pub fn symbol(&self) -> (r: char)
        ensures
            r == piece_symbol(*self),
    {
        match (self.color, self.kind) {
            (Color::White, PieceKind::Pawn) => '\u{2659}',
            (Color::White, PieceKind::Rook) => '\u{2656}',
            (Color::White, PieceKind::Knight) => '\u{2658}',
            (Color::White, PieceKind::Bishop) => '\u{2657}',
            (Color::White, PieceKind::Queen) => '\u{2655}',
            (Color::White, PieceKind::King) => '\u{2654}',
            (Color::Black, PieceKind::Pawn) => '\u{265F}',
            (Color::Black, PieceKind::Rook) => '\u{265C}',
            (Color::Black, PieceKind::Knight) => '\u{265E}',
            (Color::Black, PieceKind::Bishop) => '\u{265D}',
            (Color::Black, PieceKind::Queen) => '\u{265B}',
            (Color::Black, PieceKind::King) => '\u{265A}',
        }
    }
}

impl Square {
    pub fn symbol(&self) -> (r: char)
        ensures
            r == square_symbol(*self),
    {
        match self {
            Square::Empty => '-',
            Square::Occupied(piece) => piece.symbol(),
        }
    }
}

/// The picture of the first `n` squares: a space and the symbol of each,
/// with a line break after every eighth.
pub open spec fn board_text(b: ChessBoard, n: int) -> Seq<char>
    decreases n,
{
    if n <= 0 {
        seq![]
    } else {
        board_text(b, n - 1) + seq![' ', square_symbol(b.square_at(n - 1))] + if (n - 1) % 8 == 7 {
            seq!['\n']
        } else {
            seq![]
        }
    }
}

impl ChessBoard {
    /// The board as eight lines of eight symbols, square 0 first.
    pub fn to_text(&self) -> (r: String)
        requires
            self.wf(),
            self.wf(),
        ensures
            r@ == board_text(*self, 64),
    {
        let mut r = String::new();
        let mut index: u8 = 0;
        while index < 64
            invariant
                self.wf(),
                index <= 64,
                r@ == board_text(*self, index as int),
            decreases 64 - index,
        {
            let ghost before = r@;
            crate::chess_move::push_char(&mut r, ' ');
            crate::chess_move::push_char(&mut r, self.at(index).symbol());
            if index % 8 == 7 {
                crate::chess_move::push_char(&mut r, '\n');
            }
            assert(r@ =~= board_text(*self, index + 1));
            index = index + 1;
        }
        r
    }
}

} // verus!
