//! Pseudo-legal move generation, castling eligibility and the legality filter.

use vstd::prelude::*;
use crate::chess_board::{ChessBoard, Square, SquareIndex, SquareIndexDelta};
use crate::chess_board_utils::{apply_delta, apply_delta_with_dist, delta_target};
use crate::chess_move::{after_move, moving_piece, playable, Move};
use crate::check_mate::{forward, lemma_ray_leaves_board};
use crate::chess_piece::{
    bishop_directions, bishop_dirs, king_directions, king_dirs, knight_directions, knight_dirs,
    lemma_dirs_valid, rook_directions, rook_dirs, small_delta, valid_dirs, Color, Piece, PieceKind,
};

verus! {

/// A move without promotion.
pub open spec fn base(from: int, to: int) -> Move {
    Move { from: from as u8, to: to as u8, promoted_piece_kind: None }
}

/// Every move of the sequence leaves square `from` for a square on the board.
pub open spec fn moves_from(s: Seq<Move>, from: int) -> bool {
    forall|k: int| 0 <= k < s.len() ==> (#[trigger] s[k]).from == from && s[k].to < 64
}

/// The moves of a slider of color `c` on `from` along `d`, from `dist`
/// steps out: each empty square, then the first occupied one if it holds
/// an opponent piece.
pub open spec fn ray_moves(b: ChessBoard, from: int, c: Color, d: (i8, i8), dist: int) -> Seq<Move>
    decreases 8 - dist,
{
    if dist >= 8 {
        seq![]
    } else {
        let t = delta_target(from, d.0 * dist, d.1 * dist);
        if b.empty_at(t) {
            seq![base(from, t)] + ray_moves(b, from, c, d, dist + 1)
        } else if b.opponent_at(t, c) {
            seq![base(from, t)]
        } else {
            seq![]
        }
    }
}

/// The moves of a slider along the first `n` of `dirs`, ray by ray.
pub open spec fn slider_moves(b: ChessBoard, from: int, c: Color, dirs: Seq<(i8, i8)>, n: int) -> Seq<Move>
    decreases n,
{
    if n <= 0 {
        seq![]
    } else {
        slider_moves(b, from, c, dirs, n - 1) + ray_moves(b, from, c, dirs[n - 1], 1)
    }
}

/// The move of a leaper one step along `d`, when that square is on the
/// board and empty or held by an opponent.
pub open spec fn leap_move(b: ChessBoard, from: int, c: Color, d: (i8, i8)) -> Seq<Move> {
    let t = delta_target(from, d.0 as int, d.1 as int);
    if b.empty_at(t) || b.opponent_at(t, c) {
        seq![base(from, t)]
    } else {
        seq![]
    }
}

/// The moves of a leaper along the first `n` of `dirs`.
pub open spec fn leaper_moves(b: ChessBoard, from: int, c: Color, dirs: Seq<(i8, i8)>, n: int) -> Seq<Move>
    decreases n,
{
    if n <= 0 {
        seq![]
    } else {
        leaper_moves(b, from, c, dirs, n - 1) + leap_move(b, from, c, dirs[n - 1])
    }
}

/// Square `to` is on the last rank for a pawn of color `c`.
pub open spec fn promotion_rank(to: int, c: Color) -> bool {
    match c {
        Color::White => to > 55,
        Color::Black => to < 8,
    }
}

/// Square `from` is on the starting rank of the pawns of color `c`.
pub open spec fn initial_pawn_rank(from: int, c: Color) -> bool {
    match c {
        Color::White => 8 <= from < 16,
        Color::Black => 48 <= from < 56,
    }
}

pub open spec fn promoted(from: int, to: int, k: PieceKind) -> Move {
    Move { from: from as u8, to: to as u8, promoted_piece_kind: Some(k) }
}

/// A pawn move to `to`: on the last rank one move per promotion kind
/// (queen, rook, bishop, knight), elsewhere the plain move.
pub open spec fn promotion_moves(from: int, to: int, c: Color) -> Seq<Move> {
    if promotion_rank(to, c) {
        seq![
            promoted(from, to, PieceKind::Queen),
            promoted(from, to, PieceKind::Rook),
            promoted(from, to, PieceKind::Bishop),
            promoted(from, to, PieceKind::Knight),
        ]
    } else {
        seq![base(from, to)]
    }
}

/// The pushes of a pawn: one square forward when it is empty, and then two
/// squares from the starting rank when that square is empty too.
pub open spec fn pawn_pushes(b: ChessBoard, from: int, c: Color) -> Seq<Move> {
    let one = delta_target(from, forward(c), 0);
    let two = delta_target(from, 2 * forward(c), 0);
    if b.empty_at(one) {
        promotion_moves(from, one, c) + if initial_pawn_rank(from, c) && b.empty_at(two) {
            seq![base(from, two)]
        } else {
            seq![]
        }
    } else {
        seq![]
    }
}

/// The capture of a pawn diagonally forward on column offset `dc`.
pub open spec fn pawn_capture(b: ChessBoard, from: int, c: Color, dc: int) -> Seq<Move> {
    let t = delta_target(from, forward(c), dc);
    if b.pawn_target_at(t, c) {
        promotion_moves(from, t, c)
    } else {
        seq![]
    }
}

pub open spec fn pawn_moves(b: ChessBoard, from: int, c: Color) -> Seq<Move> {
    pawn_pushes(b, from, c) + pawn_capture(b, from, c, 1) + pawn_capture(b, from, c, -1)
}

/// The pseudo-legal moves of piece `p` on square `from`.
pub open spec fn piece_moves(b: ChessBoard, from: int, p: Piece) -> Seq<Move> {
    match p.kind {
        PieceKind::Pawn => pawn_moves(b, from, p.color),
        PieceKind::Rook => slider_moves(b, from, p.color, rook_dirs(), 4),
        PieceKind::Bishop => slider_moves(b, from, p.color, bishop_dirs(), 4),
        PieceKind::Queen => slider_moves(b, from, p.color, king_dirs(), 8),
        PieceKind::Knight => leaper_moves(b, from, p.color, knight_dirs(), 8),
        PieceKind::King => leaper_moves(b, from, p.color, king_dirs(), 8),
    }
}

/// The pseudo-legal moves of the pieces of color `c` on the first `n`
/// squares, square by square.
pub open spec fn possible_moves_upto(b: ChessBoard, c: Color, n: int) -> Seq<Move>
    decreases n,
{
    if n <= 0 {
        seq![]
    } else {
        possible_moves_upto(b, c, n - 1) + match b.square_at(n - 1) {
            Square::Occupied(p) => if p.color == c {
                piece_moves(b, n - 1, p)
            } else {
                seq![]
            },
            Square::Empty => seq![],
        }
    }
}

/// All pseudo-legal moves of color `c`, castling aside.
pub open spec fn possible_moves(b: ChessBoard, c: Color) -> Seq<Move> {
    possible_moves_upto(b, c, 64)
}

/// Playing `m` does not leave the mover's king in check.
pub open spec fn keeps_king_safe(b: ChessBoard, m: Move) -> bool {
    !after_move(b, m).king_in_check(moving_piece(b, m).color)
}

/// The first `n` moves of `moves` that keep the mover's king safe, in order.
pub open spec fn legal_upto(b: ChessBoard, moves: Seq<Move>, n: int) -> Seq<Move>
    decreases n,
{
    if n <= 0 {
        seq![]
    } else {
        legal_upto(b, moves, n - 1) + if keeps_king_safe(b, moves[n - 1]) {
            seq![moves[n - 1]]
        } else {
            seq![]
        }
    }
}

/// The moves of `moves` that keep the mover's king safe, in order.
pub open spec fn legal_moves(b: ChessBoard, moves: Seq<Move>) -> Seq<Move> {
    legal_upto(b, moves, moves.len() as int)
}

/// The home square of the king of color `c`: e1 or e8.
pub open spec fn king_home(c: Color) -> int {
    match c {
        Color::White => 4,
        Color::Black => 60,
    }
}

/// Castling kingside is open to `c`: the right is held, the two squares
/// between king and rook are empty, and neither the king's home square nor
/// the squares it crosses are attacked.
pub open spec fn kingside_castle_open(b: ChessBoard, c: Color) -> bool {
    let h = king_home(c);
    &&& b.castle_flag(match c {
        Color::White => 0,
        Color::Black => 2,
    })
    &&& b.empty_at(h + 1) && b.empty_at(h + 2)
    &&& !b.square_attacked(h, c) && !b.square_attacked(h + 1, c) && !b.square_attacked(h + 2, c)
}

/// Castling queenside is open to `c`: the right is held, the three squares
/// between king and rook are empty, and neither the king's home square nor
/// the two squares it crosses are attacked.
pub open spec fn queenside_castle_open(b: ChessBoard, c: Color) -> bool {
    let h = king_home(c);
    &&& b.castle_flag(match c {
        Color::White => 1,
        Color::Black => 3,
    })
    &&& b.empty_at(h - 1) && b.empty_at(h - 2) && b.empty_at(h - 3)
    &&& !b.square_attacked(h, c) && !b.square_attacked(h - 1, c) && !b.square_attacked(h - 2, c)
}

/// The castling moves open to `c`: kingside first, then queenside.
pub open spec fn castle_moves(b: ChessBoard, c: Color) -> Seq<Move> {
    let h = king_home(c);
    (if kingside_castle_open(b, c) {
        seq![base(h, h + 2)]
    } else {
        seq![]
    }) + (if queenside_castle_open(b, c) {
        seq![base(h, h - 2)]
    } else {
        seq![]
    })
}

/// The legal moves of color `c`: the pseudo-legal moves that keep its king
/// safe, then the castling moves open to it.
pub open spec fn valid_moves(b: ChessBoard, c: Color) -> Seq<Move> {
    legal_moves(b, possible_moves(b, c)) + castle_moves(b, c)
}

impl ChessBoard {
    fn slider_valid_moves(&self, index: SquareIndex, color: &Color, directions: &[SquareIndexDelta]) -> (r:
        Vec<Move>)
        requires
            self.wf(),
            index < 64,
            valid_dirs(directions@),
        ensures
            r@ == slider_moves(*self, index as int, *color, directions@, directions@.len() as int),
            moves_from(r@, index as int),
    {
        let mut moves: Vec<Move> = Vec::new();
        let mut i: usize = 0;
        while i < directions.len()
            invariant
                self.wf(),
                i <= directions@.len(),
                index < 64,
                valid_dirs(directions@),
                moves@ == slider_moves(*self, index as int, *color, directions@, i as int),
                moves_from(moves@, index as int),
            decreases directions@.len() - i,
        {
            let delta = directions[i];
            assert(small_delta(delta) && delta != (0i8, 0i8));
            let ghost before = moves@;
            let mut dist: u8 = 1;
            loop
                invariant_except_break
                    1 <= dist <= 8,
                    moves@ + ray_moves(*self, index as int, *color, delta, dist as int) == before
                        + ray_moves(*self, index as int, *color, delta, 1),
                invariant
                    self.wf(),
                    index < 64,
                    small_delta(delta),
                    delta != (0i8, 0i8),
                    moves_from(moves@, index as int),
                ensures
                    moves@ == before + ray_moves(*self, index as int, *color, delta, 1),
                decreases 8 - dist,
            {
                proof {
                    lemma_ray_leaves_board(index as int, delta);
                }
                let next_position = apply_delta_with_dist(index, delta, dist);
                match self.within_bounds_and_empty(next_position) {
                    Some(to_index) => {
                        let ghost old_moves = moves@;
                        let m = Move::base_move(index, to_index);
                        assert(m == base(index as int, next_position as int));
                        moves.push(m);
                        assert(moves@ + ray_moves(*self, index as int, *color, delta, dist + 1)
                            =~= old_moves + ray_moves(*self, index as int, *color, delta, dist as int));
                        dist = dist + 1;
                    },
                    None => {
                        let ghost old_moves = moves@;
                        match self.within_bounds_and_occupied_by_opponent(next_position, color) {
                            None => {
                                assert(moves@ =~= old_moves + ray_moves(*self, index as int, *color, delta, dist as int));
                            },
                            Some(to_index) => {
                                let m = Move::base_move(index, to_index);
                                assert(m == base(index as int, next_position as int));
                                moves.push(m);
                                assert(moves@ =~= old_moves + ray_moves(*self, index as int, *color, delta, dist as int));
                            },
                        }
                        break;
                    },
                }
            }
            i = i + 1;
        }
        assert(directions@.len() == i);
        moves
    }

    fn leaper_valid_moves(&self, index: SquareIndex, color: &Color, directions: &[SquareIndexDelta]) -> (r:
        Vec<Move>)
        requires
            self.wf(),
            index < 64,
            valid_dirs(directions@),
        ensures
            r@ == leaper_moves(*self, index as int, *color, directions@, directions@.len() as int),
            moves_from(r@, index as int),
    {
        let mut moves: Vec<Move> = Vec::new();
        let mut i: usize = 0;
        while i < directions.len()
            invariant
                self.wf(),
                i <= directions@.len(),
                index < 64,
                valid_dirs(directions@),
                moves@ == leaper_moves(*self, index as int, *color, directions@, i as int),
                moves_from(moves@, index as int),
            decreases directions@.len() - i,
        {
            let delta = directions[i];
            assert(small_delta(delta));
            let ghost old_moves = moves@;
            let to_index = apply_delta(index, delta);
            if let Some(to_index) = self.within_bounds_and_empty(to_index) {
                moves.push(Move::base_move(index, to_index));
            } else if let Some(to_index) = self.within_bounds_and_occupied_by_opponent(to_index, color) {
                moves.push(Move::base_move(index, to_index));
            }
            assert(moves@ =~= old_moves + leap_move(*self, index as int, *color, delta));
            i = i + 1;
        }
        assert(directions@.len() == i);
        moves
    }

    fn knight_valid_moves(&self, index: SquareIndex, color: &Color) -> (r: Vec<Move>)
        requires
            self.wf(),
            index < 64,
        ensures
            r@ == leaper_moves(*self, index as int, *color, knight_dirs(), 8),
            moves_from(r@, index as int),
    {
        proof {
            lemma_dirs_valid();
        }
        let dirs = knight_directions();
        self.leaper_valid_moves(index, color, dirs.as_slice())
    }

    fn king_valid_moves(&self, index: SquareIndex, color: &Color) -> (r: Vec<Move>)
        requires
            self.wf(),
            index < 64,
        ensures
            r@ == leaper_moves(*self, index as int, *color, king_dirs(), 8),
            moves_from(r@, index as int),
    {
        proof {
            lemma_dirs_valid();
        }
        let dirs = king_directions();
        self.leaper_valid_moves(index, color, dirs.as_slice())
    }

    fn rook_valid_moves(&self, index: SquareIndex, color: &Color) -> (r: Vec<Move>)
        requires
            self.wf(),
            index < 64,
        ensures
            r@ == slider_moves(*self, index as int, *color, rook_dirs(), 4),
            moves_from(r@, index as int),
    {
        proof {
            lemma_dirs_valid();
        }
        let dirs = rook_directions();
        self.slider_valid_moves(index, color, dirs.as_slice())
    }

    fn bishop_valid_moves(&self, index: SquareIndex, color: &Color) -> (r: Vec<Move>)
        requires
            self.wf(),
            index < 64,
        ensures
            r@ == slider_moves(*self, index as int, *color, bishop_dirs(), 4),
            moves_from(r@, index as int),
    {
        proof {
            lemma_dirs_valid();
        }
        let dirs = bishop_directions();
        self.slider_valid_moves(index, color, dirs.as_slice())
    }

    fn queen_valid_moves(&self, index: SquareIndex, color: &Color) -> (r: Vec<Move>)
        requires
            self.wf(),
            index < 64,
        ensures
            r@ == slider_moves(*self, index as int, *color, king_dirs(), 8),
            moves_from(r@, index as int),
    {
        proof {
            lemma_dirs_valid();
        }
        let dirs = king_directions();
        self.slider_valid_moves(index, color, dirs.as_slice())
    }

    fn is_promotion_row(index: SquareIndex, color: &Color) -> (r: bool)
        ensures
            r == promotion_rank(index as int, *color),
    {
        match color {
            Color::White => index > 55,
            Color::Black => index < 8,
        }
    }

    fn maybe_promotion_moves(from: SquareIndex, to: SquareIndex, color: &Color) -> (r: Vec<Move>)
        requires
            to < 64,
        ensures
            r@ == promotion_moves(from as int, to as int, *color),
            moves_from(r@, from as int),
    {
        let mut moves = Vec::new();
        if !Self::is_promotion_row(to, color) {
            moves.push(Move::base_move(from, to));
        } else {
            moves.push(Move { from, to, promoted_piece_kind: Some(PieceKind::Queen) });
            moves.push(Move { from, to, promoted_piece_kind: Some(PieceKind::Rook) });
            moves.push(Move { from, to, promoted_piece_kind: Some(PieceKind::Bishop) });
            moves.push(Move { from, to, promoted_piece_kind: Some(PieceKind::Knight) });
        }
        assert(moves@ =~= promotion_moves(from as int, to as int, *color));
        moves
    }

    fn is_initial_pawn_raw(index: SquareIndex, color: &Color) -> (r: bool)
        ensures
            r == initial_pawn_rank(index as int, *color),
    {
        match color {
            Color::White => index >= 8 && index < 16,
            Color::Black => index >= 48 && index < 56,
        }
    }

    fn pawn_valid_moves(&self, index: SquareIndex, color: &Color) -> (r: Vec<Move>)
        requires
            self.wf(),
            index < 64,
        ensures
            r@ == pawn_moves(*self, index as int, *color),
            moves_from(r@, index as int),
    {
        let mut moves: Vec<Move> = Vec::new();
        let dir: i8 = match color {
            Color::White => 1,
            Color::Black => -1,
        };
        let to_index_single = apply_delta(index, (dir, 0));
        if let Some(to_index_single) = self.within_bounds_and_empty(to_index_single) {
            let mut promos = Self::maybe_promotion_moves(index, to_index_single, color);
            moves.append(&mut promos);
            if Self::is_initial_pawn_raw(index, color) {
                let to_index_double = apply_delta(index, (dir * 2, 0));
                if let Some(to_index_double) = self.within_bounds_and_empty(to_index_double) {
                    moves.push(Move::base_move(index, to_index_double));
                }
            }
        }
        assert(moves@ =~= pawn_pushes(*self, index as int, *color));
        let ghost pushes = moves@;
        let to_index_take_right = apply_delta(index, (dir, 1));
        if let Some(to_index_take_right) = self.within_bounds_and_pawn_take_target(
            to_index_take_right,
            color,
        ) {
            let mut promos = Self::maybe_promotion_moves(index, to_index_take_right, color);
            moves.append(&mut promos);
        }
        assert(moves@ =~= pushes + pawn_capture(*self, index as int, *color, 1));
        let ghost right = moves@;
        let to_index_take_left = apply_delta(index, (dir, -1));
        if let Some(to_index_take_left) = self.within_bounds_and_pawn_take_target(
            to_index_take_left,
            color,
        ) {
            let mut promos = Self::maybe_promotion_moves(index, to_index_take_left, color);
            moves.append(&mut promos);
        }
        assert(moves@ =~= right + pawn_capture(*self, index as int, *color, -1));
        moves
    }

    fn is_kingside_castle_possible(&self, color: &Color) -> (r: bool)
        requires
            self.wf(),
        ensures
            r == kingside_castle_open(*self, *color),
    {
        if *color == Color::White && !self.can_white_castle_kingside() {
            return false;
        }
        if *color == Color::Black && !self.can_black_castle_kingside() {
            return false;
        }
        let home: u8 = match color {
            Color::White => 4,
            Color::Black => 60,
        };
        if self.at(home + 1) != Square::Empty || self.at(home + 2) != Square::Empty {
            return false;
        }
        if self.is_square_checked(home, *color) || self.is_square_checked(home + 1, *color)
            || self.is_square_checked(home + 2, *color) {
            return false;
        }
        true
    }

    fn is_queenside_castle_possible(&self, color: &Color) -> (r: bool)
        requires
            self.wf(),
        ensures
            r == queenside_castle_open(*self, *color),
    {
        if *color == Color::White && !self.can_white_castle_queenside() {
            return false;
        }
        if *color == Color::Black && !self.can_black_castle_queenside() {
            return false;
        }
        let home: u8 = match color {
            Color::White => 4,
            Color::Black => 60,
        };
        if self.at(home - 1) != Square::Empty || self.at(home - 2) != Square::Empty || self.at(
            home - 3,
        ) != Square::Empty {
            return false;
        }
        if self.is_square_checked(home, *color) || self.is_square_checked(home - 1, *color)
            || self.is_square_checked(home - 2, *color) {
            return false;
        }
        true
    }

    fn piece_valid_moves(&self, index: SquareIndex, piece: &Piece) -> (r: Vec<Move>)
        requires
            self.wf(),
            index < 64,
        ensures
            r@ == piece_moves(*self, index as int, *piece),
            moves_from(r@, index as int),
    {
        match piece.kind {
            PieceKind::Pawn => self.pawn_valid_moves(index, &piece.color),
            PieceKind::Rook => self.rook_valid_moves(index, &piece.color),
            PieceKind::Bishop => self.bishop_valid_moves(index, &piece.color),
            PieceKind::Queen => self.queen_valid_moves(index, &piece.color),
            PieceKind::Knight => self.knight_valid_moves(index, &piece.color),
            PieceKind::King => self.king_valid_moves(index, &piece.color),
        }
    }

    /// The pseudo-legal moves of every piece of `color`, square by square,
    /// castling aside.
    pub fn all_possible_moves(&self, color: Color) -> (r: Vec<Move>)
        requires
            self.wf(),
        ensures
            r@ == possible_moves(*self, color),
            forall|k: int|
                0 <= k < r@.len() ==> playable(*self, #[trigger] r@[k]) && moving_piece(
                    *self,
                    r@[k],
                ).color == color,
    {
        let mut moves: Vec<Move> = Vec::new();
        let mut index: u8 = 0;
        while index < 64
            invariant
                self.wf(),
                index <= 64,
                moves@ == possible_moves_upto(*self, color, index as int),
                forall|k: int|
                    0 <= k < moves@.len() ==> playable(*self, #[trigger] moves@[k]) && moving_piece(
                        *self,
                        moves@[k],
                    ).color == color,
            decreases 64 - index,
        {
            let ghost old_moves = moves@;
            match self.at(index) {
                Square::Empty => {},
                Square::Occupied(piece) => {
                    if piece.color == color {
                        let mut valid_moves = self.piece_valid_moves(index, &piece);
                        let ghost vm = valid_moves@;
                        moves.append(&mut valid_moves);
                        assert forall|k: int| 0 <= k < moves@.len() implies playable(
                            *self,
                            #[trigger] moves@[k],
                        ) && moving_piece(*self, moves@[k]).color == color by {
                            if k >= old_moves.len() {
                                assert(moves@[k] == vm[k - old_moves.len()]);
                            } else {
                                assert(moves@[k] == old_moves[k]);
                            }
                        }
                    }
                },
            }
            assert(moves@ =~= possible_moves_upto(*self, color, index + 1));
            index = index + 1;
        }
        moves
    }

    /// The moves of `moves` after which the mover's king is not in check.
    fn filter_king_going_under_check(&self, moves: Vec<Move>) -> (r: Vec<Move>)
        requires
            self.wf(),
            forall|k: int| 0 <= k < moves@.len() ==> playable(*self, #[trigger] moves@[k]),
        ensures
            r@ == legal_moves(*self, moves@),
            forall|k: int| 0 <= k < r@.len() ==> playable(*self, #[trigger] r@[k]),
    {
        let mut kept: Vec<Move> = Vec::new();
        let mut i: usize = 0;
        while i < moves.len()
            invariant
                self.wf(),
                i <= moves@.len(),
                self.wf(),
                forall|k: int| 0 <= k < moves@.len() ==> playable(*self, #[trigger] moves@[k]),
                kept@ == legal_upto(*self, moves@, i as int),
                forall|k: int| 0 <= k < kept@.len() ==> playable(*self, #[trigger] kept@[k]),
            decreases moves@.len() - i,
        {
            let mov = moves[i];
            assert(playable(*self, moves@[i as int]));
            let piece = self.piece_at_source_or_panic(&mov);
            let mut board_after_move = *self;
            board_after_move.move_piece(&mov);
            if !board_after_move.king_in_check_if_present(piece.color) {
                kept.push(mov);
            }
            assert(kept@ =~= legal_upto(*self, moves@, i + 1));
            i = i + 1;
        }
        kept
    }

    /// The legal moves of `color`: the pseudo-legal moves that do not leave
    /// its king in check, then the castling moves open to it.
    pub fn all_valid_moves(&self, color: Color) -> (r: Vec<Move>)
        requires
            self.wf(),
        ensures
            r@ == valid_moves(*self, color),
            forall|k: int|
                0 <= k < legal_moves(*self, possible_moves(*self, color)).len() ==> playable(
                    *self,
                    #[trigger] r@[k],
                ),
    {
        let mut moves = self.filter_king_going_under_check(self.all_possible_moves(color));
        let ghost legal = moves@;
        let home: u8 = match color {
            Color::White => 4,
            Color::Black => 60,
        };
        if self.is_kingside_castle_possible(&color) {
            moves.push(Move::base_move(home, home + 2));
        }
        if self.is_queenside_castle_possible(&color) {
            moves.push(Move::base_move(home, home - 2));
        }
        assert(moves@ =~= legal + castle_moves(*self, color));
        moves
    }
}

} // verus!
