//! The position: seven occupancy bitboards and a status word.
//!
//! Square `i` (0..64) is bit `i` of each mask: `i = rank * 8 + file`, with
//! rank 0 the first rank and file 0 the a-file, so a1 is 0, h1 is 7 and h8
//! is 63.

use vstd::prelude::*;
use crate::bits::{has_bit, lemma_bit_and, lemma_bit_or, lemma_bit_update, lemma_bit_zero};
use crate::chess_piece::{Color, Piece, PieceKind};

verus! {

#[derive(Clone, Copy, PartialEq, Eq, Debug, Structural)]
pub enum Square {
    Empty,
    Occupied(Piece),
}

pub type SquareIndex = u8;

pub type UnsafeSquareIndex = i8;

pub type SquareIndexDelta = (i8, i8);

pub type BitBoard = u64;

#[derive(Clone, Copy, Debug)]
pub struct ChessBoard {
    pub white_pieces: BitBoard,
    pub black_pieces: BitBoard,
    pub pawns: BitBoard,
    pub knights: BitBoard,
    pub bishops: BitBoard,
    pub rooks: BitBoard,
    pub queens: BitBoard,
    pub kings: BitBoard,
    /// bit 0: white may castle kingside.
    /// bit 1: white may castle queenside.
    /// bit 2: black may castle kingside.
    /// bit 3: black may castle queenside.
    /// bit 4: side to move (1 for white, 0 for black).
    /// bits 5-10: en-passant target square (63 for none).
    pub status: BitBoard,
}

pub const CURRENT_TURN_MASK: BitBoard = 16;

pub const EN_PASSANT_MASK: BitBoard = 2016;

/// The bitboard invariant: the color masks are disjoint, their union is the
/// union of the kind masks, and the kind masks are pairwise disjoint.
pub open spec fn masks_wf(w: u64, b: u64, p: u64, n: u64, bi: u64, r: u64, q: u64, k: u64) -> bool {
    &&& w & b == 0
    &&& w | b == p | n | bi | r | q | k
    &&& p & n == 0 && p & bi == 0 && p & r == 0 && p & q == 0 && p & k == 0
    &&& n & bi == 0 && n & r == 0 && n & q == 0 && n & k == 0
    &&& bi & r == 0 && bi & q == 0 && bi & k == 0
    &&& r & q == 0 && r & k == 0
    &&& q & k == 0
}

/// Clearing one square in every mask and then setting a consistent choice of
/// one color and one kind (or nothing) there keeps the invariant.
proof fn lemma_masks_wf_update(
    w: u64,
    b: u64,
    p: u64,
    n: u64,
    bi: u64,
    r: u64,
    q: u64,
    k: u64,
    s: u64,
    cw: bool,
    cb: bool,
    cp: bool,
    cn: bool,
    cbi: bool,
    cr: bool,
    cq: bool,
    ck: bool,
)
    requires
        masks_wf(w, b, p, n, bi, r, q, k),
        !(cw && cb),
        (cw || cb) == (cp || cn || cbi || cr || cq || ck),
        !(cp && cn) && !(cp && cbi) && !(cp && cr) && !(cp && cq) && !(cp && ck),
        !(cn && cbi) && !(cn && cr) && !(cn && cq) && !(cn && ck),
        !(cbi && cr) && !(cbi && cq) && !(cbi && ck),
        !(cr && cq) && !(cr && ck),
        !(cq && ck),
    ensures
        masks_wf(
            (w & !s) | (if cw { s } else { 0 }),
            (b & !s) | (if cb { s } else { 0 }),
            (p & !s) | (if cp { s } else { 0 }),
            (n & !s) | (if cn { s } else { 0 }),
            (bi & !s) | (if cbi { s } else { 0 }),
            (r & !s) | (if cr { s } else { 0 }),
            (q & !s) | (if cq { s } else { 0 }),
            (k & !s) | (if ck { s } else { 0 }),
        ),
{
    let w2 = (w & !s) | (if cw { s } else { 0 });
    let b2 = (b & !s) | (if cb { s } else { 0 });
    let p2 = (p & !s) | (if cp { s } else { 0 });
    let n2 = (n & !s) | (if cn { s } else { 0 });
    let bi2 = (bi & !s) | (if cbi { s } else { 0 });
    let r2 = (r & !s) | (if cr { s } else { 0 });
    let q2 = (q & !s) | (if cq { s } else { 0 });
    let k2 = (k & !s) | (if ck { s } else { 0 });
    assert(masks_wf(w2, b2, p2, n2, bi2, r2, q2, k2)) by (bit_vector)
        requires
            masks_wf(w, b, p, n, bi, r, q, k),
            w2 == (w & !s) | (if cw { s } else { 0 }),
            b2 == (b & !s) | (if cb { s } else { 0 }),
            p2 == (p & !s) | (if cp { s } else { 0 }),
            n2 == (n & !s) | (if cn { s } else { 0 }),
            bi2 == (bi & !s) | (if cbi { s } else { 0 }),
            r2 == (r & !s) | (if cr { s } else { 0 }),
            q2 == (q & !s) | (if cq { s } else { 0 }),
            k2 == (k & !s) | (if ck { s } else { 0 }),
            !(cw && cb),
            (cw || cb) == (cp || cn || cbi || cr || cq || ck),
            !(cp && cn) && !(cp && cbi) && !(cp && cr) && !(cp && cq) && !(cp && ck),
            !(cn && cbi) && !(cn && cr) && !(cn && cq) && !(cn && ck),
            !(cbi && cr) && !(cbi && cq) && !(cbi && ck),
            !(cr && cq) && !(cr && ck),
            !(cq && ck),
    ;
}

/// Whether the square holds a piece of the given color.
pub open spec fn square_has_color(sq: Square, c: Color) -> bool {
    match sq {
        Square::Empty => false,
        Square::Occupied(p) => p.color == c,
    }
}

/// Whether the square holds a piece of the given kind.
pub open spec fn square_has_kind(sq: Square, k: PieceKind) -> bool {
    match sq {
        Square::Empty => false,
        Square::Occupied(p) => p.kind == k,
    }
}

/// The mask that a square's contents add at bit `i`, for one color.
pub open spec fn color_bit(sq: Square, c: Color, i: u64) -> u64 {
    if square_has_color(sq, c) {
        1u64 << i
    } else {
        0
    }
}

/// The mask that a square's contents add at bit `i`, for one kind.
pub open spec fn kind_bit(sq: Square, k: PieceKind, i: u64) -> u64 {
    if square_has_kind(sq, k) {
        1u64 << i
    } else {
        0
    }
}

impl ChessBoard {
    /// The bitboard invariant of this position.
    pub open spec fn wf(self) -> bool {
        masks_wf(
            self.white_pieces,
            self.black_pieces,
            self.pawns,
            self.knights,
            self.bishops,
            self.rooks,
            self.queens,
            self.kings,
        )
    }

    /// The contents of square `i`, as read from the masks. It is meant under
    /// the invariant, where an occupied square has exactly one kind bit set.
    pub open spec fn square_at(self, i: int) -> Square {
        let j = i as u64;
        if !has_bit(self.white_pieces, j) && !has_bit(self.black_pieces, j) {
            Square::Empty
        } else {
            let color = if has_bit(self.white_pieces, j) {
                Color::White
            } else {
                Color::Black
            };
            let kind = if has_bit(self.pawns, j) {
                PieceKind::Pawn
            } else if has_bit(self.knights, j) {
                PieceKind::Knight
            } else if has_bit(self.bishops, j) {
                PieceKind::Bishop
            } else if has_bit(self.rooks, j) {
                PieceKind::Rook
            } else if has_bit(self.queens, j) {
                PieceKind::Queen
            } else {
                PieceKind::King
            };
            Square::Occupied(Piece { kind, color })
        }
    }

    /// The position with square `i` cleared in every mask and then filled
    /// with `sq`; the status word is kept.
    pub open spec fn with_square(self, i: int, sq: Square) -> ChessBoard {
        let j = i as u64;
        let s = 1u64 << j;
        ChessBoard {
            white_pieces: (self.white_pieces & !s) | color_bit(sq, Color::White, j),
            black_pieces: (self.black_pieces & !s) | color_bit(sq, Color::Black, j),
            pawns: (self.pawns & !s) | kind_bit(sq, PieceKind::Pawn, j),
            knights: (self.knights & !s) | kind_bit(sq, PieceKind::Knight, j),
            bishops: (self.bishops & !s) | kind_bit(sq, PieceKind::Bishop, j),
            rooks: (self.rooks & !s) | kind_bit(sq, PieceKind::Rook, j),
            queens: (self.queens & !s) | kind_bit(sq, PieceKind::Queen, j),
            kings: (self.kings & !s) | kind_bit(sq, PieceKind::King, j),
            status: self.status,
        }
    }

    /// Writing a square keeps the invariant, sets that square and leaves
    /// every other square and the status word as they were.
    pub proof fn lemma_with_square(self, i: int, sq: Square)
        requires
            self.wf(),
            0 <= i < 64,
        ensures
            self.with_square(i, sq).wf(),
            self.with_square(i, sq).status == self.status,
            forall|j: int|
                0 <= j < 64 ==> #[trigger] self.with_square(i, sq).square_at(j) == (if j == i {
                    sq
                } else {
                    self.square_at(j)
                }),
    {
        let u = i as u64;
        let s = 1u64 << u;
        lemma_masks_wf_update(
            self.white_pieces,
            self.black_pieces,
            self.pawns,
            self.knights,
            self.bishops,
            self.rooks,
            self.queens,
            self.kings,
            s,
            square_has_color(sq, Color::White),
            square_has_color(sq, Color::Black),
            square_has_kind(sq, PieceKind::Pawn),
            square_has_kind(sq, PieceKind::Knight),
            square_has_kind(sq, PieceKind::Bishop),
            square_has_kind(sq, PieceKind::Rook),
            square_has_kind(sq, PieceKind::Queen),
            square_has_kind(sq, PieceKind::King),
        );
        let nb = self.with_square(i, sq);
        assert forall|j: int| 0 <= j < 64 implies #[trigger] nb.square_at(j) == (if j == i {
            sq
        } else {
            self.square_at(j)
        }) by {
            let v = j as u64;
            lemma_bit_update(self.white_pieces, square_has_color(sq, Color::White), u, v);
            lemma_bit_update(self.black_pieces, square_has_color(sq, Color::Black), u, v);
            lemma_bit_update(self.pawns, square_has_kind(sq, PieceKind::Pawn), u, v);
            lemma_bit_update(self.knights, square_has_kind(sq, PieceKind::Knight), u, v);
            lemma_bit_update(self.bishops, square_has_kind(sq, PieceKind::Bishop), u, v);
            lemma_bit_update(self.rooks, square_has_kind(sq, PieceKind::Rook), u, v);
            lemma_bit_update(self.queens, square_has_kind(sq, PieceKind::Queen), u, v);
            lemma_bit_update(self.kings, square_has_kind(sq, PieceKind::King), u, v);
        }
    }

    /// The piece on square `index`, or `Empty`.
    pub fn at(&self, index: SquareIndex) -> (r: Square)
        requires
            self.wf(),
            index < 64,
        ensures
            r == self.square_at(index as int),
    {
        let m = 1u64 << index;
        if self.white_pieces & m == 0 && self.black_pieces & m == 0 {
            return Square::Empty;
        }
        let color = if self.white_pieces & m != 0 {
            Color::White
        } else {
            Color::Black
        };
        let kind = if self.pawns & m != 0 {
            PieceKind::Pawn
        } else if self.knights & m != 0 {
            PieceKind::Knight
        } else if self.bishops & m != 0 {
            PieceKind::Bishop
        } else if self.rooks & m != 0 {
            PieceKind::Rook
        } else if self.queens & m != 0 {
            PieceKind::Queen
        } else {
            PieceKind::King
        };
        Square::Occupied(Piece { kind, color })
    }

    /// Writes `square` at `index`: the square's bit is cleared in all seven
    /// masks, then set in the masks of the piece's color and kind.
    pub fn set_at(&mut self, index: SquareIndex, square: Square)
        requires
            index < 64,
        ensures
            *final(self) == old(self).with_square(index as int, square),
            old(self).wf() ==> final(self).wf(),
            old(self).wf() ==> forall|j: int|
                0 <= j < 64 ==> #[trigger] final(self).square_at(j) == (if j == index {
                    square
                } else {
                    old(self).square_at(j)
                }),
    {
        proof {
            if self.wf() {
                self.lemma_with_square(index as int, square);
            }
        }
        let m = 1u64 << index;
        let cm = !m;
        let (w, b, p, n, bi, r, q, k) = match square {
            Square::Empty => (0u64, 0u64, 0u64, 0u64, 0u64, 0u64, 0u64, 0u64),
            Square::Occupied(piece) => {
                let (w, b) = match piece.color {
                    Color::White => (m, 0u64),
                    Color::Black => (0u64, m),
                };
                match piece.kind {
                    PieceKind::Pawn => (w, b, m, 0u64, 0u64, 0u64, 0u64, 0u64),
                    PieceKind::Knight => (w, b, 0u64, m, 0u64, 0u64, 0u64, 0u64),
                    PieceKind::Bishop => (w, b, 0u64, 0u64, m, 0u64, 0u64, 0u64),
                    PieceKind::Rook => (w, b, 0u64, 0u64, 0u64, m, 0u64, 0u64),
                    PieceKind::Queen => (w, b, 0u64, 0u64, 0u64, 0u64, m, 0u64),
                    PieceKind::King => (w, b, 0u64, 0u64, 0u64, 0u64, 0u64, m),
                }
            },
        };
        self.white_pieces = (self.white_pieces & cm) | w;
        self.black_pieces = (self.black_pieces & cm) | b;
        self.pawns = (self.pawns & cm) | p;
        self.knights = (self.knights & cm) | n;
        self.bishops = (self.bishops & cm) | bi;
        self.rooks = (self.rooks & cm) | r;
        self.queens = (self.queens & cm) | q;
        self.kings = (self.kings & cm) | k;
    }
}

impl ChessBoard {
    /// Castling flag `k` of the status word (0: white kingside, 1: white
    /// queenside, 2: black kingside, 3: black queenside).
    pub open spec fn castle_flag(self, k: u64) -> bool {
        has_bit(self.status, k)
    }

    /// The side to move.
    pub open spec fn turn(self) -> Color {
        if has_bit(self.status, 4) {
            Color::White
        } else {
            Color::Black
        }
    }

    pub open spec fn ep_field(self) -> u64 {
        (self.status >> 5) & 63
    }

    /// The en-passant field holds six bits.
    pub proof fn lemma_ep_range(self)
        ensures
            self.ep_field() < 64,
            self.ep_target() matches Some(t) ==> t < 63,
    {
        let s = self.status;
        assert((s >> 5) & 63 < 64) by (bit_vector);
    }

    /// The en-passant target square, if any.
    pub open spec fn ep_target(self) -> Option<u8> {
        if self.ep_field() == 63 {
            None
        } else {
            Some(self.ep_field() as u8)
        }
    }

    /// The two positions have the same seven masks.
    pub open spec fn same_placement(self, o: ChessBoard) -> bool {
        &&& self.white_pieces == o.white_pieces
        &&& self.black_pieces == o.black_pieces
        &&& self.pawns == o.pawns
        &&& self.knights == o.knights
        &&& self.bishops == o.bishops
        &&& self.rooks == o.rooks
        &&& self.queens == o.queens
        &&& self.kings == o.kings
    }

    /// Positions with the same masks have the same squares.
    pub proof fn lemma_same_placement_squares(self, o: ChessBoard)
        requires
            self.same_placement(o),
        ensures
            forall|i: int| #[trigger] self.square_at(i) == o.square_at(i),
    {
    }

    /// The status words agree on the en-passant field and on every flag
    /// (castling rights and side to move) but flag `k`.
    pub open spec fn status_agrees_except(self, o: ChessBoard, k: u64) -> bool {
        &&& self.ep_field() == o.ep_field()
        &&& forall|j: u64| j < 5 && j != k ==> has_bit(self.status, j) == #[trigger] has_bit(o.status, j)
    }

    /// The spec counterpart of `set_castle_flag`.
    pub open spec fn with_flag(self, k: u64, v: bool) -> ChessBoard {
        ChessBoard {
            status: if v {
                self.status | (1u64 << k)
            } else {
                self.status & !(1u64 << k)
            },
            ..self
        }
    }

    /// Setting flag `k` changes flag `k` alone.
    pub proof fn lemma_with_flag(self, k: u64, v: bool)
        requires
            k < 5,
        ensures
            self.with_flag(k, v).castle_flag(k) == v,
            self.with_flag(k, v).status_agrees_except(self, k),
            self.with_flag(k, v).same_placement(self),
    {
        let s = self.status;
        let t = self.with_flag(k, v).status;
        assert(has_bit(t, k) == v && (t >> 5) & 63 == (s >> 5) & 63) by (bit_vector)
            requires
                k < 5,
                t == if v {
                    s | (1u64 << k)
                } else {
                    s & !(1u64 << k)
                },
        ;
        assert forall|j: u64| j < 5 && j != k implies has_bit(t, j) == #[trigger] has_bit(s, j) by {
            assert(has_bit(t, j) == has_bit(s, j)) by (bit_vector)
                requires
                    k < 5,
                    j < 5,
                    j != k,
                    t == if v {
                        s | (1u64 << k)
                    } else {
                        s & !(1u64 << k)
                    },
            ;
        }
    }

    pub(crate) fn set_castle_flag(&mut self, k: u64, v: bool)
        requires
            k < 5,
        ensures
            *final(self) == old(self).with_flag(k, v),
            final(self).castle_flag(k) == v,
            final(self).status_agrees_except(*old(self), k),
            final(self).same_placement(*old(self)),
    {
        proof {
            self.lemma_with_flag(k, v);
        }
        if v {
            self.status = self.status | (1u64 << k);
        } else {
            self.status = self.status & !(1u64 << k);
        }
    }

    pub fn can_white_castle_kingside(&self) -> (r: bool)
        ensures
            r == self.castle_flag(0),
    {
        self.status & (1u64 << 0u64) != 0
    }

    pub fn set_white_castle_kingside(&mut self, can_castle: bool)
        ensures
            *final(self) == old(self).with_flag(0, can_castle),
            final(self).castle_flag(0) == can_castle,
            final(self).status_agrees_except(*old(self), 0),
            final(self).same_placement(*old(self)),
    {
        self.set_castle_flag(0, can_castle);
    }

    pub fn can_white_castle_queenside(&self) -> (r: bool)
        ensures
            r == self.castle_flag(1),
    {
        self.status & (1u64 << 1u64) != 0
    }

    pub fn set_white_castle_queenside(&mut self, can_castle: bool)
        ensures
            *final(self) == old(self).with_flag(1, can_castle),
            final(self).castle_flag(1) == can_castle,
            final(self).status_agrees_except(*old(self), 1),
            final(self).same_placement(*old(self)),
    {
        self.set_castle_flag(1, can_castle);
    }

    pub fn can_black_castle_kingside(&self) -> (r: bool)
        ensures
            r == self.castle_flag(2),
    {
        self.status & (1u64 << 2u64) != 0
    }

    pub fn set_black_castle_kingside(&mut self, can_castle: bool)
        ensures
            *final(self) == old(self).with_flag(2, can_castle),
            final(self).castle_flag(2) == can_castle,
            final(self).status_agrees_except(*old(self), 2),
            final(self).same_placement(*old(self)),
    {
        self.set_castle_flag(2, can_castle);
    }

    pub fn can_black_castle_queenside(&self) -> (r: bool)
        ensures
            r == self.castle_flag(3),
    {
        self.status & (1u64 << 3u64) != 0
    }

    pub fn set_black_castle_queenside(&mut self, can_castle: bool)
        ensures
            *final(self) == old(self).with_flag(3, can_castle),
            final(self).castle_flag(3) == can_castle,
            final(self).status_agrees_except(*old(self), 3),
            final(self).same_placement(*old(self)),
    {
        self.set_castle_flag(3, can_castle);
    }

    pub fn current_turn(&self) -> (r: Color)
        ensures
            r == self.turn(),
    {
        if self.status & (1u64 << 4u64) != 0 {
            Color::White
        } else {
            Color::Black
        }
    }

    /// The spec counterpart of `next_turn`.
    pub open spec fn flipped(self) -> ChessBoard {
        ChessBoard { status: self.status ^ 16, ..self }
    }

    /// Flipping the side to move changes nothing else.
    pub proof fn lemma_flipped(self)
        ensures
            self.flipped().turn() == crate::chess_piece::opponent(self.turn()),
            self.flipped().status_agrees_except(self, 4),
            self.flipped().same_placement(self),
    {
        let s = self.status;
        let t = s ^ 16;
        assert((has_bit(t, 4) == !has_bit(s, 4)) && (t >> 5) & 63 == (s >> 5) & 63) by (bit_vector)
            requires
                t == s ^ 16,
        ;
        assert forall|j: u64| j < 5 && j != 4 implies has_bit(t, j) == #[trigger] has_bit(s, j) by {
            assert(has_bit(t, j) == has_bit(s, j)) by (bit_vector)
                requires
                    j < 4,
                    t == s ^ 16,
            ;
        }
    }

    /// Hands the move to the other side.
    pub fn next_turn(&mut self)
        ensures
            *final(self) == old(self).flipped(),
            final(self).turn() == crate::chess_piece::opponent(old(self).turn()),
            final(self).status_agrees_except(*old(self), 4),
            final(self).same_placement(*old(self)),
    {
        proof {
            self.lemma_flipped();
        }
        self.status = self.status ^ CURRENT_TURN_MASK;
    }

    pub fn en_passant_target_square(&self) -> (r: Option<SquareIndex>)
        ensures
            r == self.ep_target(),
            r matches Some(t) ==> t < 63,
    {
        proof {
            self.lemma_ep_range();
        }
        let field = (self.status >> 5u64) & 63;
        if field == 63 {
            None
        } else {
            Some(field as SquareIndex)
        }
    }

    /// The spec counterpart of `set_en_passant_target_square`.
    pub open spec fn with_ep(self, square: Option<u8>) -> ChessBoard {
        let v: u64 = match square {
            None => 63,
            Some(i) => i as u64,
        };
        ChessBoard { status: (self.status & !2016u64) | (v << 5), ..self }
    }

    /// Writing the en-passant field changes that field alone.
    pub proof fn lemma_with_ep(self, square: Option<u8>)
        requires
            square matches Some(i) ==> i < 64,
        ensures
            self.with_ep(square).ep_target() == (match square {
                Some(i) => if i == 63 {
                    None
                } else {
                    square
                },
                None => None,
            }),
            forall|j: u64| j < 5 ==> #[trigger] has_bit(self.with_ep(square).status, j) == has_bit(self.status, j),
            self.with_ep(square).same_placement(self),
    {
        let v: u64 = match square {
            None => 63,
            Some(i) => i as u64,
        };
        let s = self.status;
        let t = (s & !2016u64) | (v << 5);
        assert((t >> 5) & 63 == v) by (bit_vector)
            requires
                v < 64,
                t == (s & !2016u64) | (v << 5),
        ;
        assert forall|j: u64| j < 5 implies #[trigger] has_bit(t, j) == has_bit(s, j) by {
            assert(has_bit(t, j) == has_bit(s, j)) by (bit_vector)
                requires
                    j < 5,
                    v < 64,
                    t == (s & !2016u64) | (v << 5),
            ;
        }
    }

    pub fn set_en_passant_target_square(&mut self, square: Option<SquareIndex>)
        requires
            square matches Some(i) ==> i < 64,
        ensures
            *final(self) == old(self).with_ep(square),
            final(self).ep_target() == (match square {
                Some(i) => if i == 63 {
                    None
                } else {
                    square
                },
                None => None,
            }),
            forall|j: u64| j < 5 ==> #[trigger] has_bit(final(self).status, j) == has_bit(old(self).status, j),
            final(self).same_placement(*old(self)),
    {
        proof {
            self.lemma_with_ep(square);
        }
        let v: u64 = match square {
            None => 63,
            Some(index) => index as u64,
        };
        self.status = (self.status & !EN_PASSANT_MASK) | (v << 5u64);
    }

    /// The square at row `row`, column `col`.
    pub fn at_2(&self, row: u8, col: u8) -> (r: Square)
        requires
            self.wf(),
            row < 8,
            col < 8,
        ensures
            r == self.square_at(row * 8 + col),
    {
        self.at(row * 8 + col)
    }

    /// Writes the square at row `row`, column `col`.
    pub fn set_at_2(&mut self, row: u8, col: u8, square: Square)
        requires
            row < 8,
            col < 8,
        ensures
            *final(self) == old(self).with_square(row * 8 + col, square),
    {
        self.set_at(row * 8 + col, square);
    }

    /// The standard starting layout, white to move, all castling rights
    /// held, no en-passant target.
    pub fn initial_board() -> (r: ChessBoard)
        ensures
            r == Self::initial_spec(),
            r.wf(),
            r.turn() == Color::White,
            r.castle_flag(0) && r.castle_flag(1) && r.castle_flag(2) && r.castle_flag(3),
            r.ep_target() is None,
    {
        proof {
            Self::lemma_initial_wf();
        }
        ChessBoard {
            white_pieces: 0x000000000000FFFF,
            black_pieces: 0xFFFF000000000000,
            pawns: 0x00FF00000000FF00,
            knights: 0x4200000000000042,
            bishops: 0x2400000000000024,
            rooks: 0x8100000000000081,
            queens: 0x0800000000000008,
            kings: 0x1000000000000010,
            status: 0x7FF,
        }
    }

    pub open spec fn initial_spec() -> ChessBoard {
        ChessBoard {
            white_pieces: 0x000000000000FFFF,
            black_pieces: 0xFFFF000000000000,
            pawns: 0x00FF00000000FF00,
            knights: 0x4200000000000042,
            bishops: 0x2400000000000024,
            rooks: 0x8100000000000081,
            queens: 0x0800000000000008,
            kings: 0x1000000000000010,
            status: 0x7FF,
        }
    }

    /// The starting layout satisfies the invariant.
    pub proof fn lemma_initial_wf()
        ensures
            Self::initial_spec().wf(),
            Self::initial_spec().turn() == Color::White,
            Self::initial_spec().castle_flag(0) && Self::initial_spec().castle_flag(1)
                && Self::initial_spec().castle_flag(2) && Self::initial_spec().castle_flag(3),
            Self::initial_spec().ep_target() is None,
    {
        let s: u64 = 0x7FF;
        assert(has_bit(s, 0) && has_bit(s, 1) && has_bit(s, 2) && has_bit(s, 3) && has_bit(s, 4)
            && (s >> 5) & 63 == 63) by (bit_vector)
            requires
                s == 0x7FF,
        ;
        assert(masks_wf(
            0x000000000000FFFF,
            0xFFFF000000000000,
            0x00FF00000000FF00,
            0x4200000000000042,
            0x2400000000000024,
            0x8100000000000081,
            0x0800000000000008,
            0x1000000000000010,
        )) by (bit_vector);
    }
}

impl ChessBoard {
    /// The mask of one color.
    pub open spec fn color_mask(self, c: Color) -> u64 {
        match c {
            Color::White => self.white_pieces,
            Color::Black => self.black_pieces,
        }
    }

    /// The mask of one kind.
    pub open spec fn kind_mask(self, k: PieceKind) -> u64 {
        match k {
            PieceKind::Pawn => self.pawns,
            PieceKind::Knight => self.knights,
            PieceKind::Bishop => self.bishops,
            PieceKind::Rook => self.rooks,
            PieceKind::Queen => self.queens,
            PieceKind::King => self.kings,
        }
    }

    /// Under the invariant, `square_at` reads every mask faithfully: a square
    /// holds a color (a kind) exactly when that color's (kind's) bit is set.
    pub proof fn lemma_square_bits(self, i: int)
        requires
            self.wf(),
            0 <= i < 64,
        ensures
            forall|c: Color|
                square_has_color(self.square_at(i), c) == #[trigger] has_bit(
                    self.color_mask(c),
                    i as u64,
                ),
            forall|k: PieceKind|
                square_has_kind(self.square_at(i), k) == #[trigger] has_bit(
                    self.kind_mask(k),
                    i as u64,
                ),
    {
        let u = i as u64;
        let (w, b, p, n, bi, r, q, k) = (
            self.white_pieces,
            self.black_pieces,
            self.pawns,
            self.knights,
            self.bishops,
            self.rooks,
            self.queens,
            self.kings,
        );
        lemma_bit_zero(u);
        lemma_bit_and(w, b, u);
        lemma_bit_or(w, b, u);
        lemma_bit_or(p, n, u);
        lemma_bit_or(p | n, bi, u);
        lemma_bit_or(p | n | bi, r, u);
        lemma_bit_or(p | n | bi | r, q, u);
        lemma_bit_or(p | n | bi | r | q, k, u);
        lemma_bit_and(p, n, u);
        lemma_bit_and(p, bi, u);
        lemma_bit_and(p, r, u);
        lemma_bit_and(p, q, u);
        lemma_bit_and(p, k, u);
        lemma_bit_and(n, bi, u);
        lemma_bit_and(n, r, u);
        lemma_bit_and(n, q, u);
        lemma_bit_and(n, k, u);
        lemma_bit_and(bi, r, u);
        lemma_bit_and(bi, q, u);
        lemma_bit_and(bi, k, u);
        lemma_bit_and(r, q, u);
        lemma_bit_and(r, k, u);
        lemma_bit_and(q, k, u);
    }
}

impl Default for ChessBoard {
    fn default() -> (r: ChessBoard)
        ensures
            r == ChessBoard::initial_spec(),
            r.wf(),
            r.turn() == Color::White,
            r.castle_flag(0) && r.castle_flag(1) && r.castle_flag(2) && r.castle_flag(3),
            r.ep_target() is None,
    {
        ChessBoard::initial_board()
    }
}

} // verus!
