//! Moves, their text notation, and move application.

use vstd::prelude::*;
use vstd::string::StrSliceExecFns;
use crate::bits::has_bit;
use crate::chess_board::{ChessBoard, Square, SquareIndex};
use crate::chess_piece::{Color, Piece, PieceKind};

verus! {

#[derive(Clone, Copy, PartialEq, Eq, Debug, Structural)]
pub struct Move {
    pub from: SquareIndex,
    pub to: SquareIndex,
    pub promoted_piece_kind: Option<PieceKind>,
}

/// The regular expression that accepts move notation: two squares, each a
/// file letter and a rank digit, then an optional promotion letter.
pub open spec fn uci_pattern() -> Seq<char> {
    "^[a-h][1-8][a-h][1-8][qrbn]?$"@
}

pub open spec fn is_file_char(c: char) -> bool {
    'a' as u32 <= c as u32 <= 'h' as u32
}

pub open spec fn is_rank_char(c: char) -> bool {
    '1' as u32 <= c as u32 <= '8' as u32
}

pub open spec fn is_promotion_char(c: char) -> bool {
    c == 'q' || c == 'r' || c == 'b' || c == 'n'
}

/// The strings that `uci_pattern` accepts: a file, a rank, a file, a rank
/// and at most one promotion letter.
pub open spec fn uci_shape(s: Seq<char>) -> bool {
    &&& s.len() == 4 || s.len() == 5
    &&& is_file_char(s[0]) && is_rank_char(s[1]) && is_file_char(s[2]) && is_rank_char(s[3])
    &&& s.len() == 5 ==> is_promotion_char(s[4])
}

/// Relies on `regex::Regex::new` and `regex::Regex::is_match`: the pattern
/// `uci_pattern()` compiles, and, anchored at both ends, matches exactly the
/// strings of `uci_shape`.
#[verifier::external_body]
fn regex_matches_uci(pattern: &str, s: &str) -> (r: bool)
    requires
        pattern@ == uci_pattern(),
    ensures
        r == uci_shape(s@),
{
    regex::Regex::new(pattern).unwrap().is_match(s)
}

/// Relies on `String::push`: the character is appended.
#[verifier::external_body]
pub(crate) fn push_char(s: &mut String, c: char)
    ensures
        final(s)@ == old(s)@.push(c),
{
    s.push(c);
}

/// The square named by a file letter and a rank digit.
pub open spec fn square_of(file: char, rank: char) -> int {
    (rank as u32 - '1' as u32) * 8 + (file as u32 - 'a' as u32)
}

pub open spec fn promotion_kind_of(c: char) -> PieceKind {
    if c == 'q' {
        PieceKind::Queen
    } else if c == 'r' {
        PieceKind::Rook
    } else if c == 'b' {
        PieceKind::Bishop
    } else {
        PieceKind::Knight
    }
}

/// The move that a string of `uci_shape` denotes.
pub open spec fn uci_move(s: Seq<char>) -> Move {
    Move {
        from: square_of(s[0], s[1]) as u8,
        to: square_of(s[2], s[3]) as u8,
        promoted_piece_kind: if s.len() == 4 {
            None
        } else {
            Some(promotion_kind_of(s[4]))
        },
    }
}

/// A move that notation can express: squares on the board and no promotion
/// to a pawn or a king.
pub open spec fn writable(m: Move) -> bool {
    &&& m.from < 64 && m.to < 64
    &&& match m.promoted_piece_kind {
        Some(k) => k != PieceKind::Pawn && k != PieceKind::King,
        None => true,
    }
}

pub open spec fn file_char(i: int) -> char {
    (i % 8 + 'a' as u32) as char
}

pub open spec fn rank_char(i: int) -> char {
    (i / 8 + '1' as u32) as char
}

pub open spec fn promotion_char(k: PieceKind) -> char {
    match k {
        PieceKind::Rook => 'r',
        PieceKind::Knight => 'n',
        PieceKind::Bishop => 'b',
        _ => 'q',
    }
}

/// The notation of a move: source file and rank, target file and rank,
/// then the promotion letter if any.
pub open spec fn uci_text(m: Move) -> Seq<char> {
    seq![file_char(m.from as int), rank_char(m.from as int), file_char(m.to as int), rank_char(m.to as int)]
        + match m.promoted_piece_kind {
        None => seq![],
        Some(k) => seq![promotion_char(k)],
    }
}

/// Notation decodes back to the move it was written from.
pub proof fn lemma_uci_round_trip(m: Move)
    requires
        writable(m),
    ensures
        uci_shape(uci_text(m)),
        uci_move(uci_text(m)) == m,
{
    let t = uci_text(m);
    assert(t[0] == file_char(m.from as int));
    assert(t[1] == rank_char(m.from as int));
    assert(t[2] == file_char(m.to as int));
    assert(t[3] == rank_char(m.to as int));
    assert(square_of(t[0], t[1]) == m.from);
    assert(square_of(t[2], t[3]) == m.to);
}

impl Move {
    pub fn base_move(from: SquareIndex, to: SquareIndex) -> (r: Self)
        ensures
            r == (Move { from, to, promoted_piece_kind: None }),
    {
        Self { from, to, promoted_piece_kind: None }
    }

    /// Decodes move notation. The text must be of that shape: malformed
    /// notation is a caller error, which `try_from_uci_string` detects.
    pub fn from_uci_string(s: &str) -> (r: Move)
        requires
            uci_shape(s@),
        ensures
            r == uci_move(s@),
    {
        match Self::try_from_uci_string(s) {
            Some(m) => m,
            None => Move::base_move(0, 0),
        }
    }

    /// Decodes move notation after checking its shape; `None` when the text
    /// is not move notation.
    pub fn try_from_uci_string(s: &str) -> (r: Option<Move>)
        ensures
            r == (if uci_shape(s@) {
                Some(uci_move(s@))
            } else {
                None
            }),
    {
        if !regex_matches_uci("^[a-h][1-8][a-h][1-8][qrbn]?$", s) {
            return None;
        }
        let len = s.unicode_len();
        let c0 = s.get_char(0) as u32;
        let c1 = s.get_char(1) as u32;
        let c2 = s.get_char(2) as u32;
        let c3 = s.get_char(3) as u32;
        let from_col = (c0 - 97) as u8;
        let from_row = (c1 - 49) as u8;
        let to_col = (c2 - 97) as u8;
        let to_row = (c3 - 49) as u8;
        let promoted_piece = if len == 4 {
            None
        } else {
            let c = s.get_char(4);
            let piece_kind = if c == 'q' {
                PieceKind::Queen
            } else if c == 'r' {
                PieceKind::Rook
            } else if c == 'b' {
                PieceKind::Bishop
            } else {
                PieceKind::Knight
            };
            Some(piece_kind)
        };
        Some(Move { from: from_row * 8 + from_col, to: to_row * 8 + to_col, promoted_piece_kind: promoted_piece })
    }

    /// The notation of this move.
    pub fn to_uci_string(&self) -> (r: String)
        requires
            writable(*self),
        ensures
            r@ == uci_text(*self),
    {
        let mut r = String::new();
        push_char(&mut r, (self.from % 8 + 97) as char);
        push_char(&mut r, (self.from / 8 + 49) as char);
        push_char(&mut r, (self.to % 8 + 97) as char);
        push_char(&mut r, (self.to / 8 + 49) as char);
        match self.promoted_piece_kind {
            None => {},
            Some(piece_kind) => {
                let c = match piece_kind {
                    PieceKind::Rook => 'r',
                    PieceKind::Knight => 'n',
                    PieceKind::Bishop => 'b',
                    _ => 'q',
                };
                push_char(&mut r, c);
            },
        }
        assert(r@ =~= uci_text(*self));
        r
    }
}

/// The position after the castling rights that move `m` spends are
/// cleared: leaving or landing on a rook's home square clears that rook's
/// right, leaving the king's home square clears both rights of its color.
pub open spec fn castles_invalidated(b: ChessBoard, m: Move) -> ChessBoard {
    let b1 = if m.from == 7 {
        b.with_flag(0, false)
    } else if m.from == 0 {
        b.with_flag(1, false)
    } else if m.from == 63 {
        b.with_flag(2, false)
    } else if m.from == 56 {
        b.with_flag(3, false)
    } else if m.from == 4 {
        b.with_flag(0, false).with_flag(1, false)
    } else if m.from == 60 {
        b.with_flag(2, false).with_flag(3, false)
    } else {
        b
    };
    if m.to == 7 {
        b1.with_flag(0, false)
    } else if m.to == 0 {
        b1.with_flag(1, false)
    } else if m.to == 63 {
        b1.with_flag(2, false)
    } else if m.to == 56 {
        b1.with_flag(3, false)
    } else {
        b1
    }
}

/// When a king castles, its rook moves next to the king's new square.
pub open spec fn rook_relocated(b: ChessBoard, m: Move, p: Piece) -> ChessBoard {
    let wr = Square::Occupied(Piece { kind: PieceKind::Rook, color: Color::White });
    let br = Square::Occupied(Piece { kind: PieceKind::Rook, color: Color::Black });
    if p.kind != PieceKind::King {
        b
    } else if m.from == 4 && m.to == 6 {
        b.with_square(5, wr).with_square(7, Square::Empty)
    } else if m.from == 4 && m.to == 2 {
        b.with_square(3, wr).with_square(0, Square::Empty)
    } else if m.from == 60 && m.to == 62 {
        b.with_square(61, br).with_square(63, Square::Empty)
    } else if m.from == 60 && m.to == 58 {
        b.with_square(59, br).with_square(56, Square::Empty)
    } else {
        b
    }
}

/// A pawn landing on the en-passant target removes the pawn behind it.
pub open spec fn en_passant_removed(b: ChessBoard, m: Move, p: Piece) -> ChessBoard {
    match b.ep_target() {
        Some(t) => if p.kind == PieceKind::Pawn && m.to == t {
            match p.color {
                Color::White => if t >= 8 {
                    b.with_square(t - 8, Square::Empty)
                } else {
                    b
                },
                Color::Black => if t + 8 < 64 {
                    b.with_square(t + 8, Square::Empty)
                } else {
                    b
                },
            }
        } else {
            b
        },
        None => b,
    }
}

/// A pawn move of two ranks.
pub open spec fn double_pawn_move(m: Move, p: Piece) -> bool {
    p.kind == PieceKind::Pawn && (m.from / 8 - m.to / 8 == 2 || m.to / 8 - m.from / 8 == 2)
}

/// The en-passant target becomes the square a double pawn move crossed,
/// and is cleared after any other move.
pub open spec fn en_passant_updated(b: ChessBoard, m: Move, p: Piece) -> ChessBoard {
    if double_pawn_move(m, p) {
        b.with_ep(Some(((m.from + m.to) / 2) as u8))
    } else {
        b.with_ep(None)
    }
}

/// The piece that lands: the moving piece, or its promotion.
pub open spec fn landing_piece(m: Move, p: Piece) -> Piece {
    match m.promoted_piece_kind {
        None => p,
        Some(k) => Piece { color: p.color, kind: k },
    }
}

/// The piece on the source square of `m`.
pub open spec fn moving_piece(b: ChessBoard, m: Move) -> Piece {
    b.square_at(m.from as int)->Occupied_0
}

/// The position after move `m` is played.
pub open spec fn after_move(b: ChessBoard, m: Move) -> ChessBoard {
    let p = moving_piece(b, m);
    let b1 = castles_invalidated(b, m);
    let b2 = rook_relocated(b1, m, p);
    let b3 = en_passant_removed(b2, m, p);
    let b4 = en_passant_updated(b3, m, p);
    b4.with_square(m.from as int, Square::Empty).with_square(
        m.to as int,
        Square::Occupied(landing_piece(m, p)),
    ).flipped()
}

/// A move whose squares are on the board and whose source is occupied.
pub open spec fn playable(b: ChessBoard, m: Move) -> bool {
    m.from < 64 && m.to < 64 && b.square_at(m.from as int) is Occupied
}

impl ChessBoard {
    fn castle_invalidation(&mut self, mov: &Move)
        ensures
            *final(self) == castles_invalidated(*old(self), *mov),
    {
        match mov.from {
            7 => self.set_white_castle_kingside(false),
            0 => self.set_white_castle_queenside(false),
            63 => self.set_black_castle_kingside(false),
            56 => self.set_black_castle_queenside(false),
            4 => {
                self.set_white_castle_kingside(false);
                self.set_white_castle_queenside(false);
            },
            60 => {
                self.set_black_castle_kingside(false);
                self.set_black_castle_queenside(false);
            },
            _ => {},
        }
        match mov.to {
            7 => self.set_white_castle_kingside(false),
            0 => self.set_white_castle_queenside(false),
            63 => self.set_black_castle_kingside(false),
            56 => self.set_black_castle_queenside(false),
            _ => {},
        }
    }

    fn move_rook_if_castle(&mut self, mov: &Move, moving_piece: &Piece)
        ensures
            *final(self) == rook_relocated(*old(self), *mov, *moving_piece),
    {
        if moving_piece.kind != PieceKind::King {
            return ;
        }
        let wr = Square::Occupied(Piece::white_rook());
        let br = Square::Occupied(Piece::black_rook());
        if mov.from == 4 {
            if mov.to == 6 {
                self.set_at(5, wr);
                self.set_at(7, Square::Empty);
            } else if mov.to == 2 {
                self.set_at(3, wr);
                self.set_at(0, Square::Empty);
            }
        } else if mov.from == 60 {
            if mov.to == 62 {
                self.set_at(61, br);
                self.set_at(63, Square::Empty);
            } else if mov.to == 58 {
                self.set_at(59, br);
                self.set_at(56, Square::Empty);
            }
        }
    }

    fn remove_piece_after_en_passant(&mut self, mov: &Move, moving_piece: &Piece)
        ensures
            *final(self) == en_passant_removed(*old(self), *mov, *moving_piece),
    {
        match (moving_piece.kind, self.en_passant_target_square()) {
            (PieceKind::Pawn, Some(en_passant_square)) => {
                if mov.to == en_passant_square {
                    match moving_piece.color {
                        Color::White => {
                            if en_passant_square >= 8 {
                                self.set_at(en_passant_square - 8, Square::Empty);
                            }
                        },
                        Color::Black => {
                            if en_passant_square < 56 {
                                self.set_at(en_passant_square + 8, Square::Empty);
                            }
                        },
                    }
                }
            },
            _ => {},
        }
    }

    fn is_double_pawn_move(mov: &Move, moving_piece: &Piece) -> (r: bool)
        ensures
            r == double_pawn_move(*mov, *moving_piece),
    {
        if moving_piece.kind != PieceKind::Pawn {
            return false;
        }
        let from_rank = mov.from / 8;
        let to_rank = mov.to / 8;
        from_rank == to_rank + 2 || to_rank == from_rank + 2
    }

    fn update_en_passant_target_square(&mut self, mov: &Move, moving_piece: &Piece)
        requires
            mov.from < 64,
            mov.to < 64,
        ensures
            *final(self) == en_passant_updated(*old(self), *mov, *moving_piece),
    {
        if Self::is_double_pawn_move(mov, moving_piece) {
            self.set_en_passant_target_square(Some((mov.from + mov.to) / 2))
        } else {
            self.set_en_passant_target_square(None)
        }
    }

    /// Decodes `uci` and plays it. Returns false, leaving the position as it
    /// was, when the text is not move notation or names an empty source square.
    pub fn move_piece_uci(&mut self, uci: &str) -> (r: bool)
        requires
            old(self).wf(),
        ensures
            r == (uci_shape(uci@) && playable(*old(self), uci_move(uci@))),
            r ==> *final(self) == after_move(*old(self), uci_move(uci@)),
            !r ==> *final(self) == *old(self),
            final(self).wf(),
    {
        match Move::try_from_uci_string(uci) {
            None => false,
            Some(mov) => {
                if mov.from >= 64 || mov.to >= 64 {
                    return false;
                }
                match self.at(mov.from) {
                    Square::Empty => false,
                    Square::Occupied(_) => {
                        self.move_piece(&mov);
                        true
                    },
                }
            },
        }
    }

    /// Plays `mov`: castling rights, a castling rook, an en-passant capture
    /// and the en-passant target are brought up to date, the piece (or its
    /// promotion) moves, and the other side is to move.
    pub fn move_piece(&mut self, mov: &Move)
        requires
            old(self).wf(),
            playable(*old(self), *mov),
        ensures
            *final(self) == after_move(*old(self), *mov),
            final(self).wf(),
    {
        let ghost b0 = *self;
        let moving_piece = match self.at(mov.from) {
            Square::Occupied(piece) => piece,
            Square::Empty => {
                return ;
            },
        };
        self.castle_invalidation(mov);
        self.move_rook_if_castle(mov, &moving_piece);
        self.remove_piece_after_en_passant(mov, &moving_piece);
        self.update_en_passant_target_square(mov, &moving_piece);
        proof {
            lemma_after_move_wf(b0, *mov);
        }
        let promoted_piece = match mov.promoted_piece_kind {
            None => moving_piece,
            Some(promoted_piece_kind) => Piece { color: moving_piece.color, kind: promoted_piece_kind },
        };
        self.set_at(mov.from, Square::Empty);
        self.set_at(mov.to, Square::Occupied(promoted_piece));
        self.next_turn();
    }
}

/// Playing a move keeps the bitboard invariant: the color masks stay
/// disjoint, their union stays the union of the kind masks, and the kind
/// masks stay pairwise disjoint.
pub proof fn lemma_after_move_wf(b: ChessBoard, m: Move)
    requires
        b.wf(),
        playable(b, m),
    ensures
        after_move(b, m).wf(),
{
    let p = moving_piece(b, m);
    let b1 = castles_invalidated(b, m);
    assert(b1.same_placement(b));
    let wr = Square::Occupied(Piece { kind: PieceKind::Rook, color: Color::White });
    let br = Square::Occupied(Piece { kind: PieceKind::Rook, color: Color::Black });
    b1.lemma_with_square(5, wr);
    b1.with_square(5, wr).lemma_with_square(7, Square::Empty);
    b1.lemma_with_square(3, wr);
    b1.with_square(3, wr).lemma_with_square(0, Square::Empty);
    b1.lemma_with_square(61, br);
    b1.with_square(61, br).lemma_with_square(63, Square::Empty);
    b1.lemma_with_square(59, br);
    b1.with_square(59, br).lemma_with_square(56, Square::Empty);
    let b2 = rook_relocated(b1, m, p);
    assert(b2.wf());
    b2.lemma_ep_range();
    match b2.ep_target() {
        Some(t) => {
            if t >= 8 {
                b2.lemma_with_square(t - 8, Square::Empty);
            }
            if t + 8 < 64 {
                b2.lemma_with_square(t + 8, Square::Empty);
            }
        },
        None => {},
    }
    let b3 = en_passant_removed(b2, m, p);
    assert(b3.wf());
    let b4 = en_passant_updated(b3, m, p);
    assert(b4.same_placement(b3));
    assert(b4.wf());
    b4.lemma_with_square(m.from as int, Square::Empty);
    let b5 = b4.with_square(m.from as int, Square::Empty);
    b5.lemma_with_square(m.to as int, Square::Occupied(landing_piece(m, p)));
}

/// Spending castling rights moves no piece and keeps the en-passant target
/// and the side to move.
pub proof fn lemma_castles_invalidated(b: ChessBoard, m: Move)
    ensures
        castles_invalidated(b, m).same_placement(b),
        castles_invalidated(b, m).ep_target() == b.ep_target(),
        castles_invalidated(b, m).turn() == b.turn(),
{
    b.lemma_with_flag(0, false);
    b.lemma_with_flag(1, false);
    b.lemma_with_flag(2, false);
    b.lemma_with_flag(3, false);
    b.with_flag(0, false).lemma_with_flag(1, false);
    b.with_flag(2, false).lemma_with_flag(3, false);
    let b1 = if m.from == 7 {
        b.with_flag(0, false)
    } else if m.from == 0 {
        b.with_flag(1, false)
    } else if m.from == 63 {
        b.with_flag(2, false)
    } else if m.from == 56 {
        b.with_flag(3, false)
    } else if m.from == 4 {
        b.with_flag(0, false).with_flag(1, false)
    } else if m.from == 60 {
        b.with_flag(2, false).with_flag(3, false)
    } else {
        b
    };
    assert(b1.ep_field() == b.ep_field());
    assert(has_bit(b1.status, 4) == has_bit(b.status, 4));
    b1.lemma_with_flag(0, false);
    b1.lemma_with_flag(1, false);
    b1.lemma_with_flag(2, false);
    b1.lemma_with_flag(3, false);
}

/// What a move that is neither castling nor an en-passant capture does to
/// the board: the source empties, the target holds the moving piece (or its
/// promotion), every other square keeps its contents, and the other side
/// is to move.
pub proof fn lemma_plain_move_effect(b: ChessBoard, m: Move)
    requires
        b.wf(),
        playable(b, m),
        m.from != m.to,
        !(moving_piece(b, m).kind == PieceKind::King && castling_squares(m.from, m.to)),
        !(moving_piece(b, m).kind == PieceKind::Pawn && b.ep_target() == Some(m.to)),
    ensures
        after_move(b, m).square_at(m.from as int) == Square::Empty,
        after_move(b, m).square_at(m.to as int) == Square::Occupied(landing_piece(m, moving_piece(b, m))),
        forall|i: int|
            0 <= i < 64 && i != m.from && i != m.to ==> #[trigger] after_move(b, m).square_at(i)
                == b.square_at(i),
        after_move(b, m).turn() == crate::chess_piece::opponent(b.turn()),
{
    let p = moving_piece(b, m);
    lemma_castles_invalidated(b, m);
    let b3 = en_passant_removed(rook_relocated(castles_invalidated(b, m), m, p), m, p);
    b3.lemma_with_ep(Some(((m.from + m.to) / 2) as u8));
    b3.lemma_with_ep(None);
    let b4 = en_passant_updated(b3, m, p);
    assert(b4.same_placement(b));
    assert(b4.wf());
    assert(has_bit(b4.status, 4) == has_bit(b.status, 4));
    b4.lemma_same_placement_squares(b);
    b4.lemma_with_square(m.from as int, Square::Empty);
    let b5 = b4.with_square(m.from as int, Square::Empty);
    b5.lemma_with_square(m.to as int, Square::Occupied(landing_piece(m, p)));
    let b6 = b5.with_square(m.to as int, Square::Occupied(landing_piece(m, p)));
    b6.lemma_flipped();
    b6.flipped().lemma_same_placement_squares(b6);
}

/// A king move from `from` to `to` is castling: two squares sideways from
/// the king's home square.
pub open spec fn castling_squares(from: u8, to: u8) -> bool {
    (from == 4 && (to == 6 || to == 2)) || (from == 60 && (to == 62 || to == 58))
}

/// The move that takes the piece back: from the target to the source.
pub open spec fn reverse_move(m: Move) -> Move {
    Move { from: m.to, to: m.from, promoted_piece_kind: None }
}

/// Playing a quiet move and then the reverse move puts every piece back
/// where it stood. A quiet move here lands on an empty square, promotes
/// nothing, is no en-passant capture, and is no castling move either way
/// (which would move a rook as well). Castling rights
/// and the en-passant target are not restored: they only ever move one way.
pub proof fn lemma_reverse_restores_placement(b: ChessBoard, m: Move)
    requires
        b.wf(),
        playable(b, m),
        m.from != m.to,
        b.square_at(m.to as int) == Square::Empty,
        m.promoted_piece_kind is None,
        !(moving_piece(b, m).kind == PieceKind::King && (castling_squares(m.from, m.to)
            || castling_squares(m.to, m.from))),
        !(moving_piece(b, m).kind == PieceKind::Pawn && b.ep_target() == Some(m.to)),
    ensures
        forall|i: int|
            0 <= i < 64 ==> #[trigger] after_move(after_move(b, m), reverse_move(m)).square_at(i)
                == b.square_at(i),
{
    let p = moving_piece(b, m);
    lemma_castles_invalidated(b, m);
    let b4 = en_passant_updated(
        en_passant_removed(rook_relocated(castles_invalidated(b, m), m, p), m, p),
        m,
        p,
    );
    let b3 = en_passant_removed(rook_relocated(castles_invalidated(b, m), m, p), m, p);
    b3.lemma_with_ep(Some(((m.from + m.to) / 2) as u8));
    b3.lemma_with_ep(None);
    assert(b4.same_placement(b));
    assert(b4.wf());
    b4.lemma_with_square(m.from as int, Square::Empty);
    let b5 = b4.with_square(m.from as int, Square::Empty);
    b5.lemma_with_square(m.to as int, Square::Occupied(p));
    let b6 = b5.with_square(m.to as int, Square::Occupied(p));
    b6.lemma_flipped();
    let b1 = after_move(b, m);
    assert(b1 == b6.flipped());
    b1.lemma_same_placement_squares(b6);
    let r = reverse_move(m);
    assert(b1.square_at(m.to as int) == Square::Occupied(p));
    assert(moving_piece(b1, r) == p);
    lemma_after_move_wf(b, m);
    b1.lemma_ep_range();
    lemma_castles_invalidated(b1, r);
    let c4 = en_passant_updated(
        en_passant_removed(rook_relocated(castles_invalidated(b1, r), r, p), r, p),
        r,
        p,
    );
    assert(c4.same_placement(b1));
    assert(c4.wf());
    c4.lemma_with_square(r.from as int, Square::Empty);
    let c5 = c4.with_square(r.from as int, Square::Empty);
    c5.lemma_with_square(r.to as int, Square::Occupied(p));
    let c6 = c5.with_square(r.to as int, Square::Occupied(p));
    c6.lemma_flipped();
    assert(after_move(b1, r) == c6.flipped());
    c6.flipped().lemma_same_placement_squares(c6);
    c4.lemma_same_placement_squares(b1);
    b4.lemma_same_placement_squares(b);
    assert forall|i: int| 0 <= i < 64 implies #[trigger] after_move(b1, r).square_at(i)
        == b.square_at(i) by {
    }
}

} // verus!
