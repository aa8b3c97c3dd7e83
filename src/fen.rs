//! Decoding a position from Forsyth-Edwards notation.

use vstd::prelude::*;
use vstd::string::StrSliceExecFns;
use crate::chess_board::{masks_wf, ChessBoard, Square};
use crate::chess_piece::{Color, Piece, PieceKind};

verus! {

/// Why a text is not a position.
#[derive(Clone, Copy, PartialEq, Eq, Debug, Structural)]
pub enum FenError {
    /// The text does not have exactly six space-separated fields.
    FieldCount,
    /// The placement field does not have exactly eight ranks.
    RankCount,
    /// A rank holds a character that is neither a piece letter nor a digit
    /// from 1 to 8, or places a piece beyond the last column.
    Placement,
    /// The side to move is neither `w` nor `b`.
    SideToMove,
    /// The en-passant field is neither `-` nor a square on rank 3 or 6.
    EnPassant,
}

/// The pieces of `s` between the separators `sep`, in order; a text without
/// separators is one piece.
pub open spec fn split(s: Seq<char>, sep: char) -> Seq<Seq<char>>
    decreases s.len(),
{
    if s.len() == 0 {
        seq![seq![]]
    } else {
        let rest = split(s.drop_last(), sep);
        if s.last() == sep {
            rest.push(seq![])
        } else {
            rest.update(rest.len() - 1, rest.last().push(s.last()))
        }
    }
}

/// The piece that a letter of the placement field denotes.
pub open spec fn piece_of_char(c: char) -> Option<Piece> {
    let w = Color::White;
    let b = Color::Black;
    if c == 'P' {
        Some(Piece { kind: PieceKind::Pawn, color: w })
    } else if c == 'N' {
        Some(Piece { kind: PieceKind::Knight, color: w })
    } else if c == 'B' {
        Some(Piece { kind: PieceKind::Bishop, color: w })
    } else if c == 'R' {
        Some(Piece { kind: PieceKind::Rook, color: w })
    } else if c == 'Q' {
        Some(Piece { kind: PieceKind::Queen, color: w })
    } else if c == 'K' {
        Some(Piece { kind: PieceKind::King, color: w })
    } else if c == 'p' {
        Some(Piece { kind: PieceKind::Pawn, color: b })
    } else if c == 'n' {
        Some(Piece { kind: PieceKind::Knight, color: b })
    } else if c == 'b' {
        Some(Piece { kind: PieceKind::Bishop, color: b })
    } else if c == 'r' {
        Some(Piece { kind: PieceKind::Rook, color: b })
    } else if c == 'q' {
        Some(Piece { kind: PieceKind::Queen, color: b })
    } else if c == 'k' {
        Some(Piece { kind: PieceKind::King, color: b })
    } else {
        None
    }
}

pub open spec fn is_skip_digit(c: char) -> bool {
    '1' as u32 <= c as u32 <= '8' as u32
}

/// The column reached after reading a prefix of a rank: a digit skips that
/// many squares, a letter takes one.
pub open spec fn column_after(row: Seq<char>) -> int
    decreases row.len(),
{
    if row.len() == 0 {
        0
    } else {
        column_after(row.drop_last()) + if is_skip_digit(row.last()) {
            row.last() as u32 - '0' as u32
        } else {
            1
        }
    }
}

/// The position `b` with rank field `row` of the `i`-th rank from the top
/// placed on it; `None` on a character that is neither a digit nor a piece
/// letter, or on a piece beyond the last column.
pub open spec fn place_row(b: ChessBoard, row: Seq<char>, i: int) -> Option<ChessBoard>
    decreases row.len(),
{
    if row.len() == 0 {
        Some(b)
    } else {
        match place_row(b, row.drop_last(), i) {
            None => None,
            Some(b1) => {
                let c = row.last();
                let j = column_after(row.drop_last());
                if is_skip_digit(c) {
                    Some(b1)
                } else {
                    match piece_of_char(c) {
                        Some(p) => if j <= 7 {
                            Some(b1.with_square((7 - i) * 8 + j, Square::Occupied(p)))
                        } else {
                            None
                        },
                        None => None,
                    }
                }
            },
        }
    }
}

/// The first `n` ranks of `rows` placed on `b`, top rank first.
pub open spec fn place_rows(b: ChessBoard, rows: Seq<Seq<char>>, n: int) -> Option<ChessBoard>
    decreases n,
{
    if n <= 0 {
        Some(b)
    } else {
        match place_rows(b, rows, n - 1) {
            None => None,
            Some(b1) => place_row(b1, rows[n - 1], n - 1),
        }
    }
}

/// The en-passant field: `Ok(None)` for `-`, `Ok(Some(square))` for a file
/// letter followed by `3` or `6`, `Err` otherwise.
pub open spec fn en_passant_of(f: Seq<char>) -> Result<Option<u8>, ()> {
    if f == seq!['-'] {
        Ok(None)
    } else if f.len() >= 2 && 'a' as u32 <= f[0] as u32 <= 'h' as u32 && (f[1] == '3' || f[1]
        == '6') {
        Ok(Some(((f[0] as u32 - 'a' as u32) + (f[1] as u32 - '1' as u32) * 8) as u8))
    } else {
        Err(())
    }
}

/// The position with no pieces, black to move, no castling rights and an
/// en-passant field of zero.
pub open spec fn empty_board() -> ChessBoard {
    ChessBoard {
        white_pieces: 0,
        black_pieces: 0,
        pawns: 0,
        knights: 0,
        bishops: 0,
        rooks: 0,
        queens: 0,
        kings: 0,
        status: 0,
    }
}

/// The position that a text in Forsyth-Edwards notation describes: six
/// space-separated fields (placement, side to move, castling rights,
/// en-passant target, and two move counters that are not read).
pub open spec fn fen_result(s: Seq<char>) -> Result<ChessBoard, FenError> {
    let f = split(s, ' ');
    if f.len() != 6 {
        Err(FenError::FieldCount)
    } else if split(f[0], '/').len() != 8 {
        Err(FenError::RankCount)
    } else {
        match place_rows(empty_board(), split(f[0], '/'), 8) {
            None => Err(FenError::Placement),
            Some(b) => if f[1] != seq!['w'] && f[1] != seq!['b'] {
                Err(FenError::SideToMove)
            } else {
                match en_passant_of(f[3]) {
                    Err(_) => Err(FenError::EnPassant),
                    Ok(ep) => Ok(
                        b.with_flag(4, f[1] == seq!['w']).with_flag(1, f[2].contains('Q')).with_flag(
                            0,
                            f[2].contains('K'),
                        ).with_flag(3, f[2].contains('q')).with_flag(2, f[2].contains('k')).with_ep(ep),
                    ),
                }
            },
        }
    }
}

/// The characters of `s`.
fn chars_of(s: &str) -> (r: Vec<char>)
    ensures
        r@ == s@,
{
    let n = s.unicode_len();
    let mut r: Vec<char> = Vec::new();
    let mut i: usize = 0;
    while i < n
        invariant
            i <= n,
            n == s@.len(),
            r@ == s@.take(i as int),
        decreases n - i,
    {
        r.push(s.get_char(i));
        i = i + 1;
        assert(r@ =~= s@.take(i as int));
    }
    assert(r@ =~= s@);
    r
}

/// Splits `s` at each `sep`.
fn split_chars(s: &Vec<char>, sep: char) -> (r: Vec<Vec<char>>)
    ensures
        r@.len() == split(s@, sep).len(),
        forall|k: int| 0 <= k < r@.len() ==> (#[trigger] r@[k])@ == split(s@, sep)[k],
{
    let mut out: Vec<Vec<char>> = Vec::new();
    let mut cur: Vec<char> = Vec::new();
    let ghost mut views: Seq<Seq<char>> = seq![];
    let mut i: usize = 0;
    while i < s.len()
        invariant
            i <= s@.len(),
            out@.len() == views.len(),
            forall|k: int| 0 <= k < out@.len() ==> (#[trigger] out@[k])@ == views[k],
            views.push(cur@) == split(s@.take(i as int), sep),
        decreases s@.len() - i,
    {
        let c = s[i];
        let ghost t = s@.take(i + 1);
        assert(t.drop_last() =~= s@.take(i as int));
        assert(t.last() == c);
        if c == sep {
            proof {
                views = views.push(cur@);
            }
            out.push(cur);
            cur = Vec::new();
            assert(views.push(cur@) =~= split(t, sep));
        } else {
            cur.push(c);
            assert(views.push(cur@) =~= split(t, sep));
        }
        i = i + 1;
    }
    assert(s@.take(s@.len() as int) =~= s@);
    proof {
        views = views.push(cur@);
    }
    out.push(cur);
    out
}

fn piece_from_char(c: char) -> (r: Option<Piece>)
    ensures
        r == piece_of_char(c),
{
    let w = Color::White;
    let b = Color::Black;
    if c == 'P' {
        Some(Piece { kind: PieceKind::Pawn, color: w })
    } else if c == 'N' {
        Some(Piece { kind: PieceKind::Knight, color: w })
    } else if c == 'B' {
        Some(Piece { kind: PieceKind::Bishop, color: w })
    } else if c == 'R' {
        Some(Piece { kind: PieceKind::Rook, color: w })
    } else if c == 'Q' {
        Some(Piece { kind: PieceKind::Queen, color: w })
    } else if c == 'K' {
        Some(Piece { kind: PieceKind::King, color: w })
    } else if c == 'p' {
        Some(Piece { kind: PieceKind::Pawn, color: b })
    } else if c == 'n' {
        Some(Piece { kind: PieceKind::Knight, color: b })
    } else if c == 'b' {
        Some(Piece { kind: PieceKind::Bishop, color: b })
    } else if c == 'r' {
        Some(Piece { kind: PieceKind::Rook, color: b })
    } else if c == 'q' {
        Some(Piece { kind: PieceKind::Queen, color: b })
    } else if c == 'k' {
        Some(Piece { kind: PieceKind::King, color: b })
    } else {
        None
    }
}

/// Places rank field `row` as the `i`-th rank from the top; false on a bad
/// character or a piece beyond the last column.
fn place_row_chars(board: &mut ChessBoard, row: &Vec<char>, i: u8) -> (ok: bool)
    requires
        old(board).wf(),
        i < 8,
    ensures
        final(board).wf(),
        ok == (place_row(*old(board), row@, i as int) is Some),
        ok ==> place_row(*old(board), row@, i as int) == Some(*final(board)),
{
    let ghost b0 = *board;
    let mut j: u64 = 0;
    let mut k: usize = 0;
    while k < row.len()
        invariant
            k <= row@.len(),
            i < 8,
            board.wf(),
            b0 == *old(board),
            place_row(b0, row@.take(k as int), i as int) == Some(*board),
            j == if column_after(row@.take(k as int)) > 9 {
                9
            } else {
                column_after(row@.take(k as int))
            },
            column_after(row@.take(k as int)) >= 0,
        decreases row@.len() - k,
    {
        let c = row[k];
        let ghost t = row@.take(k + 1);
        assert(t.drop_last() =~= row@.take(k as int));
        assert(t.last() == c);
        if c as u32 >= '1' as u32 && c as u32 <= '8' as u32 {
            let inc = (c as u32 - '0' as u32) as u64;
            j = if j + inc > 9 {
                9
            } else {
                j + inc
            };
        } else {
            match piece_from_char(c) {
                None => {
                    proof {
                        lemma_place_row_fails(b0, row@, i as int, k as int + 1);
                    }
                    return false;
                },
                Some(piece) => {
                    if j > 7 {
                        proof {
                            lemma_place_row_fails(b0, row@, i as int, k as int + 1);
                        }
                        return false;
                    }
                    let index = ((7 - i) * 8 + j as u8) as u8;
                    proof {
                        board.lemma_with_square(index as int, Square::Occupied(piece));
                    }
                    board.set_at(index, Square::Occupied(piece));
                    j = j + 1;
                },
            }
        }
        k = k + 1;
    }
    assert(row@.take(row@.len() as int) =~= row@);
    true
}

/// Once a prefix of a rank fails to place, the whole rank does.
pub proof fn lemma_place_row_fails(b: ChessBoard, row: Seq<char>, i: int, k: int)
    requires
        0 <= k <= row.len(),
        place_row(b, row.take(k), i) is None,
    ensures
        place_row(b, row, i) is None,
    decreases row.len() - k,
{
    if k < row.len() {
        assert(row.take(k + 1).drop_last() =~= row.take(k));
        lemma_place_row_fails(b, row, i, k + 1);
    } else {
        assert(row.take(k) =~= row);
    }
}

fn contains_char(s: &Vec<char>, c: char) -> (r: bool)
    ensures
        r == s@.contains(c),
{
    let mut i: usize = 0;
    while i < s.len()
        invariant
            i <= s@.len(),
            forall|k: int| 0 <= k < i ==> s@[k] != c,
        decreases s@.len() - i,
    {
        if s[i] == c {
            return true;
        }
        i = i + 1;
    }
    false
}

fn parse_en_passant(f: &Vec<char>) -> (r: Result<Option<u8>, ()>)
    ensures
        r == en_passant_of(f@),
{
    if f.len() == 1 && f[0] == '-' {
        assert(f@ =~= seq!['-']);
        return Ok(None);
    }
    if f.len() >= 2 && f[0] as u32 >= 'a' as u32 && f[0] as u32 <= 'h' as u32 && (f[1] == '3'
        || f[1] == '6') {
        let col = (f[0] as u32 - 'a' as u32) as u8;
        let row = (f[1] as u32 - '1' as u32) as u8;
        Ok(Some(row * 8 + col))
    } else {
        Err(())
    }
}

fn is_single(f: &Vec<char>, c: char) -> (r: bool)
    ensures
        r == (f@ == seq![c]),
{
    if f.len() == 1 && f[0] == c {
        assert(f@ =~= seq![c]);
        true
    } else {
        false
    }
}

impl ChessBoard {
    /// Decodes a position from Forsyth-Edwards notation.
    pub fn from_fen(fen: &str) -> (r: Result<ChessBoard, FenError>)
        ensures
            r == fen_result(fen@),
            r matches Ok(b) ==> b.wf(),
    {
        let chars = chars_of(fen);
        let parts = split_chars(&chars, ' ');
        if parts.len() != 6 {
            return Err(FenError::FieldCount);
        }
        let ghost f = split(fen@, ' ');
        assert(parts@[0]@ == f[0]);
        let rows = split_chars(&parts[0], '/');
        if rows.len() != 8 {
            return Err(FenError::RankCount);
        }
        let ghost rs = split(f[0], '/');
        let mut board = ChessBoard {
            white_pieces: 0,
            black_pieces: 0,
            pawns: 0,
            knights: 0,
            bishops: 0,
            rooks: 0,
            queens: 0,
            kings: 0,
            status: 0,
        };
        assert(masks_wf(0, 0, 0, 0, 0, 0, 0, 0)) by (bit_vector);
        let mut i: u8 = 0;
        while i < 8
            invariant
                i <= 8,
                f == split(fen@, ' '),
                f.len() == 6,
                rs == split(f[0], '/'),
                rows@.len() == 8,
                rs.len() == 8,
                forall|k: int| 0 <= k < 8 ==> (#[trigger] rows@[k])@ == rs[k],
                board.wf(),
                place_rows(empty_board(), rs, i as int) == Some(board),
            decreases 8 - i,
        {
            assert(rows@[i as int]@ == rs[i as int]);
            let ghost before = board;
            if !place_row_chars(&mut board, &rows[i as usize], i) {
                assert(place_row(before, rs[i as int], i as int) is None);
                assert(place_rows(empty_board(), rs, i as int + 1) is None);
                proof {
                    lemma_place_rows_fails(empty_board(), rs, i as int + 1, 8);
                }
                return Err(FenError::Placement);
            }
            i = i + 1;
        }
        assert(parts@[1]@ == f[1]);
        assert(parts@[2]@ == f[2]);
        assert(parts@[3]@ == f[3]);
        let white = is_single(&parts[1], 'w');
        if !white && !is_single(&parts[1], 'b') {
            return Err(FenError::SideToMove);
        }
        let ep = match parse_en_passant(&parts[3]) {
            Err(_) => {
                return Err(FenError::EnPassant);
            },
            Ok(ep) => ep,
        };
        board.set_castle_flag(4, white);
        board.set_white_castle_queenside(contains_char(&parts[2], 'Q'));
        board.set_white_castle_kingside(contains_char(&parts[2], 'K'));
        board.set_black_castle_queenside(contains_char(&parts[2], 'q'));
        board.set_black_castle_kingside(contains_char(&parts[2], 'k'));
        board.set_en_passant_target_square(ep);
        Ok(board)
    }
}

/// Once the first `k` ranks fail to place, the first `n` do.
pub proof fn lemma_place_rows_fails(b: ChessBoard, rows: Seq<Seq<char>>, k: int, n: int)
    requires
        0 <= k <= n,
        place_rows(b, rows, k) is None,
    ensures
        place_rows(b, rows, n) is None,
    decreases n - k,
{
    if k < n {
        lemma_place_rows_fails(b, rows, k + 1, n);
    }
}

impl std::str::FromStr for ChessBoard {
    type Err = FenError;

    fn from_str(fen: &str) -> (r: Result<ChessBoard, FenError>)
        ensures
            r == fen_result(fen@),
            r matches Ok(b) ==> b.wf(),
    {
        ChessBoard::from_fen(fen)
    }
}

} // verus!
