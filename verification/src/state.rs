//! The position: what stands where, whose move it is, and the stack of
//! earlier positions that lets a move be taken back.

use vstd::prelude::*;
use vstd::string::StringSliceAdditionalSpecFns;
use crate::bitboard::{spec_empty_board, BitBoard, BitMask};
use crate::bits::{has_bit, lemma_toggle_bit, lemma_zero_has_no_bit};
use crate::def;

verus! {

/// The start position in Forsyth-Edwards notation.
pub const FEN_START_POS: &'static str = "rnbqkbnr/pppppppp/8/8/8/8/PPPPPPPP/RNBQKBNR w KQkq - 0 1";

/// Everything that changes when a move is made.
#[derive(Clone, Copy, Debug)]
pub struct Position {
    /// Piece code on each square, 0 where the square is empty.
    pub squares: [u8; 64],
    pub bitboard: BitBoard,
    /// The player to move.
    pub player: u8,
    /// Castling still allowed, one bit per player and side.
    pub cas_rights: u8,
    /// Castling carried out, in the bits of `cas_rights`.
    pub cas_history: u8,
    /// Square that a pawn may capture onto en passant, 0 where there is none.
    pub enp_square: usize,
    /// Plies since the last capture or pawn move.
    pub non_cap_mov_count: u16,
    /// Combination of the per-square, per-piece keys of all pieces.
    pub hash_key: u64,
    pub wk_index: usize,
    pub bk_index: usize,
}

/// A position together with the positions it came from and the tables it
/// reads.
pub struct State<'a> {
    pub pos: Position,
    /// The positions before each move made and not yet taken back, oldest
    /// first.
    pub history: Vec<Position>,
    pub zob_keys: &'a Vec<Vec<u64>>,
    pub bitmask: &'a BitMask,
}

/// Each board has a bit for exactly the squares that hold its piece, and
/// the two boards of all pieces have a bit for exactly the squares that hold
/// a piece of their colour.
#[verifier::opaque]
pub open spec fn board_matches(squares: Seq<u8>, b: BitBoard) -> bool {
    forall|i: int|
        0 <= i < 64 ==> {
            &&& has_bit(b.w_pawn, i as u64) == (#[trigger] squares[i] == def::WP)
            &&& has_bit(b.w_knight, i as u64) == (squares[i] == def::WN)
            &&& has_bit(b.w_bishop, i as u64) == (squares[i] == def::WB)
            &&& has_bit(b.w_rook, i as u64) == (squares[i] == def::WR)
            &&& has_bit(b.w_queen, i as u64) == (squares[i] == def::WQ)
            &&& has_bit(b.b_pawn, i as u64) == (squares[i] == def::BP)
            &&& has_bit(b.b_knight, i as u64) == (squares[i] == def::BN)
            &&& has_bit(b.b_bishop, i as u64) == (squares[i] == def::BB)
            &&& has_bit(b.b_rook, i as u64) == (squares[i] == def::BR)
            &&& has_bit(b.b_queen, i as u64) == (squares[i] == def::BQ)
            &&& has_bit(b.w_all, i as u64) == def::is_white_piece(squares[i])
            &&& has_bit(b.b_all, i as u64) == def::is_black_piece(squares[i])
        }
}

/// The boards after the bits of `mask` are flipped for `piece`.
pub open spec fn spec_toggle_piece(b: BitBoard, piece: u8, mask: u64) -> BitBoard {
    BitBoard {
        w_all: if def::is_white_piece(piece) { b.w_all ^ mask } else { b.w_all },
        w_pawn: if piece == def::WP { b.w_pawn ^ mask } else { b.w_pawn },
        w_knight: if piece == def::WN { b.w_knight ^ mask } else { b.w_knight },
        w_bishop: if piece == def::WB { b.w_bishop ^ mask } else { b.w_bishop },
        w_rook: if piece == def::WR { b.w_rook ^ mask } else { b.w_rook },
        w_queen: if piece == def::WQ { b.w_queen ^ mask } else { b.w_queen },
        b_all: if def::is_black_piece(piece) { b.b_all ^ mask } else { b.b_all },
        b_pawn: if piece == def::BP { b.b_pawn ^ mask } else { b.b_pawn },
        b_knight: if piece == def::BN { b.b_knight ^ mask } else { b.b_knight },
        b_bishop: if piece == def::BB { b.b_bishop ^ mask } else { b.b_bishop },
        b_rook: if piece == def::BR { b.b_rook ^ mask } else { b.b_rook },
        b_queen: if piece == def::BQ { b.b_queen ^ mask } else { b.b_queen },
    }
}

/// Flipping the bit of `index` for the piece that goes from or comes to an
/// otherwise unchanged board keeps boards and squares in step.
proof fn lemma_toggle_keeps_match(
    squares: Seq<u8>,
    b: BitBoard,
    index: usize,
    piece: u8,
    after: Seq<u8>,
)
    requires
        squares.len() == 64,
        board_matches(squares, b),
        index < 64,
        def::is_piece_code(piece),
        (squares[index as int] == piece && after == squares.update(index as int, 0u8)) || (
        squares[index as int] == 0 && after == squares.update(index as int, piece)),
    ensures
        board_matches(after, spec_toggle_piece(b, piece, 1u64 << (index as u64))),
{
    reveal(board_matches);
    let j = index as u64;
    let r = spec_toggle_piece(b, piece, 1u64 << j);
    assert forall|i: int| 0 <= i < 64 implies {
        &&& has_bit(r.w_pawn, i as u64) == (#[trigger] after[i] == def::WP)
        &&& has_bit(r.w_knight, i as u64) == (after[i] == def::WN)
        &&& has_bit(r.w_bishop, i as u64) == (after[i] == def::WB)
        &&& has_bit(r.w_rook, i as u64) == (after[i] == def::WR)
        &&& has_bit(r.w_queen, i as u64) == (after[i] == def::WQ)
        &&& has_bit(r.b_pawn, i as u64) == (after[i] == def::BP)
        &&& has_bit(r.b_knight, i as u64) == (after[i] == def::BN)
        &&& has_bit(r.b_bishop, i as u64) == (after[i] == def::BB)
        &&& has_bit(r.b_rook, i as u64) == (after[i] == def::BR)
        &&& has_bit(r.b_queen, i as u64) == (after[i] == def::BQ)
        &&& has_bit(r.w_all, i as u64) == def::is_white_piece(after[i])
        &&& has_bit(r.b_all, i as u64) == def::is_black_piece(after[i])
    } by {
        let k = i as u64;
        assert(squares[i] == squares[i]);
        lemma_toggle_bit(b.w_pawn, j, k);
        lemma_toggle_bit(b.w_knight, j, k);
        lemma_toggle_bit(b.w_bishop, j, k);
        lemma_toggle_bit(b.w_rook, j, k);
        lemma_toggle_bit(b.w_queen, j, k);
        lemma_toggle_bit(b.b_pawn, j, k);
        lemma_toggle_bit(b.b_knight, j, k);
        lemma_toggle_bit(b.b_bishop, j, k);
        lemma_toggle_bit(b.b_rook, j, k);
        lemma_toggle_bit(b.b_queen, j, k);
        lemma_toggle_bit(b.w_all, j, k);
        lemma_toggle_bit(b.b_all, j, k);
    }
}

/// A key table has a row for every square and, in each of these rows, a key
/// for every piece code.
pub open spec fn zob_keys_fit(zob_keys: Seq<Vec<u64>>) -> bool {
    &&& zob_keys.len() >= def::BOARD_SIZE
    &&& forall|i: int|
        0 <= i < def::BOARD_SIZE ==> (#[trigger] zob_keys[i]).len() >= def::PIECE_CODE_RANGE
}

/// The position with the square `index` emptied.
pub open spec fn spec_remove_piece(p: Position, zob_keys: Seq<Vec<u64>>, index: usize) -> Position {
    let piece = p.squares[index as int];
    if piece == 0 {
        p
    } else {
        Position {
            squares: vstd::array::spec_array_update(p.squares, index as int, 0u8),
            bitboard: spec_toggle_piece(p.bitboard, piece, 1u64 << (index as u64)),
            hash_key: p.hash_key ^ zob_keys[index as int]@[piece as int],
            ..p
        }
    }
}

/// The position with `piece` on the square `index`.
pub open spec fn spec_put_piece(
    p: Position,
    zob_keys: Seq<Vec<u64>>,
    index: usize,
    piece: u8,
) -> Position {
    let c = spec_remove_piece(p, zob_keys, index);
    Position {
        squares: vstd::array::spec_array_update(c.squares, index as int, piece),
        bitboard: spec_toggle_piece(c.bitboard, piece, 1u64 << (index as u64)),
        hash_key: c.hash_key ^ zob_keys[index as int]@[piece as int],
        wk_index: if piece == def::WK {
            index
        } else {
            c.wk_index
        },
        bk_index: if piece == def::BK {
            index
        } else {
            c.bk_index
        },
        ..c
    }
}

/// The position after the rook's part of castling: the rook beside the
/// king's destination `to` jumps over the king.
pub open spec fn spec_castle_rook(
    p: Position,
    zob_keys: Seq<Vec<u64>>,
    from: usize,
    to: usize,
) -> Position {
    if to == from + 2 && to + 1 < 64 {
        let rook = p.squares[to + 1];
        let c = spec_remove_piece(p, zob_keys, (to + 1) as usize);
        if rook != 0 {
            spec_put_piece(c, zob_keys, (to - 1) as usize, rook)
        } else {
            c
        }
    } else if to + 2 == from && to >= 2 {
        let rook = p.squares[to - 2];
        let c = spec_remove_piece(p, zob_keys, (to - 2) as usize);
        if rook != 0 {
            spec_put_piece(c, zob_keys, (to + 1) as usize, rook)
        } else {
            c
        }
    } else {
        p
    }
}

/// The position after `player`'s pawn has captured en passant onto `to`:
/// the pawn that it passed is gone.
pub open spec fn spec_enp_capture(
    p: Position,
    zob_keys: Seq<Vec<u64>>,
    player: u8,
    from: usize,
    to: usize,
) -> Position {
    if player == def::PLAYER_W {
        if to >= 8 && to - 8 != from {
            spec_remove_piece(p, zob_keys, (to - 8) as usize)
        } else {
            p
        }
    } else {
        if to + 8 < 64 && to + 8 != from {
            spec_remove_piece(p, zob_keys, (to + 8) as usize)
        } else {
            p
        }
    }
}

/// The position that a move leads to.
#[verifier::opaque]
pub open spec fn spec_do_mov(
    p: Position,
    zob_keys: Seq<Vec<u64>>,
    from: usize,
    to: usize,
    tp: u8,
    promo: u8,
) -> Position {
    let moving = p.squares[from as int];
    let captured = p.squares[to as int];
    let reset = Position {
        enp_square: 0,
        non_cap_mov_count: if captured != 0 || moving == def::WP || moving == def::BP {
            0u16
        } else if p.non_cap_mov_count < 1000 {
            (p.non_cap_mov_count + 1) as u16
        } else {
            p.non_cap_mov_count
        },
        cas_rights: p.cas_rights & spec_cas_rights_kept(from) & spec_cas_rights_kept(to),
        ..p
    };
    let lifted = spec_remove_piece(reset, zob_keys, from);
    let moved = if moving == 0 {
        lifted
    } else {
        let placed = spec_put_piece(
            lifted,
            zob_keys,
            to,
            if tp == def::MOV_PROMO {
                spec_promo_piece(p.player, promo)
            } else {
                moving
            },
        );
        if tp == def::MOV_CAS {
            let castled = spec_castle_rook(placed, zob_keys, from, to);
            Position {
                cas_history: if p.player == def::PLAYER_W {
                    castled.cas_history | def::CAS_W_ALL
                } else {
                    castled.cas_history | def::CAS_B_ALL
                },
                ..castled
            }
        } else if tp == def::MOV_ENP {
            spec_enp_capture(placed, zob_keys, p.player, from, to)
        } else if tp == def::MOV_CR_ENP {
            Position { enp_square: ((from + to) / 2) as usize, ..placed }
        } else {
            placed
        }
    };
    Position { player: def::spec_opposite_player(p.player), ..moved }
}

impl Position {
    /// Indices are on the board, the player is one of the two, and every
    /// square is empty or holds a piece code.
    pub open spec fn wf(&self) -> bool {
        &&& self.wk_index < def::BOARD_SIZE
        &&& self.bk_index < def::BOARD_SIZE
        &&& self.enp_square < def::BOARD_SIZE
        &&& (self.player == def::PLAYER_W || self.player == def::PLAYER_B)
        &&& forall|i: int|
            0 <= i < 64 ==> (#[trigger] self.squares[i]) == 0 || def::is_piece_code(
                self.squares[i],
            )
        &&& board_matches(self.squares@, self.bitboard)
    }

    /// The empty board with white to move.
    pub fn empty() -> (r: Position)
        ensures
            r.wf(),
            r == spec_empty_position(),
    {
        proof {
            reveal(board_matches);
            assert forall|i: u64| i < 64 implies !has_bit(0u64, i) by {
                lemma_zero_has_no_bit(i);
            }
        }
        Position {
            squares: [0u8; 64],
            bitboard: BitBoard::new(),
            player: def::PLAYER_W,
            cas_rights: 0,
            cas_history: 0,
            enp_square: 0,
            non_cap_mov_count: 0,
            hash_key: 0,
            wk_index: 0,
            bk_index: 0,
        }
    }

    /// Takes away whatever stands on `index`.
    pub fn remove_piece(&mut self, zob_keys: &Vec<Vec<u64>>, index: usize)
        requires
            old(self).wf(),
            zob_keys_fit(zob_keys@),
            index < def::BOARD_SIZE,
        ensures
            final(self).wf(),
            *final(self) == spec_remove_piece(*old(self), zob_keys@, index),
            final(self).squares@ == old(self).squares@.update(index as int, 0u8),
    {
        let piece: u8 = self.squares[index];
        if piece != 0 {
            let mask: u64 = 1u64 << (index as u64);
            self.bitboard = toggle_piece(self.bitboard, piece, mask);
            self.hash_key = self.hash_key ^ zob_keys[index][piece as usize];
            self.squares[index] = 0;
            proof {
                lemma_toggle_keeps_match(
                    old(self).squares@,
                    old(self).bitboard,
                    index,
                    piece,
                    self.squares@,
                );
            }
        }
        assert(self.squares@ =~= old(self).squares@.update(index as int, 0u8));
        assert(self.squares =~= spec_remove_piece(*old(self), zob_keys@, index).squares);
    }

    /// Puts `piece` on `index`, in place of whatever stands there. A king
    /// that is put down is from then on where its player's king is looked
    /// for.
    pub fn put_piece(&mut self, zob_keys: &Vec<Vec<u64>>, index: usize, piece: u8)
        requires
            old(self).wf(),
            zob_keys_fit(zob_keys@),
            index < def::BOARD_SIZE,
            def::is_piece_code(piece),
        ensures
            final(self).wf(),
            *final(self) == spec_put_piece(*old(self), zob_keys@, index, piece),
            final(self).squares@ == old(self).squares@.update(index as int, piece),
    {
        self.remove_piece(zob_keys, index);
        let ghost cleared = *self;
        let mask: u64 = 1u64 << (index as u64);
        self.bitboard = toggle_piece(self.bitboard, piece, mask);
        self.hash_key = self.hash_key ^ zob_keys[index][piece as usize];
        self.squares[index] = piece;
        proof {
            lemma_toggle_keeps_match(
                cleared.squares@,
                cleared.bitboard,
                index,
                piece,
                self.squares@,
            );
        }
        if piece == def::WK {
            self.wk_index = index;
        } else if piece == def::BK {
            self.bk_index = index;
        }
        assert(self.squares@ =~= old(self).squares@.update(index as int, piece));
        assert(self.squares =~= spec_put_piece(*old(self), zob_keys@, index, piece).squares);
    }
}

/// Flips the bits of `mask` in the board of `piece` and in the board of all
/// pieces of its colour.
pub fn toggle_piece(bitboard: BitBoard, piece: u8, mask: u64) -> (r: BitBoard)
    ensures
        r == spec_toggle_piece(bitboard, piece, mask),
{
    let mut b = bitboard;
    if def::is_w(piece) {
        b.w_all = b.w_all ^ mask;
        if piece == def::WP {
            b.w_pawn = b.w_pawn ^ mask;
        } else if piece == def::WN {
            b.w_knight = b.w_knight ^ mask;
        } else if piece == def::WB {
            b.w_bishop = b.w_bishop ^ mask;
        } else if piece == def::WR {
            b.w_rook = b.w_rook ^ mask;
        } else if piece == def::WQ {
            b.w_queen = b.w_queen ^ mask;
        }
    } else if def::is_b(piece) {
        b.b_all = b.b_all ^ mask;
        if piece == def::BP {
            b.b_pawn = b.b_pawn ^ mask;
        } else if piece == def::BN {
            b.b_knight = b.b_knight ^ mask;
        } else if piece == def::BB {
            b.b_bishop = b.b_bishop ^ mask;
        } else if piece == def::BR {
            b.b_rook = b.b_rook ^ mask;
        } else if piece == def::BQ {
            b.b_queen = b.b_queen ^ mask;
        }
    }
    b
}

/// The castling rights that survive a move from or to `index`: a move that
/// touches a king's or a rook's home square ends the rights that need it.
pub open spec fn spec_cas_rights_kept(index: usize) -> u8 {
    if index == 4 {
        def::CAS_B_ALL
    } else if index == 60 {
        def::CAS_W_ALL
    } else if index == 0 {
        11u8
    } else if index == 7 {
        7u8
    } else if index == 56 {
        14u8
    } else if index == 63 {
        13u8
    } else {
        15u8
    }
}

pub fn cas_rights_kept(index: usize) -> (r: u8)
    ensures
        r == spec_cas_rights_kept(index),
{
    if index == 4 {
        def::CAS_B_ALL
    } else if index == 60 {
        def::CAS_W_ALL
    } else if index == 0 {
        11u8
    } else if index == 7 {
        7u8
    } else if index == 56 {
        14u8
    } else if index == 63 {
        13u8
    } else {
        15u8
    }
}

/// The piece that a pawn of `player` turns into: `promo` where that is a
/// knight, bishop, rook or queen of `player`, else `player`'s queen.
pub open spec fn spec_promo_piece(player: u8, promo: u8) -> u8 {
    if player == def::PLAYER_W {
        if promo == def::WN || promo == def::WB || promo == def::WR {
            promo
        } else {
            def::WQ
        }
    } else {
        if promo == def::BN || promo == def::BB || promo == def::BR {
            promo
        } else {
            def::BQ
        }
    }
}

pub fn promo_piece(player: u8, promo: u8) -> (r: u8)
    ensures
        r == spec_promo_piece(player, promo),
        def::is_piece_code(r),
{
    if player == def::PLAYER_W {
        if promo == def::WN || promo == def::WB || promo == def::WR {
            promo
        } else {
            def::WQ
        }
    } else {
        if promo == def::BN || promo == def::BB || promo == def::BR {
            promo
        } else {
            def::BQ
        }
    }
}

/// The piece that a letter of the board field stands for, 0 for any other
/// byte.
pub open spec fn spec_piece_of_letter(c: u8) -> u8 {
    if c == 80 {
        def::WP
    } else if c == 78 {
        def::WN
    } else if c == 66 {
        def::WB
    } else if c == 82 {
        def::WR
    } else if c == 81 {
        def::WQ
    } else if c == 75 {
        def::WK
    } else if c == 112 {
        def::BP
    } else if c == 110 {
        def::BN
    } else if c == 98 {
        def::BB
    } else if c == 114 {
        def::BR
    } else if c == 113 {
        def::BQ
    } else if c == 107 {
        def::BK
    } else {
        0
    }
}

pub fn piece_of_letter(c: u8) -> (r: u8)
    ensures
        r == spec_piece_of_letter(c),
        r == 0 || def::is_piece_code(r),
{
    if c == 80 {
        def::WP
    } else if c == 78 {
        def::WN
    } else if c == 66 {
        def::WB
    } else if c == 82 {
        def::WR
    } else if c == 81 {
        def::WQ
    } else if c == 75 {
        def::WK
    } else if c == 112 {
        def::BP
    } else if c == 110 {
        def::BN
    } else if c == 98 {
        def::BB
    } else if c == 114 {
        def::BR
    } else if c == 113 {
        def::BQ
    } else if c == 107 {
        def::BK
    } else {
        0
    }
}

/// The empty board with white to move, no right to castle and nothing
/// counted.
pub open spec fn spec_empty_position() -> Position {
    Position {
        squares: vstd::array::spec_array_fill_for_copy_type::<u8, 64>(0u8),
        bitboard: spec_empty_board(),
        player: def::PLAYER_W,
        cas_rights: 0,
        cas_history: 0,
        enp_square: 0,
        non_cap_mov_count: 0,
        hash_key: 0,
        wk_index: 0,
        bk_index: 0,
    }
}

/// Index of the first byte at or after `i` that is not a space.
pub open spec fn spec_skip_spaces(bytes: Seq<u8>, i: int) -> int
    decreases bytes.len() - i,
{
    if 0 <= i < bytes.len() && bytes[i] == 32 {
        spec_skip_spaces(bytes, i + 1)
    } else {
        i
    }
}

/// Index of the first space at or after `i`, or the length.
pub open spec fn spec_skip_field(bytes: Seq<u8>, i: int) -> int
    decreases bytes.len() - i,
{
    if 0 <= i < bytes.len() && bytes[i] != 32 {
        spec_skip_field(bytes, i + 1)
    } else {
        i
    }
}

/// The file that a digit of the board field leads to: so many files on,
/// but not beyond the board.
pub open spec fn spec_file_after_gap(file: usize, digit: u8) -> usize {
    if file + (digit - 48) > 8 {
        8
    } else {
        (file + (digit - 48)) as usize
    }
}

/// The position once the board field is read from byte `i` on, where the
/// reader stands on `rank` and `file`, and the index behind the field. A
/// slash leads to the start of the rank below, a digit so many files on, a
/// piece letter puts its piece and leads one file on; any other byte, and a
/// piece beyond the last file, is passed over.
pub open spec fn spec_fen_board(
    bytes: Seq<u8>,
    zob_keys: Seq<Vec<u64>>,
    i: int,
    rank: usize,
    file: usize,
    pos: Position,
) -> (Position, int)
    decreases bytes.len() - i,
{
    if i < 0 || i >= bytes.len() || bytes[i] == 32 {
        (pos, i)
    } else if bytes[i] == 47 {
        spec_fen_board(
            bytes,
            zob_keys,
            i + 1,
            if rank > 0 {
                (rank - 1) as usize
            } else {
                rank
            },
            0,
            pos,
        )
    } else if 49 <= bytes[i] <= 56 {
        spec_fen_board(bytes, zob_keys, i + 1, rank, spec_file_after_gap(file, bytes[i]), pos)
    } else if spec_piece_of_letter(bytes[i]) != 0 && file < 8 {
        spec_fen_board(
            bytes,
            zob_keys,
            i + 1,
            rank,
            (file + 1) as usize,
            spec_put_piece(pos, zob_keys, (rank * 8 + file) as usize, spec_piece_of_letter(bytes[i])),
        )
    } else {
        spec_fen_board(bytes, zob_keys, i + 1, rank, file, pos)
    }
}

/// The right to castle that a letter of the castling field stands for.
pub open spec fn spec_right_of_letter(c: u8) -> u8 {
    if c == 75 {
        def::CAS_WK
    } else if c == 81 {
        def::CAS_WQ
    } else if c == 107 {
        def::CAS_BK
    } else if c == 113 {
        def::CAS_BQ
    } else {
        0
    }
}

/// The rights to castle once the castling field is read from byte `i` on,
/// and the index behind the field.
pub open spec fn spec_fen_castling(bytes: Seq<u8>, i: int, rights: u8) -> (u8, int)
    decreases bytes.len() - i,
{
    if i < 0 || i >= bytes.len() || bytes[i] == 32 {
        (rights, i)
    } else {
        spec_fen_castling(bytes, i + 1, rights | spec_right_of_letter(bytes[i]))
    }
}

/// The count that the digits from byte `i` on write, on top of `count`;
/// 1000 stands for every count beyond 999.
pub open spec fn spec_fen_count(bytes: Seq<u8>, i: int, count: u16) -> u16
    decreases bytes.len() - i,
{
    if i < 0 || i >= bytes.len() || bytes[i] < 48 || bytes[i] > 57 {
        count
    } else {
        spec_fen_count(
            bytes,
            i + 1,
            if count >= 100 {
                1000u16
            } else {
                (count * 10 + (bytes[i] - 48)) as u16
            },
        )
    }
}

/// The en-passant square that the field at `i` names: the square written
/// there, or 0 where none is.
pub open spec fn spec_fen_enp(bytes: Seq<u8>, i: int) -> usize {
    if 0 <= i && i + 1 < bytes.len() && crate::util::is_sqr_notation(bytes[i], bytes[i + 1]) {
        crate::util::sqr_of_notation(bytes[i], bytes[i + 1])
    } else {
        0
    }
}

/// The position that a record in Forsyth-Edwards notation describes: the
/// board from the eighth rank down, then, each after spaces, the player to
/// move (`b` for black, anything else for white), the rights to castle, the
/// en-passant square, and the count of plies since the last capture or
/// pawn move. A field that is missing leaves what the empty position has.
pub open spec fn spec_fen_position(bytes: Seq<u8>, zob_keys: Seq<Vec<u64>>) -> Position {
    let board = spec_fen_board(
        bytes,
        zob_keys,
        spec_skip_spaces(bytes, 0),
        7,
        0,
        spec_empty_position(),
    );
    let side_at = spec_skip_spaces(bytes, board.1);
    let black = side_at < bytes.len() && bytes[side_at] == 98;
    let castling_at = spec_skip_spaces(bytes, spec_skip_field(bytes, side_at));
    let castling = spec_fen_castling(bytes, castling_at, 0);
    let enp_at = spec_skip_spaces(bytes, castling.1);
    let count_at = spec_skip_spaces(bytes, spec_skip_field(bytes, enp_at));
    Position {
        player: if black {
            def::PLAYER_B
        } else {
            def::PLAYER_W
        },
        cas_rights: castling.0,
        enp_square: spec_fen_enp(bytes, enp_at),
        non_cap_mov_count: spec_fen_count(bytes, count_at, 0),
        ..board.0
    }
}

/// Index of the first byte at or after `i` that is not a space.
fn skip_spaces(bytes: &[u8], i: usize) -> (r: usize)
    requires
        i <= bytes@.len(),
    ensures
        i <= r <= bytes@.len(),
        r == spec_skip_spaces(bytes@, i as int),
{
    let mut k: usize = i;
    while k < bytes.len() && bytes[k] == 32
        invariant
            i <= k <= bytes@.len(),
            spec_skip_spaces(bytes@, k as int) == spec_skip_spaces(bytes@, i as int),
        decreases bytes@.len() - k,
    {
        k += 1;
    }
    k
}

/// Index of the first space at or after `i`, or the length.
fn skip_field(bytes: &[u8], i: usize) -> (r: usize)
    requires
        i <= bytes@.len(),
    ensures
        i <= r <= bytes@.len(),
        r == spec_skip_field(bytes@, i as int),
{
    let mut k: usize = i;
    while k < bytes.len() && bytes[k] != 32
        invariant
            i <= k <= bytes@.len(),
            spec_skip_field(bytes@, k as int) == spec_skip_field(bytes@, i as int),
        decreases bytes@.len() - k,
    {
        k += 1;
    }
    k
}

/// Reads the board field from byte `i` on into `pos`, and returns the index
/// behind the field.
fn read_board(bytes: &[u8], zob_keys: &Vec<Vec<u64>>, i: usize, pos: &mut Position) -> (r: usize)
    requires
        i <= bytes@.len(),
        old(pos).wf(),
        zob_keys_fit(zob_keys@),
    ensures
        final(pos).wf(),
        i <= r <= bytes@.len(),
        (*final(pos), r as int) == spec_fen_board(bytes@, zob_keys@, i as int, 7, 0, *old(pos)),
{
    let n: usize = bytes.len();
    let mut k: usize = i;
    let mut rank: usize = 7;
    let mut file: usize = 0;
    while k < n && bytes[k] != 32
        invariant
            n == bytes@.len(),
            i <= k <= n,
            rank < 8,
            file <= 8,
            pos.wf(),
            zob_keys_fit(zob_keys@),
            spec_fen_board(bytes@, zob_keys@, k as int, rank, file, *pos) == spec_fen_board(
                bytes@,
                zob_keys@,
                i as int,
                7,
                0,
                *old(pos),
            ),
        decreases n - k,
    {
        let c: u8 = bytes[k];
        if c == 47 {
            if rank > 0 {
                rank -= 1;
            }
            file = 0;
        } else if 49 <= c && c <= 56 {
            let skip: usize = (c - 48) as usize;
            file = if file + skip > 8 {
                8
            } else {
                file + skip
            };
        } else {
            let piece: u8 = piece_of_letter(c);
            if piece != 0 && file < 8 {
                pos.put_piece(zob_keys, rank * 8 + file, piece);
                file += 1;
            }
        }
        k += 1;
    }
    k
}

/// Reads the castling field from byte `i` on, and returns the rights and
/// the index behind the field.
fn read_castling(bytes: &[u8], i: usize) -> (r: (u8, usize))
    requires
        i <= bytes@.len(),
    ensures
        i <= r.1 <= bytes@.len(),
        (r.0, r.1 as int) == spec_fen_castling(bytes@, i as int, 0),
{
    let n: usize = bytes.len();
    let mut k: usize = i;
    let mut rights: u8 = 0;
    while k < n && bytes[k] != 32
        invariant
            n == bytes@.len(),
            i <= k <= n,
            spec_fen_castling(bytes@, k as int, rights) == spec_fen_castling(bytes@, i as int, 0),
        decreases n - k,
    {
        let c: u8 = bytes[k];
        let right: u8 = if c == 75 {
            def::CAS_WK
        } else if c == 81 {
            def::CAS_WQ
        } else if c == 107 {
            def::CAS_BK
        } else if c == 113 {
            def::CAS_BQ
        } else {
            0
        };
        rights = rights | right;
        k += 1;
    }
    (rights, k)
}

/// Reads the count that the digits from byte `i` on write.
fn read_count(bytes: &[u8], i: usize) -> (r: u16)
    requires
        i <= bytes@.len(),
    ensures
        r == spec_fen_count(bytes@, i as int, 0),
{
    let n: usize = bytes.len();
    let mut k: usize = i;
    let mut count: u16 = 0;
    while k < n && 48 <= bytes[k] && bytes[k] <= 57
        invariant
            n == bytes@.len(),
            i <= k <= n,
            count <= 1000,
            spec_fen_count(bytes@, k as int, count) == spec_fen_count(bytes@, i as int, 0),
        decreases n - k,
    {
        let digit: u16 = (bytes[k] - 48) as u16;
        count = if count >= 100 {
            1000
        } else {
            count * 10 + digit
        };
        k += 1;
    }
    count
}

impl<'a> State<'a> {
    /// The position and every earlier position are well formed, and the
    /// tables fit the board.
    pub open spec fn wf(&self) -> bool {
        &&& self.pos.wf()
        &&& forall|i: int| 0 <= i < self.history@.len() ==> (#[trigger] self.history@[i]).wf()
        &&& zob_keys_fit(self.zob_keys@)
        &&& self.bitmask.wf()
    }

    /// Sets up the position that a record in Forsyth-Edwards notation
    /// describes. The reader is lenient: a byte that fits nowhere is passed
    /// over, and a field that is missing keeps what the empty position has.
    pub fn new(fen: &str, zob_keys: &'a Vec<Vec<u64>>, bitmask: &'a BitMask) -> (r: State<'a>)
        requires
            zob_keys_fit(zob_keys@),
            bitmask.wf(),
        ensures
            r.wf(),
            r.pos == spec_fen_position(fen.spec_bytes(), zob_keys@),
            r.history@.len() == 0,
            r.zob_keys == zob_keys,
            r.bitmask == bitmask,
    {
        let bytes = fen.as_bytes();
        let n: usize = bytes.len();
        let mut pos = Position::empty();
        let board_at: usize = skip_spaces(bytes, 0);
        let side_at: usize = skip_spaces(bytes, read_board(bytes, zob_keys, board_at, &mut pos));
        pos.player = if side_at < n && bytes[side_at] == 98 {
            def::PLAYER_B
        } else {
            def::PLAYER_W
        };
        let castling_at: usize = skip_spaces(bytes, skip_field(bytes, side_at));
        let (rights, behind) = read_castling(bytes, castling_at);
        pos.cas_rights = rights;
        let enp_at: usize = skip_spaces(bytes, behind);
        pos.enp_square = if n - enp_at >= 2 && 97 <= bytes[enp_at] && bytes[enp_at] <= 104 && 49
            <= bytes[enp_at + 1] && bytes[enp_at + 1] <= 56 {
            crate::util::sqr_index(bytes[enp_at], bytes[enp_at + 1])
        } else {
            0
        };
        let count_at: usize = skip_spaces(bytes, skip_field(bytes, enp_at));
        pos.non_cap_mov_count = read_count(bytes, count_at);
        proof {
            reveal(board_matches);
        }
        State { pos, history: Vec::with_capacity(256), zob_keys, bitmask }
    }

    /// Makes a move: the piece on `from` goes to `to` and takes what stands
    /// there, with what the kind tag `tp` adds. The position before the
    /// move goes on the stack, so that `undo_mov` brings it back. Any
    /// squares and any tag are accepted; a tag that does not fit the board
    /// makes a plain move.
    pub fn do_mov(&mut self, from: usize, to: usize, tp: u8, promo: u8)
        requires
            old(self).wf(),
            from < def::BOARD_SIZE,
            to < def::BOARD_SIZE,
        ensures
            final(self).wf(),
            final(self).history@ == old(self).history@.push(old(self).pos),
            final(self).pos == spec_do_mov(old(self).pos, old(self).zob_keys@, from, to, tp, promo),
            final(self).pos.player == def::spec_opposite_player(old(self).pos.player),
            final(self).zob_keys == old(self).zob_keys,
            final(self).bitmask == old(self).bitmask,
    {
        reveal(spec_do_mov);
        self.history.push(self.pos);
        let zob_keys = self.zob_keys;
        let player: u8 = self.pos.player;
        let moving: u8 = self.pos.squares[from];
        let captured: u8 = self.pos.squares[to];
        self.pos.enp_square = 0;
        if captured != 0 || def::is_p(moving) {
            self.pos.non_cap_mov_count = 0;
        } else if self.pos.non_cap_mov_count < 1000 {
            self.pos.non_cap_mov_count = self.pos.non_cap_mov_count + 1;
        }
        self.pos.cas_rights = self.pos.cas_rights & cas_rights_kept(from) & cas_rights_kept(to);
        self.pos.remove_piece(zob_keys, from);
        if moving != 0 {
            if tp == def::MOV_PROMO {
                self.pos.put_piece(zob_keys, to, promo_piece(player, promo));
            } else {
                self.pos.put_piece(zob_keys, to, moving);
            }
            if tp == def::MOV_CAS {
                if to == from + 2 && to + 1 < 64 {
                    let rook: u8 = self.pos.squares[to + 1];
                    self.pos.remove_piece(zob_keys, to + 1);
                    if rook != 0 {
                        self.pos.put_piece(zob_keys, to - 1, rook);
                    }
                } else if to + 2 == from && to >= 2 {
                    let rook: u8 = self.pos.squares[to - 2];
                    self.pos.remove_piece(zob_keys, to - 2);
                    if rook != 0 {
                        self.pos.put_piece(zob_keys, to + 1, rook);
                    }
                }
                if player == def::PLAYER_W {
                    self.pos.cas_history = self.pos.cas_history | def::CAS_W_ALL;
                } else {
                    self.pos.cas_history = self.pos.cas_history | def::CAS_B_ALL;
                }
            } else if tp == def::MOV_ENP {
                if player == def::PLAYER_W {
                    if to >= 8 && to - 8 != from {
                        self.pos.remove_piece(zob_keys, to - 8);
                    }
                } else {
                    if to + 8 < 64 && to + 8 != from {
                        self.pos.remove_piece(zob_keys, to + 8);
                    }
                }
            } else if tp == def::MOV_CR_ENP {
                self.pos.enp_square = (from + to) / 2;
            }
        }
        self.pos.player = def::get_opposite_player(player);
    }

    /// Takes back the last move made and not yet taken back.
    pub fn undo_mov(&mut self)
        requires
            old(self).wf(),
            old(self).history@.len() > 0,
        ensures
            final(self).wf(),
            final(self).pos == old(self).history@.last(),
            final(self).history@ == old(self).history@.drop_last(),
            final(self).zob_keys == old(self).zob_keys,
            final(self).bitmask == old(self).bitmask,
    {
        let prev = self.history.pop();
        match prev {
            Some(p) => {
                self.pos = p;
            },
            None => {},
        }
    }

    /// Passes: the other player is to move on the same board. `undo_mov`
    /// takes this back too.
    pub fn do_null_mov(&mut self)
        requires
            old(self).wf(),
        ensures
            final(self).wf(),
            final(self).history@ == old(self).history@.push(old(self).pos),
            final(self).pos == (Position {
                enp_square: 0,
                player: def::spec_opposite_player(old(self).pos.player),
                ..old(self).pos
            }),
            final(self).zob_keys == old(self).zob_keys,
            final(self).bitmask == old(self).bitmask,
    {
        self.history.push(self.pos);
        self.pos.enp_square = 0;
        self.pos.player = def::get_opposite_player(self.pos.player);
    }

    /// What `is_draw` decides.
    pub open spec fn spec_is_draw(&self) -> bool {
        spec_drawn(self.pos, self.history@)
    }

    /// Whether the game is drawn by the fifty-move rule or by repetition.
    pub fn is_draw(&self) -> (r: bool)
        requires
            self.wf(),
        ensures
            r == self.spec_is_draw(),
    {
        if self.pos.non_cap_mov_count >= 100 {
            return true;
        }
        let n: usize = self.history.len();
        let limit: usize = self.pos.non_cap_mov_count as usize;
        let mut k: usize = 1;
        while k <= limit && k <= n
            invariant
                1 <= k,
                n == self.history@.len(),
                limit == self.pos.non_cap_mov_count,
                limit < 100,
                forall|j: int|
                    1 <= j < k ==> !same_situation(
                        #[trigger] self.history@[self.history@.len() - j],
                        self.pos,
                    ),
            decreases 200 - k,
        {
            let h = &self.history[n - k];
            if h.hash_key == self.pos.hash_key && h.player == self.pos.player && h.cas_rights
                == self.pos.cas_rights && h.enp_square == self.pos.enp_square {
                return true;
            }
            k += 1;
        }
        false
    }
}

/// Whether the game is drawn: fifty moves by each player without a capture
/// or a pawn move, or the same board with the same player to move and the
/// same rights at an earlier point since the last such move.
pub open spec fn spec_drawn(pos: Position, earlier: Seq<Position>) -> bool {
    pos.non_cap_mov_count >= 100 || exists|k: int|
        1 <= k <= pos.non_cap_mov_count && k <= earlier.len() && same_situation(
            #[trigger] earlier[earlier.len() - k],
            pos,
        )
}

/// Two positions that the repetition rule takes for the same.
pub open spec fn same_situation(a: Position, b: Position) -> bool {
    a.hash_key == b.hash_key && a.player == b.player && a.cas_rights == b.cas_rights
        && a.enp_square == b.enp_square
}

} // verus!
