//! Piece bitboards and the per-square mask tables that evaluation, attack
//! detection and move generation read.
//!
//! Squares are numbered from a1 = 0 along the ranks to h8 = 63, so "up" is
//! towards higher indices and "right" towards the h-file. Every mask is
//! given in closed form as a specification function; the tables hold those
//! values for the 64 squares.

use vstd::prelude::*;

verus! {

/// One bit per square for each piece kind and colour, and for all pieces of
/// a colour.
#[derive(Clone, Copy, Debug)]
pub struct BitBoard {
    pub w_all: u64,
    pub w_pawn: u64,
    pub w_knight: u64,
    pub w_bishop: u64,
    pub w_rook: u64,
    pub w_queen: u64,
    pub b_all: u64,
    pub b_pawn: u64,
    pub b_knight: u64,
    pub b_bishop: u64,
    pub b_rook: u64,
    pub b_queen: u64,
}

/// The board with no piece on it.
pub open spec fn spec_empty_board() -> BitBoard {
    BitBoard {
        w_all: 0,
        w_pawn: 0,
        w_knight: 0,
        w_bishop: 0,
        w_rook: 0,
        w_queen: 0,
        b_all: 0,
        b_pawn: 0,
        b_knight: 0,
        b_bishop: 0,
        b_rook: 0,
        b_queen: 0,
    }
}

impl BitBoard {
    /// The board with no piece on it.
    pub fn new() -> (r: BitBoard)
        ensures
            r == spec_empty_board(),
    {
        BitBoard {
            w_all: 0,
            w_pawn: 0,
            w_knight: 0,
            w_bishop: 0,
            w_rook: 0,
            w_queen: 0,
            b_all: 0,
            b_pawn: 0,
            b_knight: 0,
            b_bishop: 0,
            b_rook: 0,
            b_queen: 0,
        }
    }
}

/// All squares on the file of `i`.
pub open spec fn spec_file_mask(i: usize) -> u64
    recommends
        i < 64,
{
    0x0101010101010101u64 << ((i % 8) as u64)
}

/// All squares on the file of `i`.
pub fn file_mask(i: usize) -> (r: u64)
    requires
        i < 64,
    ensures
        r == spec_file_mask(i),
{
    0x0101010101010101u64 << ((i % 8) as u64)
}

/// All squares on the rank of `i`.
pub open spec fn spec_rank_mask(i: usize) -> u64
    recommends
        i < 64,
{
    0xffu64 << ((8 * (i / 8)) as u64)
}

/// All squares on the rank of `i`.
pub fn rank_mask(i: usize) -> (r: u64)
    requires
        i < 64,
    ensures
        r == spec_rank_mask(i),
{
    0xffu64 << ((8 * (i / 8)) as u64)
}

/// The square `i` alone.
pub open spec fn spec_index_mask(i: usize) -> u64
    recommends
        i < 64,
{
    1u64 << (i as u64)
}

/// The square `i` alone.
pub fn index_mask(i: usize) -> (r: u64)
    requires
        i < 64,
    ensures
        r == spec_index_mask(i),
{
    1u64 << (i as u64)
}

/// All squares with a higher index than `i`.
pub open spec fn spec_above_mask(i: usize) -> u64
    recommends
        i < 64,
{
    if i >= 63 {
        0u64
    } else {
        0xffff_ffff_ffff_ffffu64 << ((i + 1) as u64)
    }
}

/// All squares with a higher index than `i`.
pub fn above_mask(i: usize) -> (r: u64)
    requires
        i < 64,
    ensures
        r == spec_above_mask(i),
{
    if i >= 63 {
        0u64
    } else {
        0xffff_ffff_ffff_ffffu64 << ((i + 1) as u64)
    }
}

/// All squares with a lower index than `i`.
pub open spec fn spec_below_mask(i: usize) -> u64
    recommends
        i < 64,
{
    !(0xffff_ffff_ffff_ffffu64 << (i as u64))
}

/// All squares with a lower index than `i`.
pub fn below_mask(i: usize) -> (r: u64)
    requires
        i < 64,
    ensures
        r == spec_below_mask(i),
{
    !(0xffff_ffff_ffff_ffffu64 << (i as u64))
}

/// All squares on ranks above that of `i`.
pub open spec fn spec_ranks_above_mask(i: usize) -> u64
    recommends
        i < 64,
{
    if i / 8 >= 7 {
        0u64
    } else {
        0xffff_ffff_ffff_ffffu64 << ((8 * (i / 8) + 8) as u64)
    }
}

/// All squares on ranks above that of `i`.
pub fn ranks_above_mask(i: usize) -> (r: u64)
    requires
        i < 64,
    ensures
        r == spec_ranks_above_mask(i),
{
    if i / 8 >= 7 {
        0u64
    } else {
        0xffff_ffff_ffff_ffffu64 << ((8 * (i / 8) + 8) as u64)
    }
}

/// All squares on ranks below that of `i`.
pub open spec fn spec_ranks_below_mask(i: usize) -> u64
    recommends
        i < 64,
{
    !(0xffff_ffff_ffff_ffffu64 << ((8 * (i / 8)) as u64))
}

/// All squares on ranks below that of `i`.
pub fn ranks_below_mask(i: usize) -> (r: u64)
    requires
        i < 64,
    ensures
        r == spec_ranks_below_mask(i),
{
    !(0xffff_ffff_ffff_ffffu64 << ((8 * (i / 8)) as u64))
}

/// The diagonal through `i` that runs from lower left to upper right.
pub open spec fn spec_diag_mask(i: usize) -> u64
    recommends
        i < 64,
{
    if i % 8 >= i / 8 {
        0x8040201008040201u64 >> ((8 * (i % 8 - i / 8)) as u64)
    } else {
        0x8040201008040201u64 << ((8 * (i / 8 - i % 8)) as u64)
    }
}

/// The diagonal through `i` that runs from lower left to upper right.
pub fn diag_mask(i: usize) -> (r: u64)
    requires
        i < 64,
    ensures
        r == spec_diag_mask(i),
{
    if i % 8 >= i / 8 {
        0x8040201008040201u64 >> ((8 * (i % 8 - i / 8)) as u64)
    } else {
        0x8040201008040201u64 << ((8 * (i / 8 - i % 8)) as u64)
    }
}

/// The diagonal through `i` that runs from lower right to upper left.
pub open spec fn spec_anti_diag_mask(i: usize) -> u64
    recommends
        i < 64,
{
    if i % 8 + i / 8 <= 7 {
        0x0102040810204080u64 >> ((8 * (7 - (i % 8 + i / 8))) as u64)
    } else {
        0x0102040810204080u64 << ((8 * (i % 8 + i / 8 - 7)) as u64)
    }
}

/// The diagonal through `i` that runs from lower right to upper left.
pub fn anti_diag_mask(i: usize) -> (r: u64)
    requires
        i < 64,
    ensures
        r == spec_anti_diag_mask(i),
{
    if i % 8 + i / 8 <= 7 {
        0x0102040810204080u64 >> ((8 * (7 - (i % 8 + i / 8))) as u64)
    } else {
        0x0102040810204080u64 << ((8 * (i % 8 + i / 8 - 7)) as u64)
    }
}

/// All squares on the files next to that of `i`.
pub open spec fn spec_adj_files_mask(i: usize) -> u64
    recommends
        i < 64,
{
    (if i % 8 > 0 {
        0x0101010101010101u64 << ((i % 8 - 1) as u64)
    } else {
        0u64
    }) | (if i % 8 < 7 {
        0x0101010101010101u64 << ((i % 8 + 1) as u64)
    } else {
        0u64
    })
}

/// All squares on the files next to that of `i`.
pub fn adj_files_mask(i: usize) -> (r: u64)
    requires
        i < 64,
    ensures
        r == spec_adj_files_mask(i),
{
    (if i % 8 > 0 {
        0x0101010101010101u64 << ((i % 8 - 1) as u64)
    } else {
        0u64
    }) | (if i % 8 < 7 {
        0x0101010101010101u64 << ((i % 8 + 1) as u64)
    } else {
        0u64
    })
}

/// All squares on the files two files away from that of `i`.
pub open spec fn spec_far_files_mask(i: usize) -> u64
    recommends
        i < 64,
{
    (if i % 8 > 1 {
        0x0101010101010101u64 << ((i % 8 - 2) as u64)
    } else {
        0u64
    }) | (if i % 8 < 6 {
        0x0101010101010101u64 << ((i % 8 + 2) as u64)
    } else {
        0u64
    })
}

/// All squares on the files two files away from that of `i`.
pub fn far_files_mask(i: usize) -> (r: u64)
    requires
        i < 64,
    ensures
        r == spec_far_files_mask(i),
{
    (if i % 8 > 1 {
        0x0101010101010101u64 << ((i % 8 - 2) as u64)
    } else {
        0u64
    }) | (if i % 8 < 6 {
        0x0101010101010101u64 << ((i % 8 + 2) as u64)
    } else {
        0u64
    })
}

/// The rank `n` ranks above that of `i`; empty where that is off the board.
pub open spec fn spec_rank_up_mask(i: usize, n: usize) -> u64
    recommends
        i < 64 && n <= 7,
{
    if i / 8 + n <= 7 {
        0xffu64 << ((8 * (i / 8 + n)) as u64)
    } else {
        0u64
    }
}

/// The rank `n` ranks above that of `i`; empty where that is off the board.
pub fn rank_up_mask(i: usize, n: usize) -> (r: u64)
    requires
        i < 64 && n <= 7,
    ensures
        r == spec_rank_up_mask(i, n),
{
    if i / 8 + n <= 7 {
        0xffu64 << ((8 * (i / 8 + n)) as u64)
    } else {
        0u64
    }
}

/// The rank `n` ranks below that of `i`; empty where that is off the board.
pub open spec fn spec_rank_down_mask(i: usize, n: usize) -> u64
    recommends
        i < 64 && n <= 7,
{
    if i / 8 >= n {
        0xffu64 << ((8 * (i / 8 - n)) as u64)
    } else {
        0u64
    }
}

/// The rank `n` ranks below that of `i`; empty where that is off the board.
pub fn rank_down_mask(i: usize, n: usize) -> (r: u64)
    requires
        i < 64 && n <= 7,
    ensures
        r == spec_rank_down_mask(i, n),
{
    if i / 8 >= n {
        0xffu64 << ((8 * (i / 8 - n)) as u64)
    } else {
        0u64
    }
}

/// Squares straight above `i`.
pub open spec fn spec_up_attack(i: usize) -> u64
    recommends
        i < 64,
{
    spec_file_mask(i) & spec_above_mask(i)
}

/// Squares straight above `i`.
pub fn up_attack(i: usize) -> (r: u64)
    requires
        i < 64,
    ensures
        r == spec_up_attack(i),
{
    file_mask(i) & above_mask(i)
}

/// Squares straight below `i`.
pub open spec fn spec_down_attack(i: usize) -> u64
    recommends
        i < 64,
{
    spec_file_mask(i) & spec_below_mask(i)
}

/// Squares straight below `i`.
pub fn down_attack(i: usize) -> (r: u64)
    requires
        i < 64,
    ensures
        r == spec_down_attack(i),
{
    file_mask(i) & below_mask(i)
}

/// Squares to the right of `i` on its rank.
pub open spec fn spec_right_attack(i: usize) -> u64
    recommends
        i < 64,
{
    spec_rank_mask(i) & spec_above_mask(i)
}

/// Squares to the right of `i` on its rank.
pub fn right_attack(i: usize) -> (r: u64)
    requires
        i < 64,
    ensures
        r == spec_right_attack(i),
{
    rank_mask(i) & above_mask(i)
}

/// Squares to the left of `i` on its rank.
pub open spec fn spec_left_attack(i: usize) -> u64
    recommends
        i < 64,
{
    spec_rank_mask(i) & spec_below_mask(i)
}

/// Squares to the left of `i` on its rank.
pub fn left_attack(i: usize) -> (r: u64)
    requires
        i < 64,
    ensures
        r == spec_left_attack(i),
{
    rank_mask(i) & below_mask(i)
}

/// Squares diagonally up and right of `i`.
pub open spec fn spec_up_right_attack(i: usize) -> u64
    recommends
        i < 64,
{
    spec_diag_mask(i) & spec_above_mask(i)
}

/// Squares diagonally up and right of `i`.
pub fn up_right_attack(i: usize) -> (r: u64)
    requires
        i < 64,
    ensures
        r == spec_up_right_attack(i),
{
    diag_mask(i) & above_mask(i)
}

/// Squares diagonally down and left of `i`.
pub open spec fn spec_down_left_attack(i: usize) -> u64
    recommends
        i < 64,
{
    spec_diag_mask(i) & spec_below_mask(i)
}

/// Squares diagonally down and left of `i`.
pub fn down_left_attack(i: usize) -> (r: u64)
    requires
        i < 64,
    ensures
        r == spec_down_left_attack(i),
{
    diag_mask(i) & below_mask(i)
}

/// Squares diagonally up and left of `i`.
pub open spec fn spec_up_left_attack(i: usize) -> u64
    recommends
        i < 64,
{
    spec_anti_diag_mask(i) & spec_above_mask(i)
}

/// Squares diagonally up and left of `i`.
pub fn up_left_attack(i: usize) -> (r: u64)
    requires
        i < 64,
    ensures
        r == spec_up_left_attack(i),
{
    anti_diag_mask(i) & above_mask(i)
}

/// Squares diagonally down and right of `i`.
pub open spec fn spec_down_right_attack(i: usize) -> u64
    recommends
        i < 64,
{
    spec_anti_diag_mask(i) & spec_below_mask(i)
}

/// Squares diagonally down and right of `i`.
pub fn down_right_attack(i: usize) -> (r: u64)
    requires
        i < 64,
    ensures
        r == spec_down_right_attack(i),
{
    anti_diag_mask(i) & below_mask(i)
}

/// Squares ahead of a white pawn on `i`, on its own file and the two next to it.
pub open spec fn spec_wp_forward(i: usize) -> u64
    recommends
        i < 64,
{
    (spec_file_mask(i) | spec_adj_files_mask(i)) & spec_ranks_above_mask(i)
}

/// Squares ahead of a white pawn on `i`, on its own file and the two next to it.
pub fn wp_forward(i: usize) -> (r: u64)
    requires
        i < 64,
    ensures
        r == spec_wp_forward(i),
{
    (file_mask(i) | adj_files_mask(i)) & ranks_above_mask(i)
}

/// Squares ahead of a black pawn on `i`, on its own file and the two next to it.
pub open spec fn spec_bp_forward(i: usize) -> u64
    recommends
        i < 64,
{
    (spec_file_mask(i) | spec_adj_files_mask(i)) & spec_ranks_below_mask(i)
}

/// Squares ahead of a black pawn on `i`, on its own file and the two next to it.
pub fn bp_forward(i: usize) -> (r: u64)
    requires
        i < 64,
    ensures
        r == spec_bp_forward(i),
{
    (file_mask(i) | adj_files_mask(i)) & ranks_below_mask(i)
}

/// Squares beside and behind a white pawn on `i`, on the two files next to it.
pub open spec fn spec_wp_behind(i: usize) -> u64
    recommends
        i < 64,
{
    spec_adj_files_mask(i) & !spec_ranks_above_mask(i)
}

/// Squares beside and behind a white pawn on `i`, on the two files next to it.
pub fn wp_behind(i: usize) -> (r: u64)
    requires
        i < 64,
    ensures
        r == spec_wp_behind(i),
{
    adj_files_mask(i) & !ranks_above_mask(i)
}

/// Squares beside and behind a black pawn on `i`, on the two files next to it.
pub open spec fn spec_bp_behind(i: usize) -> u64
    recommends
        i < 64,
{
    spec_adj_files_mask(i) & !spec_ranks_below_mask(i)
}

/// Squares beside and behind a black pawn on `i`, on the two files next to it.
pub fn bp_behind(i: usize) -> (r: u64)
    requires
        i < 64,
    ensures
        r == spec_bp_behind(i),
{
    adj_files_mask(i) & !ranks_below_mask(i)
}

/// Squares that a white pawn on `i` attacks.
pub open spec fn spec_wp_attack(i: usize) -> u64
    recommends
        i < 64,
{
    spec_adj_files_mask(i) & spec_rank_up_mask(i, 1)
}

/// Squares that a white pawn on `i` attacks.
pub fn wp_attack(i: usize) -> (r: u64)
    requires
        i < 64,
    ensures
        r == spec_wp_attack(i),
{
    adj_files_mask(i) & rank_up_mask(i, 1)
}

/// Squares that a black pawn on `i` attacks.
pub open spec fn spec_bp_attack(i: usize) -> u64
    recommends
        i < 64,
{
    spec_adj_files_mask(i) & spec_rank_down_mask(i, 1)
}

/// Squares that a black pawn on `i` attacks.
pub fn bp_attack(i: usize) -> (r: u64)
    requires
        i < 64,
    ensures
        r == spec_bp_attack(i),
{
    adj_files_mask(i) & rank_down_mask(i, 1)
}

/// The three squares two ranks ahead of a white pawn on `i`; a king of its own on one of them escorts it home.
pub open spec fn spec_wp_front_control(i: usize) -> u64
    recommends
        i < 64,
{
    (spec_file_mask(i) | spec_adj_files_mask(i)) & spec_rank_up_mask(i, 2)
}

/// The three squares two ranks ahead of a white pawn on `i`; a king of its own on one of them escorts it home.
pub fn wp_front_control(i: usize) -> (r: u64)
    requires
        i < 64,
    ensures
        r == spec_wp_front_control(i),
{
    (file_mask(i) | adj_files_mask(i)) & rank_up_mask(i, 2)
}

/// The three squares two ranks ahead of a black pawn on `i`; a king of its own on one of them escorts it home.
pub open spec fn spec_bp_front_control(i: usize) -> u64
    recommends
        i < 64,
{
    (spec_file_mask(i) | spec_adj_files_mask(i)) & spec_rank_down_mask(i, 2)
}

/// The three squares two ranks ahead of a black pawn on `i`; a king of its own on one of them escorts it home.
pub fn bp_front_control(i: usize) -> (r: u64)
    requires
        i < 64,
    ensures
        r == spec_bp_front_control(i),
{
    (file_mask(i) | adj_files_mask(i)) & rank_down_mask(i, 2)
}

/// Squares next to `i`.
pub open spec fn spec_k_attack(i: usize) -> u64
    recommends
        i < 64,
{
    (spec_file_mask(i) | spec_adj_files_mask(i)) & (spec_rank_mask(i) | spec_rank_up_mask(i, 1) | spec_rank_down_mask(i, 1)) & !spec_index_mask(i)
}

/// Squares next to `i`.
pub fn k_attack(i: usize) -> (r: u64)
    requires
        i < 64,
    ensures
        r == spec_k_attack(i),
{
    (file_mask(i) | adj_files_mask(i)) & (rank_mask(i) | rank_up_mask(i, 1) | rank_down_mask(i, 1)) & !index_mask(i)
}

/// Squares a knight's move away from `i`.
pub open spec fn spec_n_attack(i: usize) -> u64
    recommends
        i < 64,
{
    (spec_adj_files_mask(i) & (spec_rank_up_mask(i, 2) | spec_rank_down_mask(i, 2))) | (spec_far_files_mask(i) & (spec_rank_up_mask(i, 1) | spec_rank_down_mask(i, 1)))
}

/// Squares a knight's move away from `i`.
pub fn n_attack(i: usize) -> (r: u64)
    requires
        i < 64,
    ensures
        r == spec_n_attack(i),
{
    (adj_files_mask(i) & (rank_up_mask(i, 2) | rank_down_mask(i, 2))) | (far_files_mask(i) & (rank_up_mask(i, 1) | rank_down_mask(i, 1)))
}

/// The mask tables, one entry per square.
pub struct BitMask {
    pub index_masks: [u64; 64],
    pub file_masks: [u64; 64],
    pub rank_masks: [u64; 64],
    pub up_attack_masks: [u64; 64],
    pub down_attack_masks: [u64; 64],
    pub right_attack_masks: [u64; 64],
    pub left_attack_masks: [u64; 64],
    pub up_right_attack_masks: [u64; 64],
    pub down_left_attack_masks: [u64; 64],
    pub up_left_attack_masks: [u64; 64],
    pub down_right_attack_masks: [u64; 64],
    pub wp_forward_masks: [u64; 64],
    pub bp_forward_masks: [u64; 64],
    pub wp_behind_masks: [u64; 64],
    pub bp_behind_masks: [u64; 64],
    pub wp_attack_masks: [u64; 64],
    pub bp_attack_masks: [u64; 64],
    pub k_attack_masks: [u64; 64],
    pub n_attack_masks: [u64; 64],
    pub wp_front_control_sqr_masks: [u64; 64],
    pub bp_front_control_sqr_masks: [u64; 64],
}

impl BitMask {
    /// Every table holds, for each square, the mask that its closed form
    /// gives.
    pub open spec fn wf(&self) -> bool {
        &&& forall|i: int| 0 <= i < 64 ==> #[trigger] self.index_masks[i] == spec_index_mask(i as usize)
        &&& forall|i: int| 0 <= i < 64 ==> #[trigger] self.file_masks[i] == spec_file_mask(i as usize)
        &&& forall|i: int| 0 <= i < 64 ==> #[trigger] self.rank_masks[i] == spec_rank_mask(i as usize)
        &&& forall|i: int| 0 <= i < 64 ==> #[trigger] self.up_attack_masks[i] == spec_up_attack(i as usize)
        &&& forall|i: int| 0 <= i < 64 ==> #[trigger] self.down_attack_masks[i] == spec_down_attack(i as usize)
        &&& forall|i: int| 0 <= i < 64 ==> #[trigger] self.right_attack_masks[i] == spec_right_attack(i as usize)
        &&& forall|i: int| 0 <= i < 64 ==> #[trigger] self.left_attack_masks[i] == spec_left_attack(i as usize)
        &&& forall|i: int| 0 <= i < 64 ==> #[trigger] self.up_right_attack_masks[i] == spec_up_right_attack(i as usize)
        &&& forall|i: int| 0 <= i < 64 ==> #[trigger] self.down_left_attack_masks[i] == spec_down_left_attack(i as usize)
        &&& forall|i: int| 0 <= i < 64 ==> #[trigger] self.up_left_attack_masks[i] == spec_up_left_attack(i as usize)
        &&& forall|i: int| 0 <= i < 64 ==> #[trigger] self.down_right_attack_masks[i] == spec_down_right_attack(i as usize)
        &&& forall|i: int| 0 <= i < 64 ==> #[trigger] self.wp_forward_masks[i] == spec_wp_forward(i as usize)
        &&& forall|i: int| 0 <= i < 64 ==> #[trigger] self.bp_forward_masks[i] == spec_bp_forward(i as usize)
        &&& forall|i: int| 0 <= i < 64 ==> #[trigger] self.wp_behind_masks[i] == spec_wp_behind(i as usize)
        &&& forall|i: int| 0 <= i < 64 ==> #[trigger] self.bp_behind_masks[i] == spec_bp_behind(i as usize)
        &&& forall|i: int| 0 <= i < 64 ==> #[trigger] self.wp_attack_masks[i] == spec_wp_attack(i as usize)
        &&& forall|i: int| 0 <= i < 64 ==> #[trigger] self.bp_attack_masks[i] == spec_bp_attack(i as usize)
        &&& forall|i: int| 0 <= i < 64 ==> #[trigger] self.k_attack_masks[i] == spec_k_attack(i as usize)
        &&& forall|i: int| 0 <= i < 64 ==> #[trigger] self.n_attack_masks[i] == spec_n_attack(i as usize)
        &&& forall|i: int| 0 <= i < 64 ==> #[trigger] self.wp_front_control_sqr_masks[i] == spec_wp_front_control(i as usize)
        &&& forall|i: int| 0 <= i < 64 ==> #[trigger] self.bp_front_control_sqr_masks[i] == spec_bp_front_control(i as usize)
    }

    /// Builds the tables.
    pub fn new() -> (r: BitMask)
        ensures
            r.wf(),
    {
        let mut m = BitMask {
            index_masks: [0u64; 64],
            file_masks: [0u64; 64],
            rank_masks: [0u64; 64],
            up_attack_masks: [0u64; 64],
            down_attack_masks: [0u64; 64],
            right_attack_masks: [0u64; 64],
            left_attack_masks: [0u64; 64],
            up_right_attack_masks: [0u64; 64],
            down_left_attack_masks: [0u64; 64],
            up_left_attack_masks: [0u64; 64],
            down_right_attack_masks: [0u64; 64],
            wp_forward_masks: [0u64; 64],
            bp_forward_masks: [0u64; 64],
            wp_behind_masks: [0u64; 64],
            bp_behind_masks: [0u64; 64],
            wp_attack_masks: [0u64; 64],
            bp_attack_masks: [0u64; 64],
            k_attack_masks: [0u64; 64],
            n_attack_masks: [0u64; 64],
            wp_front_control_sqr_masks: [0u64; 64],
            bp_front_control_sqr_masks: [0u64; 64],
        };
        let mut i: usize = 0;
        while i < 64
            invariant
                i <= 64,
                forall|j: int| 0 <= j < i ==> #[trigger] m.index_masks[j] == spec_index_mask(j as usize),
                forall|j: int| 0 <= j < i ==> #[trigger] m.file_masks[j] == spec_file_mask(j as usize),
                forall|j: int| 0 <= j < i ==> #[trigger] m.rank_masks[j] == spec_rank_mask(j as usize),
                forall|j: int| 0 <= j < i ==> #[trigger] m.up_attack_masks[j] == spec_up_attack(j as usize),
                forall|j: int| 0 <= j < i ==> #[trigger] m.down_attack_masks[j] == spec_down_attack(j as usize),
                forall|j: int| 0 <= j < i ==> #[trigger] m.right_attack_masks[j] == spec_right_attack(j as usize),
                forall|j: int| 0 <= j < i ==> #[trigger] m.left_attack_masks[j] == spec_left_attack(j as usize),
                forall|j: int| 0 <= j < i ==> #[trigger] m.up_right_attack_masks[j] == spec_up_right_attack(j as usize),
                forall|j: int| 0 <= j < i ==> #[trigger] m.down_left_attack_masks[j] == spec_down_left_attack(j as usize),
                forall|j: int| 0 <= j < i ==> #[trigger] m.up_left_attack_masks[j] == spec_up_left_attack(j as usize),
                forall|j: int| 0 <= j < i ==> #[trigger] m.down_right_attack_masks[j] == spec_down_right_attack(j as usize),
                forall|j: int| 0 <= j < i ==> #[trigger] m.wp_forward_masks[j] == spec_wp_forward(j as usize),
                forall|j: int| 0 <= j < i ==> #[trigger] m.bp_forward_masks[j] == spec_bp_forward(j as usize),
                forall|j: int| 0 <= j < i ==> #[trigger] m.wp_behind_masks[j] == spec_wp_behind(j as usize),
                forall|j: int| 0 <= j < i ==> #[trigger] m.bp_behind_masks[j] == spec_bp_behind(j as usize),
                forall|j: int| 0 <= j < i ==> #[trigger] m.wp_attack_masks[j] == spec_wp_attack(j as usize),
                forall|j: int| 0 <= j < i ==> #[trigger] m.bp_attack_masks[j] == spec_bp_attack(j as usize),
                forall|j: int| 0 <= j < i ==> #[trigger] m.k_attack_masks[j] == spec_k_attack(j as usize),
                forall|j: int| 0 <= j < i ==> #[trigger] m.n_attack_masks[j] == spec_n_attack(j as usize),
                forall|j: int| 0 <= j < i ==> #[trigger] m.wp_front_control_sqr_masks[j] == spec_wp_front_control(j as usize),
                forall|j: int| 0 <= j < i ==> #[trigger] m.bp_front_control_sqr_masks[j] == spec_bp_front_control(j as usize),
            decreases 64 - i,
        {
            m.index_masks[i] = index_mask(i);
            m.file_masks[i] = file_mask(i);
            m.rank_masks[i] = rank_mask(i);
            m.up_attack_masks[i] = up_attack(i);
            m.down_attack_masks[i] = down_attack(i);
            m.right_attack_masks[i] = right_attack(i);
            m.left_attack_masks[i] = left_attack(i);
            m.up_right_attack_masks[i] = up_right_attack(i);
            m.down_left_attack_masks[i] = down_left_attack(i);
            m.up_left_attack_masks[i] = up_left_attack(i);
            m.down_right_attack_masks[i] = down_right_attack(i);
            m.wp_forward_masks[i] = wp_forward(i);
            m.bp_forward_masks[i] = bp_forward(i);
            m.wp_behind_masks[i] = wp_behind(i);
            m.bp_behind_masks[i] = bp_behind(i);
            m.wp_attack_masks[i] = wp_attack(i);
            m.bp_attack_masks[i] = bp_attack(i);
            m.k_attack_masks[i] = k_attack(i);
            m.n_attack_masks[i] = n_attack(i);
            m.wp_front_control_sqr_masks[i] = wp_front_control(i);
            m.bp_front_control_sqr_masks[i] = bp_front_control(i);
            i += 1;
        }
        m
    }
}

} // verus!
