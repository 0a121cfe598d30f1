//! Position evaluation: material, and a positional score blended between a
//! midgame and an endgame weighting by how much material is left.
//!
//! Every feature is a count or a sum over the squares of the board, so the
//! features of a position are the sum of what each piece contributes on its
//! square, plus a few terms that are read off the boards as a whole.

use vstd::prelude::*;
use crate::bitboard::{BitBoard, BitMask};
use crate::bits::{count, spec_count_ones};
use crate::def;
use crate::mov_table::{bishop_attacks, rook_attacks, spec_bishop_attacks, spec_rook_attacks};
use crate::state::{Position, State};

verus! {

pub const MATE_VAL: i32 = 20000;

/// A score beyond this, in either direction, says that a mate was found.
pub const TERM_VAL: i32 = 10000;

pub const Q_VAL: i32 = 1000;

pub const R_VAL: i32 = 525;

pub const B_VAL: i32 = 350;

pub const N_VAL: i32 = 340;

pub const P_VAL: i32 = 100;

pub const KING_EXPOSED_PEN: i32 = -50;

pub const KING_THREAT_BASE_PEN: i32 = -30;

pub const KING_PAWN_THREAT_BASE_PEN: i32 = -30;

pub const KING_LOST_CAS_RIGHTS_PEN: i32 = -50;

pub const PASS_PAWN_BASE_VAL: i32 = 30;

pub const PASS_PAWN_RANK_VAL: i32 = 20;

pub const UNSTOPPABLE_PASS_PAWN_VAL: i32 = 200;

pub const CONTROLLED_PASS_PAWN_VAL: i32 = 30;

pub const DUP_PAWN_PEN: i32 = -20;

pub const ISOLATE_PAWN_PEN: i32 = -20;

pub const BEHIND_PAWN_PEN: i32 = -10;

pub const ROOK_SEMI_OPEN_LINE_VAL: i32 = 20;

pub const ROOK_OPEN_LINE_VAL: i32 = 25;

pub const QUEEN_OPEN_LINE_VAL: i32 = 20;

pub const THREATENED_PIECE_PEN: i32 = -30;

pub const DEFENDED_PIECE_VAL: i32 = 15;

pub const DEFENDED_PAWN_VAL: i32 = 10;

pub const MIDGAME_MOB_BASE_VAL: i32 = 2;

pub const ENDGAME_MOB_BASE_VAL: i32 = 2;

pub const ENDGAME_ROOK_EXTRA_VAL: i32 = 30;

pub const ENDGAME_QUEEN_EXTRA_VAL: i32 = 30;

pub const TRAPPED_Q_PEN: i32 = -90;

pub const TRAPPED_R_PEN: i32 = -80;

pub const TRAPPED_B_PEN: i32 = -60;

pub const TRAPPED_N_PEN: i32 = -60;

pub const BLOCKED_Q_PEN: i32 = -30;

pub const BLOCKED_R_PEN: i32 = -30;

pub const BLOCKED_B_PEN: i32 = -30;

pub const BLOCKED_N_PEN: i32 = -30;

pub const TOTAL_PHASE: i32 = 96;

pub const Q_PHASE_WEIGHT: i32 = 16;

pub const R_PHASE_WEIGHT: i32 = 8;

pub const B_PHASE_WEIGHT: i32 = 4;

pub const N_PHASE_WEIGHT: i32 = 4;

/// At or below this phase the game counts as an endgame.
pub const ENDGAME_PHASE: i32 = 16;

/// What the player to move gets for having the move. It is added to the
/// score of either player, so it is the one term that does not change sign
/// with the player.
pub const TEMPO_VAL: i32 = 10;

/// The second and third rank, where pawns shelter a white king.
pub const WK_PAWN_COVER_MASK: u64 = 0x0000_0000_00ff_ff00;

/// The seventh and sixth rank, where pawns shelter a black king.
pub const BK_PAWN_COVER_MASK: u64 = 0x00ff_ff00_0000_0000;

/// No material score is beyond this: 64 pieces of each of the five kinds.
pub const MATERIAL_LIMIT: i32 = 148160;

/// No feature count is beyond this.
pub const FEATURE_LIMIT: i32 = 3400;

/// No positional score is beyond this.
pub const POSITIONAL_LIMIT: i32 = 400000000;

/// `eval_state` takes a material score up to this.
pub const MATERIAL_INPUT_LIMIT: i32 = 1000000000;

/// Worth of each square to a white pawn; a black one reads the table
/// from the other side of the board.
pub const SQR_TABLE_P: [i32; 64] = [
    0, 0, 0, 0, 0, 0, 0, 0,
    5, 10, 10, -20, -20, 10, 10, 5,
    5, -5, -10, 0, 0, -10, -5, 5,
    0, 0, 0, 20, 20, 0, 0, 0,
    5, 5, 10, 25, 25, 10, 5, 5,
    10, 20, 20, 30, 30, 20, 20, 10,
    50, 50, 50, 50, 50, 50, 50, 50,
    0, 0, 0, 0, 0, 0, 0, 0,
];

/// Worth of each square to a white pawn in the endgame; a black one reads the table
/// from the other side of the board.
pub const SQR_TABLE_P_ENDGAME: [i32; 64] = [
    0, 0, 0, 0, 0, 0, 0, 0,
    0, 0, 0, 0, 0, 0, 0, 0,
    0, 0, 0, 0, 0, 0, 0, 0,
    5, 10, 10, 10, 10, 10, 10, 5,
    10, 15, 15, 15, 15, 15, 15, 10,
    15, 20, 20, 20, 20, 20, 20, 15,
    20, 30, 30, 30, 30, 30, 30, 20,
    0, 0, 0, 0, 0, 0, 0, 0,
];

/// Worth of each square to a white knight; a black one reads the table
/// from the other side of the board.
pub const SQR_TABLE_N: [i32; 64] = [
    -30, -20, -20, -20, -20, -20, -20, -30,
    -20, -20, 0, 0, 0, 0, -20, -20,
    -20, 5, 10, 15, 15, 10, 5, -20,
    -20, 0, 15, 20, 20, 15, 0, -20,
    -20, 5, 15, 20, 20, 15, 5, -20,
    -20, 0, 10, 15, 15, 10, 0, -20,
    -20, -20, 0, 0, 0, 0, -20, -20,
    -30, -20, -20, -20, -20, -20, -20, -30,
];

/// Worth of each square to a white bishop; a black one reads the table
/// from the other side of the board.
pub const SQR_TABLE_B: [i32; 64] = [
    -20, -10, -10, -10, -10, -10, -10, -20,
    -10, 5, 0, 0, 0, 0, 5, -10,
    -10, 10, 10, 5, 5, 10, 10, -10,
    -10, 0, 10, 10, 10, 10, 0, -10,
    -10, 5, 5, 10, 10, 5, 5, -10,
    -10, 0, 5, 10, 10, 5, 0, -10,
    -20, 0, 10, 0, 0, 10, 0, -20,
    -20, -10, -10, -10, -10, -10, -10, -20,
];

/// Worth of each square to a white rook; a black one reads the table
/// from the other side of the board.
pub const SQR_TABLE_R: [i32; 64] = [
    0, 0, 0, 0, 0, 0, 0, 0,
    -10, -5, 0, 0, 0, 0, -5, -10,
    -5, 0, 0, 0, 0, 0, 0, -5,
    -5, 0, 0, 0, 0, 0, 0, -5,
    -5, 0, 0, 0, 0, 0, 0, -5,
    -5, 0, 0, 0, 0, 0, 0, -5,
    10, 20, 30, 30, 30, 30, 20, 10,
    5, 10, 20, 20, 20, 20, 10, 5,
];

/// Worth of each square to a white queen; a black one reads the table
/// from the other side of the board.
pub const SQR_TABLE_Q: [i32; 64] = [
    -20, -10, -10, -5, -5, -10, -10, -20,
    -10, 0, 5, 0, 0, 0, 0, -10,
    -10, 5, 5, 5, 5, 5, 0, -10,
    0, 0, 5, 5, 5, 5, 0, -5,
    -5, 0, 5, 5, 5, 5, 0, -5,
    -10, 0, 5, 5, 5, 5, 0, -10,
    -10, 0, 0, 0, 0, 0, 0, -10,
    -20, -10, -10, -5, -5, -10, -10, -20,
];

/// Worth of each square to a white king; a black one reads the table
/// from the other side of the board.
pub const SQR_TABLE_K: [i32; 64] = [
    20, 30, 10, 0, 0, 10, 30, 20,
    20, 20, 0, 0, 0, 0, 20, 20,
    -10, -20, -20, -20, -20, -20, -20, -10,
    -20, -30, -30, -40, -40, -30, -30, -20,
    -30, -40, -40, -50, -50, -40, -40, -30,
    -30, -40, -40, -50, -50, -40, -40, -30,
    -30, -40, -40, -50, -50, -40, -40, -30,
    -30, -40, -40, -50, -50, -40, -40, -30,
];

/// Worth of each square to a white king in the endgame; a black one reads the table
/// from the other side of the board.
pub const SQR_TABLE_K_ENDGAME: [i32; 64] = [
    -50, -30, -30, -30, -30, -30, -30, -50,
    -30, -30, 0, 0, 0, 0, -30, -30,
    -30, -10, 20, 30, 30, 20, -10, -30,
    -30, -10, 30, 40, 40, 30, -10, -30,
    -30, -10, 30, 40, 40, 30, -10, -30,
    -30, -10, 20, 30, 30, 20, -10, -30,
    -30, -20, -10, 0, 0, -10, -20, -30,
    -50, -40, -30, -20, -20, -30, -40, -50,
];

/// What the evaluation counts for one player.
#[derive(PartialEq, Eq, Structural, Debug, Clone, Copy)]
pub struct FeatureMap {
    pub pawn_count: i32,
    pub queen_count: i32,
    pub rook_count: i32,
    pub bishop_count: i32,
    pub knight_count: i32,
    pub midgame_sqr_point_count: i32,
    pub endgame_sqr_point_count: i32,
    pub passed_pawn_count: i32,
    pub passed_pawn_rank_count: i32,
    pub unstoppable_passed_pawn_count: i32,
    pub controlled_passed_pawn_count: i32,
    pub dup_pawn_count: i32,
    pub isolate_pawn_count: i32,
    pub behind_pawn_count: i32,
    pub mobility: i32,
    pub trapped_knight_count: i32,
    pub trapped_bishop_count: i32,
    pub trapped_rook_count: i32,
    pub trapped_queen_count: i32,
    pub blocked_knight_count: i32,
    pub blocked_bishop_count: i32,
    pub blocked_rook_count: i32,
    pub blocked_queen_count: i32,
    pub semi_open_rook_count: i32,
    pub open_rook_count: i32,
    pub open_queen_count: i32,
    pub threatened_piece_count: i32,
    pub defended_piece_count: i32,
    pub defended_pawn_count: i32,
    pub king_exposed: i32,
    pub king_threat_count: i32,
    pub king_pawn_threat_count: i32,
    pub king_lost_cas_rights: i32,
}

/// The feature map with every count at 0.
pub open spec fn spec_empty_features() -> FeatureMap {
    FeatureMap {
        pawn_count: 0,
        queen_count: 0,
        rook_count: 0,
        bishop_count: 0,
        knight_count: 0,
        midgame_sqr_point_count: 0,
        endgame_sqr_point_count: 0,
        passed_pawn_count: 0,
        passed_pawn_rank_count: 0,
        unstoppable_passed_pawn_count: 0,
        controlled_passed_pawn_count: 0,
        dup_pawn_count: 0,
        isolate_pawn_count: 0,
        behind_pawn_count: 0,
        mobility: 0,
        trapped_knight_count: 0,
        trapped_bishop_count: 0,
        trapped_rook_count: 0,
        trapped_queen_count: 0,
        blocked_knight_count: 0,
        blocked_bishop_count: 0,
        blocked_rook_count: 0,
        blocked_queen_count: 0,
        semi_open_rook_count: 0,
        open_rook_count: 0,
        open_queen_count: 0,
        threatened_piece_count: 0,
        defended_piece_count: 0,
        defended_pawn_count: 0,
        king_exposed: 0,
        king_threat_count: 0,
        king_pawn_threat_count: 0,
        king_lost_cas_rights: 0,
    }
}

/// The feature map that adds two, count by count.
#[verifier::opaque]
pub open spec fn spec_add_features(a: FeatureMap, b: FeatureMap) -> FeatureMap {
    FeatureMap {
        pawn_count: (a.pawn_count + b.pawn_count) as i32,
        queen_count: (a.queen_count + b.queen_count) as i32,
        rook_count: (a.rook_count + b.rook_count) as i32,
        bishop_count: (a.bishop_count + b.bishop_count) as i32,
        knight_count: (a.knight_count + b.knight_count) as i32,
        midgame_sqr_point_count: (a.midgame_sqr_point_count + b.midgame_sqr_point_count) as i32,
        endgame_sqr_point_count: (a.endgame_sqr_point_count + b.endgame_sqr_point_count) as i32,
        passed_pawn_count: (a.passed_pawn_count + b.passed_pawn_count) as i32,
        passed_pawn_rank_count: (a.passed_pawn_rank_count + b.passed_pawn_rank_count) as i32,
        unstoppable_passed_pawn_count: (a.unstoppable_passed_pawn_count + b.unstoppable_passed_pawn_count) as i32,
        controlled_passed_pawn_count: (a.controlled_passed_pawn_count + b.controlled_passed_pawn_count) as i32,
        dup_pawn_count: (a.dup_pawn_count + b.dup_pawn_count) as i32,
        isolate_pawn_count: (a.isolate_pawn_count + b.isolate_pawn_count) as i32,
        behind_pawn_count: (a.behind_pawn_count + b.behind_pawn_count) as i32,
        mobility: (a.mobility + b.mobility) as i32,
        trapped_knight_count: (a.trapped_knight_count + b.trapped_knight_count) as i32,
        trapped_bishop_count: (a.trapped_bishop_count + b.trapped_bishop_count) as i32,
        trapped_rook_count: (a.trapped_rook_count + b.trapped_rook_count) as i32,
        trapped_queen_count: (a.trapped_queen_count + b.trapped_queen_count) as i32,
        blocked_knight_count: (a.blocked_knight_count + b.blocked_knight_count) as i32,
        blocked_bishop_count: (a.blocked_bishop_count + b.blocked_bishop_count) as i32,
        blocked_rook_count: (a.blocked_rook_count + b.blocked_rook_count) as i32,
        blocked_queen_count: (a.blocked_queen_count + b.blocked_queen_count) as i32,
        semi_open_rook_count: (a.semi_open_rook_count + b.semi_open_rook_count) as i32,
        open_rook_count: (a.open_rook_count + b.open_rook_count) as i32,
        open_queen_count: (a.open_queen_count + b.open_queen_count) as i32,
        threatened_piece_count: (a.threatened_piece_count + b.threatened_piece_count) as i32,
        defended_piece_count: (a.defended_piece_count + b.defended_piece_count) as i32,
        defended_pawn_count: (a.defended_pawn_count + b.defended_pawn_count) as i32,
        king_exposed: (a.king_exposed + b.king_exposed) as i32,
        king_threat_count: (a.king_threat_count + b.king_threat_count) as i32,
        king_pawn_threat_count: (a.king_pawn_threat_count + b.king_pawn_threat_count) as i32,
        king_lost_cas_rights: (a.king_lost_cas_rights + b.king_lost_cas_rights) as i32,
    }
}

/// Every count is between `-bound` and `bound`.
#[verifier::opaque]
pub open spec fn features_within(f: FeatureMap, bound: int) -> bool {
    &&& -bound <= f.pawn_count <= bound
    &&& -bound <= f.queen_count <= bound
    &&& -bound <= f.rook_count <= bound
    &&& -bound <= f.bishop_count <= bound
    &&& -bound <= f.knight_count <= bound
    &&& -bound <= f.midgame_sqr_point_count <= bound
    &&& -bound <= f.endgame_sqr_point_count <= bound
    &&& -bound <= f.passed_pawn_count <= bound
    &&& -bound <= f.passed_pawn_rank_count <= bound
    &&& -bound <= f.unstoppable_passed_pawn_count <= bound
    &&& -bound <= f.controlled_passed_pawn_count <= bound
    &&& -bound <= f.dup_pawn_count <= bound
    &&& -bound <= f.isolate_pawn_count <= bound
    &&& -bound <= f.behind_pawn_count <= bound
    &&& -bound <= f.mobility <= bound
    &&& -bound <= f.trapped_knight_count <= bound
    &&& -bound <= f.trapped_bishop_count <= bound
    &&& -bound <= f.trapped_rook_count <= bound
    &&& -bound <= f.trapped_queen_count <= bound
    &&& -bound <= f.blocked_knight_count <= bound
    &&& -bound <= f.blocked_bishop_count <= bound
    &&& -bound <= f.blocked_rook_count <= bound
    &&& -bound <= f.blocked_queen_count <= bound
    &&& -bound <= f.semi_open_rook_count <= bound
    &&& -bound <= f.open_rook_count <= bound
    &&& -bound <= f.open_queen_count <= bound
    &&& -bound <= f.threatened_piece_count <= bound
    &&& -bound <= f.defended_piece_count <= bound
    &&& -bound <= f.defended_pawn_count <= bound
    &&& -bound <= f.king_exposed <= bound
    &&& -bound <= f.king_threat_count <= bound
    &&& -bound <= f.king_pawn_threat_count <= bound
    &&& -bound <= f.king_lost_cas_rights <= bound
}

impl FeatureMap {
    /// The feature map with every count at 0.
    pub fn empty() -> (r: Self)
        ensures
            r == spec_empty_features(),
    {
        FeatureMap {
            pawn_count: 0,
            queen_count: 0,
            rook_count: 0,
            bishop_count: 0,
            knight_count: 0,
            midgame_sqr_point_count: 0,
            endgame_sqr_point_count: 0,
            passed_pawn_count: 0,
            passed_pawn_rank_count: 0,
            unstoppable_passed_pawn_count: 0,
            controlled_passed_pawn_count: 0,
            dup_pawn_count: 0,
            isolate_pawn_count: 0,
            behind_pawn_count: 0,
            mobility: 0,
            trapped_knight_count: 0,
            trapped_bishop_count: 0,
            trapped_rook_count: 0,
            trapped_queen_count: 0,
            blocked_knight_count: 0,
            blocked_bishop_count: 0,
            blocked_rook_count: 0,
            blocked_queen_count: 0,
            semi_open_rook_count: 0,
            open_rook_count: 0,
            open_queen_count: 0,
            threatened_piece_count: 0,
            defended_piece_count: 0,
            defended_pawn_count: 0,
            king_exposed: 0,
            king_threat_count: 0,
            king_pawn_threat_count: 0,
            king_lost_cas_rights: 0,
        }
    }

    /// Adds the counts of `other` to the counts of `self`.
    pub fn add(&self, other: &FeatureMap) -> (r: FeatureMap)
        requires
            features_within(*self, 1000000),
            features_within(*other, 1000000),
        ensures
            r == spec_add_features(*self, *other),
    {
        reveal(spec_add_features);
        reveal(features_within);
        FeatureMap {
            pawn_count: self.pawn_count + other.pawn_count,
            queen_count: self.queen_count + other.queen_count,
            rook_count: self.rook_count + other.rook_count,
            bishop_count: self.bishop_count + other.bishop_count,
            knight_count: self.knight_count + other.knight_count,
            midgame_sqr_point_count: self.midgame_sqr_point_count + other.midgame_sqr_point_count,
            endgame_sqr_point_count: self.endgame_sqr_point_count + other.endgame_sqr_point_count,
            passed_pawn_count: self.passed_pawn_count + other.passed_pawn_count,
            passed_pawn_rank_count: self.passed_pawn_rank_count + other.passed_pawn_rank_count,
            unstoppable_passed_pawn_count: self.unstoppable_passed_pawn_count + other.unstoppable_passed_pawn_count,
            controlled_passed_pawn_count: self.controlled_passed_pawn_count + other.controlled_passed_pawn_count,
            dup_pawn_count: self.dup_pawn_count + other.dup_pawn_count,
            isolate_pawn_count: self.isolate_pawn_count + other.isolate_pawn_count,
            behind_pawn_count: self.behind_pawn_count + other.behind_pawn_count,
            mobility: self.mobility + other.mobility,
            trapped_knight_count: self.trapped_knight_count + other.trapped_knight_count,
            trapped_bishop_count: self.trapped_bishop_count + other.trapped_bishop_count,
            trapped_rook_count: self.trapped_rook_count + other.trapped_rook_count,
            trapped_queen_count: self.trapped_queen_count + other.trapped_queen_count,
            blocked_knight_count: self.blocked_knight_count + other.blocked_knight_count,
            blocked_bishop_count: self.blocked_bishop_count + other.blocked_bishop_count,
            blocked_rook_count: self.blocked_rook_count + other.blocked_rook_count,
            blocked_queen_count: self.blocked_queen_count + other.blocked_queen_count,
            semi_open_rook_count: self.semi_open_rook_count + other.semi_open_rook_count,
            open_rook_count: self.open_rook_count + other.open_rook_count,
            open_queen_count: self.open_queen_count + other.open_queen_count,
            threatened_piece_count: self.threatened_piece_count + other.threatened_piece_count,
            defended_piece_count: self.defended_piece_count + other.defended_piece_count,
            defended_pawn_count: self.defended_pawn_count + other.defended_pawn_count,
            king_exposed: self.king_exposed + other.king_exposed,
            king_threat_count: self.king_threat_count + other.king_threat_count,
            king_pawn_threat_count: self.king_pawn_threat_count + other.king_pawn_threat_count,
            king_lost_cas_rights: self.king_lost_cas_rights + other.king_lost_cas_rights,
        }
    }
}

/// A sum of bounded feature maps is bounded by the sum of the bounds.
pub proof fn lemma_add_within(a: FeatureMap, b: FeatureMap, x: int, y: int)
    requires
        features_within(a, x),
        features_within(b, y),
        0 <= x,
        0 <= y,
        x + y <= 1000000,
    ensures
        features_within(spec_add_features(a, b), x + y),
{
    reveal(spec_add_features);
    reveal(features_within);
}

/// Bounds on the counts are bounds on any wider scale.
pub proof fn lemma_within_wider(f: FeatureMap, x: int, y: int)
    requires
        features_within(f, x),
        x <= y,
    ensures
        features_within(f, y),
{
    reveal(features_within);
}

/// The empty feature map is within every bound.
pub proof fn lemma_empty_within(x: int)
    requires
        0 <= x,
    ensures
        features_within(spec_empty_features(), x),
{
    reveal(features_within);
}

/// Material worth of a piece code; a king is worth a mate, anything that is
/// no piece nothing.
pub open spec fn spec_val_of(piece: u8) -> i32 {
    if piece == def::WK || piece == def::BK {
        MATE_VAL
    } else if piece == def::WQ || piece == def::BQ {
        Q_VAL
    } else if piece == def::WR || piece == def::BR {
        R_VAL
    } else if piece == def::WB || piece == def::BB {
        B_VAL
    } else if piece == def::WN || piece == def::BN {
        N_VAL
    } else if piece == def::WP || piece == def::BP {
        P_VAL
    } else {
        0
    }
}

/// Material worth of a piece code.
pub fn val_of(piece: u8) -> (r: i32)
    ensures
        r == spec_val_of(piece),
        0 <= r <= MATE_VAL,
{
    if piece == def::WK || piece == def::BK {
        MATE_VAL
    } else if piece == def::WQ || piece == def::BQ {
        Q_VAL
    } else if piece == def::WR || piece == def::BR {
        R_VAL
    } else if piece == def::WB || piece == def::BB {
        B_VAL
    } else if piece == def::WN || piece == def::BN {
        N_VAL
    } else if piece == def::WP || piece == def::BP {
        P_VAL
    } else {
        0
    }
}

/// Number of set bits as an `i32`.
pub open spec fn spec_pc(x: u64) -> i32 {
    spec_count_ones(x) as i32
}

/// 1 for `true`, 0 for `false`.
pub open spec fn spec_b2i(c: bool) -> i32 {
    if c {
        1
    } else {
        0
    }
}

fn b2i(c: bool) -> (r: i32)
    ensures
        r == spec_b2i(c),
{
    if c {
        1
    } else {
        0
    }
}

/// 1 for the player `def::PLAYER_W`, -1 for any other.
pub open spec fn spec_score_sign(player: u8) -> int {
    if player == def::PLAYER_W {
        1
    } else {
        -1
    }
}

/// Whether neither side has the material to force mate: no pawn, rook or
/// queen is left, and the minor pieces are level to within one, or one side
/// has only its king and the other at most two knights.
pub open spec fn spec_material_draw(b: BitBoard) -> bool {
    (b.w_pawn | b.b_pawn | b.w_queen | b.b_queen | b.w_rook | b.b_rook) == 0 && ({
        ||| -2 < spec_count_ones(b.w_bishop | b.w_knight) - spec_count_ones(
            b.b_bishop | b.b_knight,
        ) < 2
        ||| ((b.w_bishop | b.w_knight) == 0 && b.b_bishop == 0 && spec_count_ones(b.b_knight) < 3)
        ||| ((b.b_bishop | b.b_knight) == 0 && b.w_bishop == 0 && spec_count_ones(b.w_knight) < 3)
    })
}

/// White's material less black's.
pub open spec fn spec_material_balance(b: BitBoard) -> int {
    spec_count_ones(b.w_queen) * Q_VAL + spec_count_ones(b.w_rook) * R_VAL + spec_count_ones(
        b.w_bishop,
    ) * B_VAL + spec_count_ones(b.w_knight) * N_VAL + spec_count_ones(b.w_pawn) * P_VAL
        - spec_count_ones(b.b_queen) * Q_VAL - spec_count_ones(b.b_rook) * R_VAL
        - spec_count_ones(b.b_bishop) * B_VAL - spec_count_ones(b.b_knight) * N_VAL
        - spec_count_ones(b.b_pawn) * P_VAL
}

/// What `eval_materials` returns.
pub open spec fn spec_eval_materials(pos: Position) -> (int, bool) {
    if spec_material_draw(pos.bitboard) {
        (0, true)
    } else {
        (spec_material_balance(pos.bitboard) * spec_score_sign(pos.player), false)
    }
}

/// The material score from the point of view of the player to move, and
/// whether the material left makes the game a draw; the score is 0 then.
pub fn eval_materials(state: &State) -> (r: (i32, bool))
    ensures
        r.0 == spec_eval_materials(state.pos).0,
        r.1 == spec_eval_materials(state.pos).1,
        -MATERIAL_LIMIT <= r.0 <= MATERIAL_LIMIT,
{
    let b = state.pos.bitboard;
    if (b.w_pawn | b.b_pawn | b.w_queen | b.b_queen | b.w_rook | b.b_rook) == 0 {
        let minors: i32 = count(b.w_bishop | b.w_knight) - count(b.b_bishop | b.b_knight);
        if -2 < minors && minors < 2 {
            return (0, true);
        }
        if (b.w_bishop | b.w_knight) == 0 && b.b_bishop == 0 && count(b.b_knight) < 3 {
            return (0, true);
        }
        if (b.b_bishop | b.b_knight) == 0 && b.w_bishop == 0 && count(b.w_knight) < 3 {
            return (0, true);
        }
    }
    let white: i32 = count(b.w_queen) * Q_VAL + count(b.w_rook) * R_VAL + count(b.w_bishop)
        * B_VAL + count(b.w_knight) * N_VAL + count(b.w_pawn) * P_VAL;
    let black: i32 = count(b.b_queen) * Q_VAL + count(b.b_rook) * R_VAL + count(b.b_bishop)
        * B_VAL + count(b.b_knight) * N_VAL + count(b.b_pawn) * P_VAL;
    if state.pos.player == def::PLAYER_W {
        (white - black, false)
    } else {
        (black - white, false)
    }
}

/// How much material other than pawns is on the board, in phase units: 16
/// for a queen, 8 for a rook, 4 for a bishop or knight.
pub open spec fn spec_phase_weight(b: BitBoard) -> int {
    spec_count_ones(b.w_queen | b.b_queen) * Q_PHASE_WEIGHT + spec_count_ones(
        b.w_rook | b.b_rook,
    ) * R_PHASE_WEIGHT + spec_count_ones(b.w_bishop | b.b_bishop) * B_PHASE_WEIGHT
        + spec_count_ones(b.w_knight | b.b_knight) * N_PHASE_WEIGHT
}

/// A weight in phase units as a phase: no less than 0 and no more than
/// `TOTAL_PHASE`, which the start position has.
pub open spec fn spec_capped_phase(weight: int) -> int {
    if weight < 0 {
        0
    } else if weight > TOTAL_PHASE {
        TOTAL_PHASE as int
    } else {
        weight
    }
}

/// The game phase: the material other than pawns in phase units, up to
/// `TOTAL_PHASE`.
pub open spec fn spec_phase(b: BitBoard) -> int {
    spec_capped_phase(spec_phase_weight(b))
}

/// The game phase by the material on the board: 0 with no piece but kings
/// and pawns, `TOTAL_PHASE` with the pieces of the start position or more.
pub fn get_phase(state: &State) -> (r: i32)
    ensures
        r == spec_phase(state.pos.bitboard),
        0 <= r <= TOTAL_PHASE,
{
    let b = state.pos.bitboard;
    let weight: i32 = count(b.w_queen | b.b_queen) * Q_PHASE_WEIGHT + count(b.w_rook | b.b_rook)
        * R_PHASE_WEIGHT + count(b.w_bishop | b.b_bishop) * B_PHASE_WEIGHT + count(
        b.w_knight | b.b_knight,
    ) * N_PHASE_WEIGHT;
    if weight > TOTAL_PHASE {
        TOTAL_PHASE
    } else {
        weight
    }
}

/// The squares that the pieces of each kind of one player attack.
#[derive(PartialEq, Eq, Structural, Debug, Clone, Copy)]
pub struct Attacks {
    pub pawn: u64,
    pub knight: u64,
    pub bishop: u64,
    pub rook: u64,
    pub queen: u64,
}

/// One player as the evaluation sees it: its pieces, its king's square,
/// what it attacks, and whether it is to move.
#[derive(PartialEq, Eq, Structural, Debug, Clone, Copy)]
pub struct Side {
    pub white: bool,
    pub to_move: bool,
    pub all: u64,
    pub pawn: u64,
    pub knight: u64,
    pub bishop: u64,
    pub rook: u64,
    pub queen: u64,
    pub king: usize,
    /// Whether neither player has a knight, bishop, rook or queen.
    pub pawns_only: bool,
    pub attacks: Attacks,
}

/// The squares that hold a knight, bishop, rook or queen of either player.
pub open spec fn spec_piece_mask(b: BitBoard) -> u64 {
    b.w_knight | b.w_bishop | b.w_rook | b.w_queen | b.b_knight | b.b_bishop | b.b_rook
        | b.b_queen
}

/// The square that mirrors `i` across the middle of the board.
pub open spec fn spec_mirror(i: usize) -> usize {
    ((7 - i / 8) * 8 + i % 8) as usize
}

fn mirror(i: usize) -> (r: usize)
    requires
        i < 64,
    ensures
        r == spec_mirror(i),
        r < 64,
{
    (7 - i / 8) * 8 + i % 8
}

/// Worth of the square `i` to a piece of one player, by that piece's table.
pub open spec fn spec_sqr_val(table: [i32; 64], white: bool, i: usize) -> i32 {
    if white {
        table[i as int]
    } else {
        table[spec_mirror(i) as int]
    }
}

/// Worth of the square `i` to a piece of one player, by that piece's table.
fn sqr_val(table: &[i32; 64], white: bool, i: usize) -> (r: i32)
    requires
        i < 64,
    ensures
        r == spec_sqr_val(*table, white, i),
{
    if white {
        table[i]
    } else {
        table[mirror(i)]
    }
}

/// No square attacked.
pub open spec fn spec_no_attacks(white: bool) -> Attacks {
    Attacks { pawn: 0, knight: 0, bishop: 0, rook: 0, queen: 0 }
}

/// No square attacked.
fn no_attacks(white: bool) -> (r: Attacks)
    ensures
        r == spec_no_attacks(white),
{
    Attacks { pawn: 0, knight: 0, bishop: 0, rook: 0, queen: 0 }
}

/// What the piece on `i` attacks, if it is a pawn, knight, bishop, rook or queen of the colour asked for.
pub open spec fn spec_attacks_at(pos: Position, m: BitMask, white: bool, i: usize) -> Attacks {
    let piece = pos.squares[i as int];
    let occ = pos.bitboard.w_all | pos.bitboard.b_all;
    let none = spec_no_attacks(white);
    if piece == (if white { def::WP } else { def::BP }) {
        Attacks { pawn: if white { m.wp_attack_masks[i as int] } else { m.bp_attack_masks[i as int] }, ..none }
    } else if piece == (if white { def::WN } else { def::BN }) {
        Attacks { knight: m.n_attack_masks[i as int], ..none }
    } else if piece == (if white { def::WB } else { def::BB }) {
        Attacks { bishop: spec_bishop_attacks(m, i, occ), ..none }
    } else if piece == (if white { def::WR } else { def::BR }) {
        Attacks { rook: spec_rook_attacks(m, i, occ), ..none }
    } else if piece == (if white { def::WQ } else { def::BQ }) {
        Attacks { queen: spec_rook_attacks(m, i, occ) | spec_bishop_attacks(m, i, occ), ..none }
    } else {
        none
    }
}

/// What the piece on `i` attacks, if it is a pawn, knight, bishop, rook or queen of the colour asked for.
fn attacks_at(pos: &Position, m: &BitMask, white: bool, i: usize) -> (r: Attacks)
    requires
        i < 64,
    ensures
        r == spec_attacks_at(*pos, *m, white, i),
{
    let piece = pos.squares[i];
    let occ = pos.bitboard.w_all | pos.bitboard.b_all;
    let none = no_attacks(white);
    if piece == (if white { def::WP } else { def::BP }) {
        Attacks { pawn: if white { m.wp_attack_masks[i] } else { m.bp_attack_masks[i] }, ..none }
    } else if piece == (if white { def::WN } else { def::BN }) {
        Attacks { knight: m.n_attack_masks[i], ..none }
    } else if piece == (if white { def::WB } else { def::BB }) {
        Attacks { bishop: bishop_attacks(m, i, occ), ..none }
    } else if piece == (if white { def::WR } else { def::BR }) {
        Attacks { rook: rook_attacks(m, i, occ), ..none }
    } else if piece == (if white { def::WQ } else { def::BQ }) {
        Attacks { queen: rook_attacks(m, i, occ) | bishop_attacks(m, i, occ), ..none }
    } else {
        none
    }
}

/// The union of two sets of attacks, kind by kind.
pub open spec fn spec_join_attacks(a: Attacks, b: Attacks) -> Attacks {
    Attacks {
        pawn: a.pawn | b.pawn,
        knight: a.knight | b.knight,
        bishop: a.bishop | b.bishop,
        rook: a.rook | b.rook,
        queen: a.queen | b.queen,
    }
}

/// The union of two sets of attacks, kind by kind.
fn join_attacks(a: Attacks, b: Attacks) -> (r: Attacks)
    ensures
        r == spec_join_attacks(a, b),
{
    Attacks {
        pawn: a.pawn | b.pawn,
        knight: a.knight | b.knight,
        bishop: a.bishop | b.bishop,
        rook: a.rook | b.rook,
        queen: a.queen | b.queen,
    }
}

/// What the pieces of one colour on the squares below `n` attack.
pub open spec fn spec_attacks_upto(pos: Position, m: BitMask, white: bool, n: nat) -> Attacks
    decreases n,
{
    if n == 0 {
        spec_no_attacks(white)
    } else {
        spec_join_attacks(
            spec_attacks_upto(pos, m, white, (n - 1) as nat),
            spec_attacks_at(pos, m, white, (n - 1) as usize),
        )
    }
}

/// What the pieces of one colour attack.
pub open spec fn spec_attacks(pos: Position, m: BitMask, white: bool) -> Attacks {
    spec_attacks_upto(pos, m, white, 64)
}

fn attacks_of(state: &State, white: bool) -> (r: Attacks)
    ensures
        r == spec_attacks(state.pos, *state.bitmask, white),
{
    let mut a = no_attacks(white);
    let mut i: usize = 0;
    while i < 64
        invariant
            i <= 64,
            a == spec_attacks_upto(state.pos, *state.bitmask, white, i as nat),
        decreases 64 - i,
    {
        if state.pos.squares[i] != 0 {
            a = join_attacks(a, attacks_at(&state.pos, state.bitmask, white, i));
        } else {
            assert(spec_attacks_at(state.pos, *state.bitmask, white, i) == spec_no_attacks(white));
            assert(a.pawn | 0 == a.pawn && a.knight | 0 == a.knight && a.bishop | 0 == a.bishop
                && a.rook | 0 == a.rook && a.queen | 0 == a.queen) by {
                lemma_or_zero(a.pawn);
                lemma_or_zero(a.knight);
                lemma_or_zero(a.bishop);
                lemma_or_zero(a.rook);
                lemma_or_zero(a.queen);
            }
        }
        i += 1;
    }
    a
}

proof fn lemma_or_zero(x: u64)
    by (bit_vector)
    ensures
        x | 0 == x,
{
}

/// One player of a position, with what its pieces attack.
pub open spec fn spec_side(pos: Position, m: BitMask, white: bool) -> Side {
    let b = pos.bitboard;
    Side {
        white,
        to_move: (pos.player == def::PLAYER_W) == white,
        all: if white { b.w_all } else { b.b_all },
        pawn: if white { b.w_pawn } else { b.b_pawn },
        knight: if white { b.w_knight } else { b.b_knight },
        bishop: if white { b.w_bishop } else { b.b_bishop },
        rook: if white { b.w_rook } else { b.b_rook },
        queen: if white { b.w_queen } else { b.b_queen },
        king: if white { pos.wk_index } else { pos.bk_index },
        pawns_only: spec_piece_mask(b) == 0,
        attacks: spec_attacks(pos, m, white),
    }
}

fn side_of(state: &State, white: bool) -> (r: Side)
    ensures
        r == spec_side(state.pos, *state.bitmask, white),
{
    let b = state.pos.bitboard;
    Side {
        white,
        to_move: (state.pos.player == def::PLAYER_W) == white,
        all: if white { b.w_all } else { b.b_all },
        pawn: if white { b.w_pawn } else { b.b_pawn },
        knight: if white { b.w_knight } else { b.b_knight },
        bishop: if white { b.w_bishop } else { b.b_bishop },
        rook: if white { b.w_rook } else { b.b_rook },
        queen: if white { b.w_queen } else { b.b_queen },
        king: if white { state.pos.wk_index } else { state.pos.bk_index },
        pawns_only: (b.w_knight | b.w_bishop | b.w_rook | b.w_queen | b.b_knight | b.b_bishop
            | b.b_rook | b.b_queen) == 0,
        attacks: attacks_of(state, white),
    }
}

/// Every square that a pawn, knight, bishop, rook or queen of the player attacks.
pub open spec fn spec_all_attacks(a: Attacks) -> u64 {
    a.pawn | a.knight | a.bishop | a.rook | a.queen
}

/// Every square that a pawn, knight, bishop, rook or queen of the player attacks.
fn all_attacks(a: Attacks) -> (r: u64)
    ensures
        r == spec_all_attacks(a),
{
    a.pawn | a.knight | a.bishop | a.rook | a.queen
}

/// Every square that a pawn, knight or bishop of the player attacks.
pub open spec fn spec_minor_attacks(a: Attacks) -> u64 {
    a.pawn | a.knight | a.bishop
}

/// Every square that a pawn, knight or bishop of the player attacks.
fn minor_attacks(a: Attacks) -> (r: u64)
    ensures
        r == spec_minor_attacks(a),
{
    a.pawn | a.knight | a.bishop
}

/// Every square that a pawn, knight, bishop or rook of the player attacks.
pub open spec fn spec_sub_queen_attacks(a: Attacks) -> u64 {
    a.pawn | a.knight | a.bishop | a.rook
}

/// Every square that a pawn, knight, bishop or rook of the player attacks.
fn sub_queen_attacks(a: Attacks) -> (r: u64)
    ensures
        r == spec_sub_queen_attacks(a),
{
    a.pawn | a.knight | a.bishop | a.rook
}

/// What a pawn of `own` on `i` adds to the features of `own`.
pub open spec fn spec_pawn_features(m: BitMask, own: Side, enemy: Side, i: usize) -> FeatureMap {
    let file_mask = m.file_masks[i as int];
    let forward = if own.white { m.wp_forward_masks[i as int] } else { m.bp_forward_masks[i as int] };
    let behind = if own.white { m.wp_behind_masks[i as int] } else { m.bp_behind_masks[i as int] };
    let control = if own.white {
        m.wp_front_control_sqr_masks[i as int]
    } else {
        m.bp_front_control_sqr_masks[i as int]
    };
    let index_mask = m.index_masks[i as int];
    let rank: i32 = if own.white { (i / 8) as i32 } else { (7 - i / 8) as i32 };
    let passed = forward & (enemy.pawn | (own.pawn & file_mask)) == 0;
    let supported = behind & m.k_attack_masks[i as int] & own.pawn != 0;
    let king_distance: i32 = (def::spec_file_distance(i, enemy.king) as i32);
    let outruns = if own.to_move {
        king_distance > 7 - rank
    } else {
        king_distance - 1 > 7 - rank
    };
    let escorted = control == 0 || control & m.index_masks[own.king as int] != 0;
    let unsupported = behind & own.pawn == 0;
    let isolated = unsupported && forward & !file_mask & own.pawn == 0;
    let backward = unsupported && !isolated;
    let defended = enemy.attacks.pawn & index_mask == 0 && (spec_all_attacks(own.attacks)
        ^ own.attacks.queen) & index_mask != 0;
    FeatureMap {
        midgame_sqr_point_count: spec_sqr_val(SQR_TABLE_P, own.white, i),
        endgame_sqr_point_count: spec_sqr_val(SQR_TABLE_P_ENDGAME, own.white, i),
        passed_pawn_count: spec_b2i(passed),
        passed_pawn_rank_count: if passed { ((rank + spec_b2i(supported)) as i32) } else { 0 },
        unstoppable_passed_pawn_count: spec_b2i(passed && own.pawns_only && outruns),
        controlled_passed_pawn_count: spec_b2i(passed && own.pawns_only && escorted),
        dup_pawn_count: spec_b2i(spec_pc(file_mask & own.pawn) > 1),
        isolate_pawn_count: spec_b2i(isolated),
        behind_pawn_count: if backward {
            ((1 + spec_b2i(forward & file_mask & enemy.pawn == 0)) as i32)
        } else {
            0
        },
        defended_pawn_count: spec_b2i(defended),
        ..spec_empty_features()
    }
}

/// What a pawn of `own` on `i` adds to the features of `own`.
fn pawn_features(m: &BitMask, own: &Side, enemy: &Side, i: usize) -> (r: FeatureMap)
    requires
        i < 64,
        own.king < 64,
        enemy.king < 64,
    ensures
        r == spec_pawn_features(*m, *own, *enemy, i),
        features_within(r, 50),
{
    reveal(features_within);
    let file_mask = m.file_masks[i];
    let forward = if own.white { m.wp_forward_masks[i] } else { m.bp_forward_masks[i] };
    let behind = if own.white { m.wp_behind_masks[i] } else { m.bp_behind_masks[i] };
    let control = if own.white {
        m.wp_front_control_sqr_masks[i]
    } else {
        m.bp_front_control_sqr_masks[i]
    };
    let index_mask = m.index_masks[i];
    let rank: i32 = if own.white { (i / 8) as i32 } else { (7 - i / 8) as i32 };
    let passed = forward & (enemy.pawn | (own.pawn & file_mask)) == 0;
    let supported = behind & m.k_attack_masks[i] & own.pawn != 0;
    let king_distance: i32 = def::get_file_distance(i, enemy.king);
    let outruns = if own.to_move {
        king_distance > 7 - rank
    } else {
        king_distance - 1 > 7 - rank
    };
    let escorted = control == 0 || control & m.index_masks[own.king] != 0;
    let unsupported = behind & own.pawn == 0;
    let isolated = unsupported && forward & !file_mask & own.pawn == 0;
    let backward = unsupported && !isolated;
    let defended = enemy.attacks.pawn & index_mask == 0 && (all_attacks(own.attacks)
        ^ own.attacks.queen) & index_mask != 0;
    FeatureMap {
        midgame_sqr_point_count: sqr_val(&SQR_TABLE_P, own.white, i),
        endgame_sqr_point_count: sqr_val(&SQR_TABLE_P_ENDGAME, own.white, i),
        passed_pawn_count: b2i(passed),
        passed_pawn_rank_count: if passed { rank + b2i(supported) } else { 0 },
        unstoppable_passed_pawn_count: b2i(passed && own.pawns_only && outruns),
        controlled_passed_pawn_count: b2i(passed && own.pawns_only && escorted),
        dup_pawn_count: b2i(count(file_mask & own.pawn) > 1),
        isolate_pawn_count: b2i(isolated),
        behind_pawn_count: if backward {
            1 + b2i(forward & file_mask & enemy.pawn == 0)
        } else {
            0
        },
        defended_pawn_count: b2i(defended),
        ..FeatureMap::empty()
    }
}

/// What a knight of `own` on `i` adds to the features of `own`.
pub open spec fn spec_knight_features(m: BitMask, own: Side, enemy: Side, i: usize) -> FeatureMap {
    let index_mask = m.index_masks[i as int];
    let reach = m.n_attack_masks[i as int] & !enemy.attacks.pawn & !(spec_all_attacks(enemy.attacks)
        & !own.attacks.pawn);
    let covered = spec_all_attacks(own.attacks) & index_mask != 0;
    let trapped = reach == 0 && !covered;
    let blocked = !trapped && reach & !own.all == 0;
    let threatened = enemy.attacks.pawn & index_mask != 0;
    FeatureMap {
        midgame_sqr_point_count: spec_sqr_val(SQR_TABLE_N, own.white, i),
        trapped_knight_count: spec_b2i(trapped),
        blocked_knight_count: spec_b2i(blocked),
        threatened_piece_count: spec_b2i(threatened),
        defended_piece_count: spec_b2i(!threatened && covered),
        ..spec_empty_features()
    }
}

/// What a knight of `own` on `i` adds to the features of `own`.
fn knight_features(m: &BitMask, own: &Side, enemy: &Side, i: usize) -> (r: FeatureMap)
    requires
        i < 64,
    ensures
        r == spec_knight_features(*m, *own, *enemy, i),
        features_within(r, 50),
{
    reveal(features_within);
    let index_mask = m.index_masks[i];
    let reach = m.n_attack_masks[i] & !enemy.attacks.pawn & !(all_attacks(enemy.attacks)
        & !own.attacks.pawn);
    let covered = all_attacks(own.attacks) & index_mask != 0;
    let trapped = reach == 0 && !covered;
    let blocked = !trapped && reach & !own.all == 0;
    let threatened = enemy.attacks.pawn & index_mask != 0;
    FeatureMap {
        midgame_sqr_point_count: sqr_val(&SQR_TABLE_N, own.white, i),
        trapped_knight_count: b2i(trapped),
        blocked_knight_count: b2i(blocked),
        threatened_piece_count: b2i(threatened),
        defended_piece_count: b2i(!threatened && covered),
        ..FeatureMap::empty()
    }
}

/// What a bishop of `own` on `i` adds to the features of `own`.
pub open spec fn spec_bishop_features(m: BitMask, own: Side, enemy: Side, i: usize) -> FeatureMap {
    let index_mask = m.index_masks[i as int];
    let reach = spec_bishop_attacks(m, i, own.all | enemy.all) & !enemy.attacks.pawn & !(spec_all_attacks(enemy.attacks)
        & !own.attacks.pawn);
    let covered = spec_all_attacks(own.attacks) & index_mask != 0;
    let trapped = reach == 0 && !covered;
    let blocked = !trapped && reach & !own.all == 0;
    let threatened = enemy.attacks.pawn & index_mask != 0;
    FeatureMap {
        midgame_sqr_point_count: spec_sqr_val(SQR_TABLE_B, own.white, i),
        trapped_bishop_count: spec_b2i(trapped),
        blocked_bishop_count: spec_b2i(blocked),
        threatened_piece_count: spec_b2i(threatened),
        defended_piece_count: spec_b2i(!threatened && covered),
        ..spec_empty_features()
    }
}

/// What a bishop of `own` on `i` adds to the features of `own`.
fn bishop_features(m: &BitMask, own: &Side, enemy: &Side, i: usize) -> (r: FeatureMap)
    requires
        i < 64,
    ensures
        r == spec_bishop_features(*m, *own, *enemy, i),
        features_within(r, 50),
{
    reveal(features_within);
    let index_mask = m.index_masks[i];
    let reach = bishop_attacks(m, i, own.all | enemy.all) & !enemy.attacks.pawn & !(all_attacks(enemy.attacks)
        & !own.attacks.pawn);
    let covered = all_attacks(own.attacks) & index_mask != 0;
    let trapped = reach == 0 && !covered;
    let blocked = !trapped && reach & !own.all == 0;
    let threatened = enemy.attacks.pawn & index_mask != 0;
    FeatureMap {
        midgame_sqr_point_count: sqr_val(&SQR_TABLE_B, own.white, i),
        trapped_bishop_count: b2i(trapped),
        blocked_bishop_count: b2i(blocked),
        threatened_piece_count: b2i(threatened),
        defended_piece_count: b2i(!threatened && covered),
        ..FeatureMap::empty()
    }
}

/// What a rook of `own` on `i` adds to the features of `own`. Of several rooks on one half-open file only the lowest counts for the file.
pub open spec fn spec_rook_features(m: BitMask, own: Side, enemy: Side, i: usize) -> FeatureMap {
    let index_mask = m.index_masks[i as int];
    let file_mask = m.file_masks[i as int];
    let reach = spec_rook_attacks(m, i, own.all | enemy.all) & !spec_minor_attacks(enemy.attacks);
    let covered = spec_all_attacks(own.attacks) & index_mask != 0;
    let trapped = reach == 0 && !covered;
    let blocked = !trapped && reach & !own.all == 0;
    let threatened = spec_minor_attacks(enemy.attacks) & index_mask != 0;
    let own_free = file_mask & (own.all ^ own.rook) == 0;
    let open = own_free && file_mask & enemy.all == 0;
    let half_open = own_free && !open && m.down_attack_masks[i as int] & own.rook == 0;
    FeatureMap {
        midgame_sqr_point_count: spec_sqr_val(SQR_TABLE_R, own.white, i),
        trapped_rook_count: spec_b2i(trapped),
        blocked_rook_count: spec_b2i(blocked),
        threatened_piece_count: spec_b2i(threatened),
        defended_piece_count: spec_b2i(!threatened && covered),
        open_rook_count: spec_b2i(open),
        semi_open_rook_count: spec_b2i(half_open),
        ..spec_empty_features()
    }
}

/// What a rook of `own` on `i` adds to the features of `own`. Of several rooks on one half-open file only the lowest counts for the file.
fn rook_features(m: &BitMask, own: &Side, enemy: &Side, i: usize) -> (r: FeatureMap)
    requires
        i < 64,
    ensures
        r == spec_rook_features(*m, *own, *enemy, i),
        features_within(r, 50),
{
    reveal(features_within);
    let index_mask = m.index_masks[i];
    let file_mask = m.file_masks[i];
    let reach = rook_attacks(m, i, own.all | enemy.all) & !minor_attacks(enemy.attacks);
    let covered = all_attacks(own.attacks) & index_mask != 0;
    let trapped = reach == 0 && !covered;
    let blocked = !trapped && reach & !own.all == 0;
    let threatened = minor_attacks(enemy.attacks) & index_mask != 0;
    let own_free = file_mask & (own.all ^ own.rook) == 0;
    let open = own_free && file_mask & enemy.all == 0;
    let half_open = own_free && !open && m.down_attack_masks[i] & own.rook == 0;
    FeatureMap {
        midgame_sqr_point_count: sqr_val(&SQR_TABLE_R, own.white, i),
        trapped_rook_count: b2i(trapped),
        blocked_rook_count: b2i(blocked),
        threatened_piece_count: b2i(threatened),
        defended_piece_count: b2i(!threatened && covered),
        open_rook_count: b2i(open),
        semi_open_rook_count: b2i(half_open),
        ..FeatureMap::empty()
    }
}

/// What a queen of `own` on `i` adds to the features of `own`.
pub open spec fn spec_queen_features(m: BitMask, own: Side, enemy: Side, i: usize) -> FeatureMap {
    let index_mask = m.index_masks[i as int];
    let file_mask = m.file_masks[i as int];
    let occ = own.all | enemy.all;
    let reach = (spec_rook_attacks(m, i, occ) | spec_bishop_attacks(m, i, occ)) & !spec_sub_queen_attacks(
        enemy.attacks,
    );
    let trapped = reach == 0;
    let blocked = !trapped && reach & !own.all == 0;
    FeatureMap {
        midgame_sqr_point_count: spec_sqr_val(SQR_TABLE_Q, own.white, i),
        trapped_queen_count: spec_b2i(trapped),
        blocked_queen_count: spec_b2i(blocked),
        threatened_piece_count: spec_b2i(spec_sub_queen_attacks(enemy.attacks) & index_mask != 0),
        open_queen_count: spec_b2i(file_mask & (occ ^ index_mask) == 0),
        ..spec_empty_features()
    }
}

/// What a queen of `own` on `i` adds to the features of `own`.
fn queen_features(m: &BitMask, own: &Side, enemy: &Side, i: usize) -> (r: FeatureMap)
    requires
        i < 64,
    ensures
        r == spec_queen_features(*m, *own, *enemy, i),
        features_within(r, 50),
{
    reveal(features_within);
    let index_mask = m.index_masks[i];
    let file_mask = m.file_masks[i];
    let occ = own.all | enemy.all;
    let reach = (rook_attacks(m, i, occ) | bishop_attacks(m, i, occ)) & !sub_queen_attacks(
        enemy.attacks,
    );
    let trapped = reach == 0;
    let blocked = !trapped && reach & !own.all == 0;
    FeatureMap {
        midgame_sqr_point_count: sqr_val(&SQR_TABLE_Q, own.white, i),
        trapped_queen_count: b2i(trapped),
        blocked_queen_count: b2i(blocked),
        threatened_piece_count: b2i(sub_queen_attacks(enemy.attacks) & index_mask != 0),
        open_queen_count: b2i(file_mask & (occ ^ index_mask) == 0),
        ..FeatureMap::empty()
    }
}

/// How open the king of `own` on `i` stands to the rooks and queens of `enemy`: its own file without a pawn close by, or without a pawn at all; a file beside it with neither pawn nor rook of its own; its own file free of enemy pawns while an enemy rook is on the board.
pub open spec fn spec_king_exposure(m: BitMask, own: Side, enemy: Side, i: usize) -> i32 {
    let file_mask = m.file_masks[i as int];
    let shelter = if own.white { WK_PAWN_COVER_MASK } else { BK_PAWN_COVER_MASK };
    if (enemy.rook | enemy.queen) == 0 {
        0
    } else {
        let on_file: i32 = if file_mask & own.pawn & shelter == 0 {
            ((1 + spec_b2i(file_mask & own.pawn == 0)) as i32)
        } else {
            0
        };
        let left: i32 = if i % 8 != 0 {
            spec_b2i(m.file_masks[i - 1 as int] & own.pawn == 0 && m.file_masks[i - 1 as int] & own.rook == 0)
        } else {
            0
        };
        let right: i32 = if i % 8 != 7 {
            spec_b2i(m.file_masks[i + 1 as int] & own.pawn == 0 && m.file_masks[i + 1 as int] & own.rook == 0)
        } else {
            0
        };
        let facing: i32 = spec_b2i(enemy.rook != 0 && file_mask & enemy.pawn == 0);
        ((on_file + left + right + facing) as i32)
    }
}

/// How open the king of `own` on `i` stands to the rooks and queens of `enemy`: its own file without a pawn close by, or without a pawn at all; a file beside it with neither pawn nor rook of its own; its own file free of enemy pawns while an enemy rook is on the board.
fn king_exposure(m: &BitMask, own: &Side, enemy: &Side, i: usize) -> (r: i32)
    requires
        i < 64,
    ensures
        r == spec_king_exposure(*m, *own, *enemy, i),
        0 <= r <= 5,
{
    let file_mask = m.file_masks[i];
    let shelter = if own.white { WK_PAWN_COVER_MASK } else { BK_PAWN_COVER_MASK };
    if (enemy.rook | enemy.queen) == 0 {
        0
    } else {
        let on_file: i32 = if file_mask & own.pawn & shelter == 0 {
            1 + b2i(file_mask & own.pawn == 0)
        } else {
            0
        };
        let left: i32 = if i % 8 != 0 {
            b2i(m.file_masks[i - 1] & own.pawn == 0 && m.file_masks[i - 1] & own.rook == 0)
        } else {
            0
        };
        let right: i32 = if i % 8 != 7 {
            b2i(m.file_masks[i + 1] & own.pawn == 0 && m.file_masks[i + 1] & own.rook == 0)
        } else {
            0
        };
        let facing: i32 = b2i(enemy.rook != 0 && file_mask & enemy.pawn == 0);
        on_file + left + right + facing
    }
}

/// What the king of `own` on `i` adds to the features of `own`.
pub open spec fn spec_king_features(m: BitMask, own: Side, enemy: Side, i: usize) -> FeatureMap {
    FeatureMap {
        midgame_sqr_point_count: spec_sqr_val(SQR_TABLE_K, own.white, i),
        endgame_sqr_point_count: spec_sqr_val(SQR_TABLE_K_ENDGAME, own.white, i),
        king_exposed: spec_king_exposure(m, own, enemy, i),
        ..spec_empty_features()
    }
}

/// What the king of `own` on `i` adds to the features of `own`.
fn king_features(m: &BitMask, own: &Side, enemy: &Side, i: usize) -> (r: FeatureMap)
    requires
        i < 64,
    ensures
        r == spec_king_features(*m, *own, *enemy, i),
        features_within(r, 50),
{
    reveal(features_within);
    FeatureMap {
        midgame_sqr_point_count: sqr_val(&SQR_TABLE_K, own.white, i),
        endgame_sqr_point_count: sqr_val(&SQR_TABLE_K_ENDGAME, own.white, i),
        king_exposed: king_exposure(m, own, enemy, i),
        ..FeatureMap::empty()
    }
}

/// What `piece` on `i` adds to the features of `own`, the player it belongs to; nothing where it is no piece of `own`.
#[verifier::opaque]
pub open spec fn spec_piece_features(m: BitMask, own: Side, enemy: Side, i: usize, piece: u8) -> FeatureMap {
    if piece == (if own.white { def::WP } else { def::BP }) {
        spec_pawn_features(m, own, enemy, i)
    } else if piece == (if own.white { def::WN } else { def::BN }) {
        spec_knight_features(m, own, enemy, i)
    } else if piece == (if own.white { def::WB } else { def::BB }) {
        spec_bishop_features(m, own, enemy, i)
    } else if piece == (if own.white { def::WR } else { def::BR }) {
        spec_rook_features(m, own, enemy, i)
    } else if piece == (if own.white { def::WQ } else { def::BQ }) {
        spec_queen_features(m, own, enemy, i)
    } else if piece == (if own.white { def::WK } else { def::BK }) {
        spec_king_features(m, own, enemy, i)
    } else {
        spec_empty_features()
    }
}

/// What `piece` on `i` adds to the features of `own`, the player it belongs to; nothing where it is no piece of `own`.
fn piece_features(m: &BitMask, own: &Side, enemy: &Side, i: usize, piece: u8) -> (r: FeatureMap)
    requires
        i < 64,
        own.king < 64,
        enemy.king < 64,
    ensures
        r == spec_piece_features(*m, *own, *enemy, i, piece),
        features_within(r, 50),
{
    reveal(features_within);
    reveal(spec_piece_features);
    if piece == (if own.white { def::WP } else { def::BP }) {
        pawn_features(m, own, enemy, i)
    } else if piece == (if own.white { def::WN } else { def::BN }) {
        knight_features(m, own, enemy, i)
    } else if piece == (if own.white { def::WB } else { def::BB }) {
        bishop_features(m, own, enemy, i)
    } else if piece == (if own.white { def::WR } else { def::BR }) {
        rook_features(m, own, enemy, i)
    } else if piece == (if own.white { def::WQ } else { def::BQ }) {
        queen_features(m, own, enemy, i)
    } else if piece == (if own.white { def::WK } else { def::BK }) {
        king_features(m, own, enemy, i)
    } else {
        FeatureMap::empty()
    }
}

/// Squares next to the king of `own` that `enemy` attacks with a bishop, rook or queen and that nothing of `own` worth less than the attacker covers; 0 where `enemy` has no queen.
pub open spec fn spec_king_threats(m: BitMask, own: Side, enemy: Side) -> i32 {
    if enemy.queen == 0 {
        0
    } else {
        let ring = m.k_attack_masks[own.king as int];
        ((spec_pc(enemy.attacks.bishop & !own.attacks.pawn & ring) + spec_pc(
            enemy.attacks.rook & !spec_minor_attacks(own.attacks) & ring,
        ) + spec_pc(enemy.attacks.queen & !spec_sub_queen_attacks(own.attacks) & ring)) as i32)
    }
}

/// Squares next to the king of `own` that `enemy` attacks with a bishop, rook or queen and that nothing of `own` worth less than the attacker covers; 0 where `enemy` has no queen.
fn king_threats(m: &BitMask, own: &Side, enemy: &Side) -> (r: i32)
    requires
        own.king < 64,
    ensures
        r == spec_king_threats(*m, *own, *enemy),
        0 <= r <= 192,
{
    if enemy.queen == 0 {
        0
    } else {
        let ring = m.k_attack_masks[own.king];
        count(enemy.attacks.bishop & !own.attacks.pawn & ring) + count(
            enemy.attacks.rook & !minor_attacks(own.attacks) & ring,
        ) + count(enemy.attacks.queen & !sub_queen_attacks(own.attacks) & ring)
    }
}

/// What the boards of `own` as a whole add to its features: the piece counts, the threats to its king, the mobility of its knights and bishops, and whether it has lost the right to castle without having castled.
pub open spec fn spec_side_features(m: BitMask, own: Side, enemy: Side, cas_rights: u8, cas_history: u8) -> FeatureMap {
    let ring = m.k_attack_masks[own.king as int];
    FeatureMap {
        pawn_count: spec_pc(own.pawn),
        knight_count: spec_pc(own.knight),
        bishop_count: spec_pc(own.bishop),
        rook_count: spec_pc(own.rook),
        queen_count: spec_pc(own.queen),
        king_pawn_threat_count: if enemy.queen == 0 {
            0
        } else {
            spec_pc(enemy.attacks.pawn & ring)
        },
        king_threat_count: spec_king_threats(m, own, enemy),
        mobility: ((spec_pc(own.attacks.knight & !own.pawn & !enemy.attacks.pawn) + spec_pc(
            own.attacks.bishop & !own.pawn & !enemy.attacks.pawn,
        )) as i32),
        king_lost_cas_rights: spec_b2i(
            (cas_rights | cas_history) & (if own.white { def::CAS_W_ALL } else { def::CAS_B_ALL })
                == 0,
        ),
        ..spec_empty_features()
    }
}

/// What the boards of `own` as a whole add to its features: the piece counts, the threats to its king, the mobility of its knights and bishops, and whether it has lost the right to castle without having castled.
fn side_features(m: &BitMask, own: &Side, enemy: &Side, cas_rights: u8, cas_history: u8) -> (r: FeatureMap)
    requires
        own.king < 64,
    ensures
        r == spec_side_features(*m, *own, *enemy, cas_rights, cas_history),
        features_within(r, 192),
{
    reveal(features_within);
    let ring = m.k_attack_masks[own.king];
    FeatureMap {
        pawn_count: count(own.pawn),
        knight_count: count(own.knight),
        bishop_count: count(own.bishop),
        rook_count: count(own.rook),
        queen_count: count(own.queen),
        king_pawn_threat_count: if enemy.queen == 0 {
            0
        } else {
            count(enemy.attacks.pawn & ring)
        },
        king_threat_count: king_threats(m, own, enemy),
        mobility: count(own.attacks.knight & !own.pawn & !enemy.attacks.pawn) + count(
            own.attacks.bishop & !own.pawn & !enemy.attacks.pawn,
        ),
        king_lost_cas_rights: b2i(
            (cas_rights | cas_history) & (if own.white { def::CAS_W_ALL } else { def::CAS_B_ALL })
                == 0,
        ),
        ..FeatureMap::empty()
    }
}

/// The features of both players that the pieces on the squares below `n`
/// add up to, white's first.
pub open spec fn spec_features_upto(pos: Position, m: BitMask, w: Side, b: Side, n: nat) -> (
    FeatureMap,
    FeatureMap,
)
    decreases n,
{
    if n == 0 {
        (spec_empty_features(), spec_empty_features())
    } else {
        let before = spec_features_upto(pos, m, w, b, (n - 1) as nat);
        let i = (n - 1) as usize;
        (
            spec_add_features(before.0, spec_piece_features(m, w, b, i, pos.squares[i as int])),
            spec_add_features(before.1, spec_piece_features(m, b, w, i, pos.squares[i as int])),
        )
    }
}

/// The features of both players, white's first.
pub open spec fn spec_extract_features(pos: Position, m: BitMask) -> (FeatureMap, FeatureMap) {
    let w = spec_side(pos, m, true);
    let b = spec_side(pos, m, false);
    let pieces = spec_features_upto(pos, m, w, b, 64);
    (
        spec_add_features(pieces.0, spec_side_features(m, w, b, pos.cas_rights, pos.cas_history)),
        spec_add_features(pieces.1, spec_side_features(m, b, w, pos.cas_rights, pos.cas_history)),
    )
}

/// The four piece counts that the game phase is made of are all `c`.
pub open spec fn phase_counts_are(f: FeatureMap, q: int, r: int, b: int, n: int) -> bool {
    f.queen_count == q && f.rook_count == r && f.bishop_count == b && f.knight_count == n
}

/// The sum over the squares below `n` stays within 50 a square.
proof fn lemma_features_upto_within(pos: Position, m: BitMask, w: Side, b: Side, n: nat)
    requires
        n <= 64,
        w.king < 64,
        b.king < 64,
    ensures
        features_within(spec_features_upto(pos, m, w, b, n).0, 50 * (n as int)),
        features_within(spec_features_upto(pos, m, w, b, n).1, 50 * (n as int)),
    decreases n,
{
    if n == 0 {
        lemma_empty_within(0);
    } else {
        lemma_features_upto_within(pos, m, w, b, (n - 1) as nat);
        let i = (n - 1) as usize;
        let before = spec_features_upto(pos, m, w, b, (n - 1) as nat);
        let wp = spec_piece_features(m, w, b, i, pos.squares[i as int]);
        let bp = spec_piece_features(m, b, w, i, pos.squares[i as int]);
        lemma_piece_features_within(m, w, b, i, pos.squares[i as int]);
        lemma_piece_features_within(m, b, w, i, pos.squares[i as int]);
        lemma_add_within(before.0, wp, 50 * (n - 1), 50);
        lemma_add_within(before.1, bp, 50 * (n - 1), 50);
        assert(spec_features_upto(pos, m, w, b, n) == (
            spec_add_features(before.0, wp),
            spec_add_features(before.1, bp),
        ));
    }
}

/// The sum over the squares below `n` holds no piece count.
proof fn lemma_features_upto_counts(pos: Position, m: BitMask, w: Side, b: Side, n: nat)
    requires
        n <= 64,
        w.king < 64,
        b.king < 64,
    ensures
        phase_counts_are(spec_features_upto(pos, m, w, b, n).0, 0, 0, 0, 0),
        phase_counts_are(spec_features_upto(pos, m, w, b, n).1, 0, 0, 0, 0),
    decreases n,
{
    reveal(spec_add_features);
    if n > 0 {
        lemma_features_upto_counts(pos, m, w, b, (n - 1) as nat);
        let i = (n - 1) as usize;
        let before = spec_features_upto(pos, m, w, b, (n - 1) as nat);
        let wp = spec_piece_features(m, w, b, i, pos.squares[i as int]);
        let bp = spec_piece_features(m, b, w, i, pos.squares[i as int]);
        lemma_piece_features_within(m, w, b, i, pos.squares[i as int]);
        lemma_piece_features_within(m, b, w, i, pos.squares[i as int]);
        assert(spec_features_upto(pos, m, w, b, n) == (
            spec_add_features(before.0, wp),
            spec_add_features(before.1, bp),
        ));
    }
}

/// No feature of either player is beyond `FEATURE_LIMIT`.
pub proof fn lemma_features_within(pos: Position, m: BitMask)
    requires
        pos.wf(),
    ensures
        features_within(spec_extract_features(pos, m).0, FEATURE_LIMIT as int),
        features_within(spec_extract_features(pos, m).1, FEATURE_LIMIT as int),
        phase_counts_are(
            spec_extract_features(pos, m).0,
            spec_pc(pos.bitboard.w_queen) as int,
            spec_pc(pos.bitboard.w_rook) as int,
            spec_pc(pos.bitboard.w_bishop) as int,
            spec_pc(pos.bitboard.w_knight) as int,
        ),
        phase_counts_are(
            spec_extract_features(pos, m).1,
            spec_pc(pos.bitboard.b_queen) as int,
            spec_pc(pos.bitboard.b_rook) as int,
            spec_pc(pos.bitboard.b_bishop) as int,
            spec_pc(pos.bitboard.b_knight) as int,
        ),
        0 <= spec_phase_of(spec_extract_features(pos, m).0, spec_extract_features(pos, m).1)
            <= TOTAL_PHASE,
{
    reveal(spec_add_features);
    crate::bits::lemma_count_ones_bound(pos.bitboard.w_queen);
    crate::bits::lemma_count_ones_bound(pos.bitboard.w_rook);
    crate::bits::lemma_count_ones_bound(pos.bitboard.w_bishop);
    crate::bits::lemma_count_ones_bound(pos.bitboard.w_knight);
    crate::bits::lemma_count_ones_bound(pos.bitboard.b_queen);
    crate::bits::lemma_count_ones_bound(pos.bitboard.b_rook);
    crate::bits::lemma_count_ones_bound(pos.bitboard.b_bishop);
    crate::bits::lemma_count_ones_bound(pos.bitboard.b_knight);
    let w = spec_side(pos, m, true);
    let b = spec_side(pos, m, false);
    lemma_features_upto_within(pos, m, w, b, 64);
    lemma_features_upto_counts(pos, m, w, b, 64);
    lemma_side_features_within(m, w, b, pos.cas_rights, pos.cas_history);
    lemma_side_features_within(m, b, w, pos.cas_rights, pos.cas_history);
    let pieces = spec_features_upto(pos, m, w, b, 64);
    lemma_add_within(
        pieces.0,
        spec_side_features(m, w, b, pos.cas_rights, pos.cas_history),
        3200,
        192,
    );
    lemma_add_within(
        pieces.1,
        spec_side_features(m, b, w, pos.cas_rights, pos.cas_history),
        3200,
        192,
    );
    lemma_within_wider(spec_extract_features(pos, m).0, 3392, FEATURE_LIMIT as int);
    lemma_within_wider(spec_extract_features(pos, m).1, 3392, FEATURE_LIMIT as int);
}

/// An empty square adds nothing to the features.
proof fn lemma_empty_square_adds_nothing(
    m: BitMask,
    own: Side,
    enemy: Side,
    i: usize,
    sum: FeatureMap,
)
    ensures
        spec_add_features(sum, spec_piece_features(m, own, enemy, i, 0)) == sum,
{
    reveal(spec_piece_features);
    reveal(spec_add_features);
}

/// The features that the evaluation counts, for white and for black.
pub fn extract_features(state: &State) -> (r: (FeatureMap, FeatureMap))
    requires
        state.pos.wf(),
    ensures
        r == spec_extract_features(state.pos, *state.bitmask),
        features_within(r.0, FEATURE_LIMIT as int),
        features_within(r.1, FEATURE_LIMIT as int),
        0 <= spec_phase_of(r.0, r.1) <= TOTAL_PHASE,
{
    let w = side_of(state, true);
    let b = side_of(state, false);
    let mut wf = FeatureMap::empty();
    let mut bf = FeatureMap::empty();
    let mut i: usize = 0;
    while i < 64
        invariant
            i <= 64,
            w.king < 64,
            b.king < 64,
            w == spec_side(state.pos, *state.bitmask, true),
            b == spec_side(state.pos, *state.bitmask, false),
            (wf, bf) == spec_features_upto(state.pos, *state.bitmask, w, b, i as nat),
        decreases 64 - i,
    {
        let piece: u8 = state.pos.squares[i];
        if piece == 0 {
            proof {
                lemma_empty_square_adds_nothing(*state.bitmask, w, b, i, wf);
                lemma_empty_square_adds_nothing(*state.bitmask, b, w, i, bf);
            }
        } else {
            let wp = piece_features(state.bitmask, &w, &b, i, piece);
            let bp = piece_features(state.bitmask, &b, &w, i, piece);
            proof {
                lemma_features_upto_within(state.pos, *state.bitmask, w, b, i as nat);
                lemma_within_wider(wf, 50 * i, 1000000);
                lemma_within_wider(bf, 50 * i, 1000000);
                lemma_within_wider(wp, 50, 1000000);
                lemma_within_wider(bp, 50, 1000000);
            }
            wf = wf.add(&wp);
            bf = bf.add(&bp);
        }
        i += 1;
    }
    let ws = side_features(state.bitmask, &w, &b, state.pos.cas_rights, state.pos.cas_history);
    let bs = side_features(state.bitmask, &b, &w, state.pos.cas_rights, state.pos.cas_history);
    proof {
        lemma_features_upto_within(state.pos, *state.bitmask, w, b, 64);
        lemma_features_within(state.pos, *state.bitmask);
        lemma_within_wider(wf, 3200, 1000000);
        lemma_within_wider(bf, 3200, 1000000);
        lemma_within_wider(ws, 192, 1000000);
        lemma_within_wider(bs, 192, 1000000);
    }
    (wf.add(&ws), bf.add(&bs))
}

proof fn lemma_piece_features_within(m: BitMask, own: Side, enemy: Side, i: usize, piece: u8)
    requires
        i < 64,
        own.king < 64,
        enemy.king < 64,
    ensures
        features_within(spec_piece_features(m, own, enemy, i, piece), 50),
        phase_counts_are(spec_piece_features(m, own, enemy, i, piece), 0, 0, 0, 0),
{
    reveal(spec_piece_features);
    reveal(features_within);
    crate::bits::lemma_count_ones_bound(m.file_masks[i as int] & own.pawn);
}

proof fn lemma_side_features_within(
    m: BitMask,
    own: Side,
    enemy: Side,
    cas_rights: u8,
    cas_history: u8,
)
    requires
        own.king < 64,
    ensures
        features_within(spec_side_features(m, own, enemy, cas_rights, cas_history), 192),
{
    reveal(features_within);
    let ring = m.k_attack_masks[own.king as int];
    crate::bits::lemma_count_ones_bound(own.pawn);
    crate::bits::lemma_count_ones_bound(own.knight);
    crate::bits::lemma_count_ones_bound(own.bishop);
    crate::bits::lemma_count_ones_bound(own.rook);
    crate::bits::lemma_count_ones_bound(own.queen);
    crate::bits::lemma_count_ones_bound(enemy.attacks.pawn & ring);
    crate::bits::lemma_count_ones_bound(enemy.attacks.bishop & !own.attacks.pawn & ring);
    crate::bits::lemma_count_ones_bound(
        enemy.attacks.rook & !spec_minor_attacks(own.attacks) & ring,
    );
    crate::bits::lemma_count_ones_bound(
        enemy.attacks.queen & !spec_sub_queen_attacks(own.attacks) & ring,
    );
    crate::bits::lemma_count_ones_bound(own.attacks.knight & !own.pawn & !enemy.attacks.pawn);
    crate::bits::lemma_count_ones_bound(own.attacks.bishop & !own.pawn & !enemy.attacks.pawn);
}


/// The phase that the piece counts of two feature maps give: their weight
/// in phase units, no less than 0 and no more than `TOTAL_PHASE`.
pub open spec fn spec_phase_of(w: FeatureMap, b: FeatureMap) -> int {
    spec_capped_phase(
        w.queen_count * Q_PHASE_WEIGHT + w.rook_count * R_PHASE_WEIGHT + w.bishop_count
            * B_PHASE_WEIGHT + w.knight_count * N_PHASE_WEIGHT + b.queen_count * Q_PHASE_WEIGHT
            + b.rook_count * R_PHASE_WEIGHT + b.bishop_count * B_PHASE_WEIGHT + b.knight_count
            * N_PHASE_WEIGHT,
    )
}

/// The part of one player's score that does not depend on the phase: for
/// pieces that are trapped, blocked, threatened or defended.
pub open spec fn spec_shared_score(f: FeatureMap) -> int {
    f.trapped_knight_count * TRAPPED_N_PEN + f.trapped_bishop_count * TRAPPED_B_PEN
        + f.trapped_rook_count * TRAPPED_R_PEN + f.trapped_queen_count * TRAPPED_Q_PEN
        + f.blocked_knight_count * BLOCKED_N_PEN + f.blocked_bishop_count * BLOCKED_B_PEN
        + f.blocked_rook_count * BLOCKED_R_PEN + f.blocked_queen_count * BLOCKED_Q_PEN
        + f.threatened_piece_count * THREATENED_PIECE_PEN + f.defended_piece_count
        * DEFENDED_PIECE_VAL + f.defended_pawn_count * DEFENDED_PAWN_VAL
}

/// The part of one player's score that counts in the midgame: squares, open
/// files, mobility, the king's safety, backward pawns.
pub open spec fn spec_midgame_score(f: FeatureMap) -> int {
    f.midgame_sqr_point_count + f.semi_open_rook_count * ROOK_SEMI_OPEN_LINE_VAL
        + f.open_rook_count * ROOK_OPEN_LINE_VAL + f.open_queen_count * QUEEN_OPEN_LINE_VAL
        + f.mobility * MIDGAME_MOB_BASE_VAL + f.king_exposed * KING_EXPOSED_PEN
        + f.king_threat_count * KING_THREAT_BASE_PEN + f.king_pawn_threat_count
        * KING_PAWN_THREAT_BASE_PEN + f.behind_pawn_count * BEHIND_PAWN_PEN
        + f.king_lost_cas_rights * KING_LOST_CAS_RIGHTS_PEN
}

/// The part of one player's score that counts in the endgame: squares,
/// passed pawns, pawn weaknesses, mobility, heavy pieces.
pub open spec fn spec_endgame_score(f: FeatureMap) -> int {
    f.endgame_sqr_point_count + f.passed_pawn_count * PASS_PAWN_BASE_VAL
        + f.passed_pawn_rank_count * PASS_PAWN_RANK_VAL + f.unstoppable_passed_pawn_count
        * UNSTOPPABLE_PASS_PAWN_VAL + f.controlled_passed_pawn_count * CONTROLLED_PASS_PAWN_VAL
        + f.isolate_pawn_count * ISOLATE_PAWN_PEN + f.dup_pawn_count * DUP_PAWN_PEN + f.mobility
        * ENDGAME_MOB_BASE_VAL + f.rook_count * ENDGAME_ROOK_EXTRA_VAL + f.queen_count
        * ENDGAME_QUEEN_EXTRA_VAL
}

/// Division that rounds towards 0, as the machine divides.
pub open spec fn spec_div_trunc(n: int, d: int) -> int {
    if n >= 0 {
        n / d
    } else {
        -((-n) / d)
    }
}

/// White's positional score less black's: the shared part, and the midgame
/// and endgame parts weighted by the phase and by what is missing to the
/// full phase.
pub open spec fn spec_positional_score(w: FeatureMap, b: FeatureMap) -> int {
    let phase = spec_phase_of(w, b);
    spec_shared_score(w) - spec_shared_score(b) + spec_div_trunc(
        (spec_midgame_score(w) - spec_midgame_score(b)) * phase + (spec_endgame_score(w)
            - spec_endgame_score(b)) * (TOTAL_PHASE - phase),
        TOTAL_PHASE as int,
    )
}

/// What `eval_state` returns: the material score, the positional score
/// from the point of view of the player to move, and the tempo bonus.
pub open spec fn spec_eval_state(pos: Position, m: BitMask, material_score: int) -> int {
    let f = spec_extract_features(pos, m);
    material_score + spec_positional_score(f.0, f.1) * spec_score_sign(pos.player) + TEMPO_VAL
}

fn shared_score(f: &FeatureMap) -> (r: i32)
    requires
        features_within(*f, FEATURE_LIMIT as int),
    ensures
        r == spec_shared_score(*f),
        -1600000 <= r <= 1600000,
{
    reveal(features_within);
    f.trapped_knight_count * TRAPPED_N_PEN + f.trapped_bishop_count * TRAPPED_B_PEN
        + f.trapped_rook_count * TRAPPED_R_PEN + f.trapped_queen_count * TRAPPED_Q_PEN
        + f.blocked_knight_count * BLOCKED_N_PEN + f.blocked_bishop_count * BLOCKED_B_PEN
        + f.blocked_rook_count * BLOCKED_R_PEN + f.blocked_queen_count * BLOCKED_Q_PEN
        + f.threatened_piece_count * THREATENED_PIECE_PEN + f.defended_piece_count
        * DEFENDED_PIECE_VAL + f.defended_pawn_count * DEFENDED_PAWN_VAL
}

fn midgame_score(f: &FeatureMap) -> (r: i32)
    requires
        features_within(*f, FEATURE_LIMIT as int),
    ensures
        r == spec_midgame_score(*f),
        -810000 <= r <= 810000,
{
    reveal(features_within);
    f.midgame_sqr_point_count + f.semi_open_rook_count * ROOK_SEMI_OPEN_LINE_VAL
        + f.open_rook_count * ROOK_OPEN_LINE_VAL + f.open_queen_count * QUEEN_OPEN_LINE_VAL
        + f.mobility * MIDGAME_MOB_BASE_VAL + f.king_exposed * KING_EXPOSED_PEN
        + f.king_threat_count * KING_THREAT_BASE_PEN + f.king_pawn_threat_count
        * KING_PAWN_THREAT_BASE_PEN + f.behind_pawn_count * BEHIND_PAWN_PEN
        + f.king_lost_cas_rights * KING_LOST_CAS_RIGHTS_PEN
}

fn endgame_score(f: &FeatureMap) -> (r: i32)
    requires
        features_within(*f, FEATURE_LIMIT as int),
    ensures
        r == spec_endgame_score(*f),
        -1310000 <= r <= 1310000,
{
    reveal(features_within);
    f.endgame_sqr_point_count + f.passed_pawn_count * PASS_PAWN_BASE_VAL
        + f.passed_pawn_rank_count * PASS_PAWN_RANK_VAL + f.unstoppable_passed_pawn_count
        * UNSTOPPABLE_PASS_PAWN_VAL + f.controlled_passed_pawn_count * CONTROLLED_PASS_PAWN_VAL
        + f.isolate_pawn_count * ISOLATE_PAWN_PEN + f.dup_pawn_count * DUP_PAWN_PEN + f.mobility
        * ENDGAME_MOB_BASE_VAL + f.rook_count * ENDGAME_ROOK_EXTRA_VAL + f.queen_count
        * ENDGAME_QUEEN_EXTRA_VAL
}

/// White's positional score less black's.
pub fn positional_score(w: &FeatureMap, b: &FeatureMap) -> (r: i32)
    requires
        features_within(*w, FEATURE_LIMIT as int),
        features_within(*b, FEATURE_LIMIT as int),
    ensures
        r == spec_positional_score(*w, *b),
        -POSITIONAL_LIMIT <= r <= POSITIONAL_LIMIT,
{
    reveal(features_within);
    let weight: i32 = w.queen_count * Q_PHASE_WEIGHT + w.rook_count * R_PHASE_WEIGHT
        + w.bishop_count * B_PHASE_WEIGHT + w.knight_count * N_PHASE_WEIGHT + b.queen_count
        * Q_PHASE_WEIGHT + b.rook_count * R_PHASE_WEIGHT + b.bishop_count * B_PHASE_WEIGHT
        + b.knight_count * N_PHASE_WEIGHT;
    let phase: i32 = if weight < 0 {
        0
    } else if weight > TOTAL_PHASE {
        TOTAL_PHASE
    } else {
        weight
    };
    let shared: i32 = shared_score(w) - shared_score(b);
    let midgame: i64 = (midgame_score(w) - midgame_score(b)) as i64;
    let endgame: i64 = (endgame_score(w) - endgame_score(b)) as i64;
    let ph: i64 = phase as i64;
    let rest: i64 = (TOTAL_PHASE - phase) as i64;
    assert(-1620000 * 96 <= midgame * ph <= 1620000 * 96) by (nonlinear_arith)
        requires
            -1620000 <= midgame <= 1620000,
            0 <= ph <= 96,
    ;
    assert(-2620000 * 96 <= endgame * rest <= 2620000 * 96) by (nonlinear_arith)
        requires
            -2620000 <= endgame <= 2620000,
            0 <= rest <= 96,
    ;
    let blended: i64 = (midgame * ph + endgame * rest) / (TOTAL_PHASE as i64);
    shared + (blended as i32)
}

/// The score of the position from the point of view of the player to move:
/// `material_score`, which is that player's material score, then the
/// positional score, then the tempo bonus.
pub fn eval_state(state: &State, material_score: i32) -> (r: i32)
    requires
        state.pos.wf(),
        -MATERIAL_INPUT_LIMIT <= material_score <= MATERIAL_INPUT_LIMIT,
    ensures
        r == spec_eval_state(state.pos, *state.bitmask, material_score as int),
        -MATERIAL_INPUT_LIMIT - POSITIONAL_LIMIT <= r - TEMPO_VAL <= MATERIAL_INPUT_LIMIT
            + POSITIONAL_LIMIT,
{
    let (w, b) = extract_features(state);
    let positional: i32 = positional_score(&w, &b);
    if state.pos.player == def::PLAYER_W {
        material_score + positional + TEMPO_VAL
    } else {
        material_score - positional + TEMPO_VAL
    }
}

/// What the evaluation of a position comes to: its material score fed into
/// `eval_state`.
pub open spec fn spec_evaluate(pos: Position, m: BitMask) -> int {
    spec_eval_state(pos, m, spec_eval_materials(pos).0)
}

/// The same board with the other player to move.
pub open spec fn spec_flip_player(pos: Position) -> Position {
    Position { player: def::spec_opposite_player(pos.player), ..pos }
}

proof fn lemma_attacks_ignore_player(pos: Position, m: BitMask, white: bool, n: nat)
    ensures
        spec_attacks_upto(spec_flip_player(pos), m, white, n) == spec_attacks_upto(
            pos,
            m,
            white,
            n,
        ),
    decreases n,
{
    if n > 0 {
        lemma_attacks_ignore_player(pos, m, white, (n - 1) as nat);
    }
}

proof fn lemma_piece_features_ignore_move(
    m: BitMask,
    own: Side,
    enemy: Side,
    own2: Side,
    enemy2: Side,
    i: usize,
    piece: u8,
)
    requires
        !own.pawns_only,
        own2 == (Side { to_move: !own.to_move, ..own }),
        enemy2 == (Side { to_move: !enemy.to_move, ..enemy }),
    ensures
        spec_piece_features(m, own2, enemy2, i, piece) == spec_piece_features(
            m,
            own,
            enemy,
            i,
            piece,
        ),
{
    reveal(spec_piece_features);
}

/// Whether who is to move changes what the piece on some square adds to a
/// player's features. Only a passed pawn among pawns and kings can do so:
/// whether it outruns the other king depends on the move where the king is
/// exactly one step short of catching it.
pub open spec fn spec_move_decides_race(pos: Position, m: BitMask) -> bool {
    let w = spec_side(pos, m, true);
    let b = spec_side(pos, m, false);
    let w2 = Side { to_move: !w.to_move, ..w };
    let b2 = Side { to_move: !b.to_move, ..b };
    exists|i: int|
        0 <= i < 64 && {
            ||| spec_piece_features(m, w2, b2, i as usize, #[trigger] pos.squares[i])
                != spec_piece_features(m, w, b, i as usize, pos.squares[i])
            ||| spec_piece_features(m, b2, w2, i as usize, pos.squares[i]) != spec_piece_features(
                m,
                b,
                w,
                i as usize,
                pos.squares[i],
            )
        }
}

/// With a knight, bishop, rook or queen on the board no race is decided by
/// the move.
pub proof fn lemma_pieces_decide_no_race(pos: Position, m: BitMask)
    requires
        spec_piece_mask(pos.bitboard) != 0,
    ensures
        !spec_move_decides_race(pos, m),
{
    let w = spec_side(pos, m, true);
    let b = spec_side(pos, m, false);
    let w2 = Side { to_move: !w.to_move, ..w };
    let b2 = Side { to_move: !b.to_move, ..b };
    assert forall|i: int| 0 <= i < 64 implies spec_piece_features(
        m,
        w2,
        b2,
        i as usize,
        #[trigger] pos.squares[i],
    ) == spec_piece_features(m, w, b, i as usize, pos.squares[i]) && spec_piece_features(
        m,
        b2,
        w2,
        i as usize,
        pos.squares[i],
    ) == spec_piece_features(m, b, w, i as usize, pos.squares[i]) by {
        lemma_piece_features_ignore_move(m, w, b, w2, b2, i as usize, pos.squares[i]);
        lemma_piece_features_ignore_move(m, b, w, b2, w2, i as usize, pos.squares[i]);
    }
}

proof fn lemma_features_ignore_player(pos: Position, m: BitMask, n: nat)
    requires
        pos.player == def::PLAYER_W || pos.player == def::PLAYER_B,
        !spec_move_decides_race(pos, m),
        n <= 64,
    ensures
        spec_features_upto(
            spec_flip_player(pos),
            m,
            spec_side(spec_flip_player(pos), m, true),
            spec_side(spec_flip_player(pos), m, false),
            n,
        ) == spec_features_upto(pos, m, spec_side(pos, m, true), spec_side(pos, m, false), n),
    decreases n,
{
    let flipped = spec_flip_player(pos);
    lemma_attacks_ignore_player(pos, m, true, 64);
    lemma_attacks_ignore_player(pos, m, false, 64);
    if n > 0 {
        lemma_features_ignore_player(pos, m, (n - 1) as nat);
        let i = (n - 1) as int;
        let w = spec_side(pos, m, true);
        let b = spec_side(pos, m, false);
        assert(spec_side(flipped, m, true) == (Side { to_move: !w.to_move, ..w }));
        assert(spec_side(flipped, m, false) == (Side { to_move: !b.to_move, ..b }));
        assert(pos.squares[i] == pos.squares[i]);
    }
}

/// The evaluation is zero-sum but for the tempo bonus: with the other
/// player to move on the same board, the score without the bonus changes
/// its sign and nothing else. This holds unless the move decides the race
/// of a passed pawn against a king.
pub proof fn lemma_eval_zero_sum_without_race(pos: Position, m: BitMask)
    requires
        pos.player == def::PLAYER_W || pos.player == def::PLAYER_B,
        !spec_move_decides_race(pos, m),
    ensures
        spec_evaluate(spec_flip_player(pos), m) - TEMPO_VAL == -(spec_evaluate(pos, m)
            - TEMPO_VAL),
{
    let flipped = spec_flip_player(pos);
    lemma_attacks_ignore_player(pos, m, true, 64);
    lemma_attacks_ignore_player(pos, m, false, 64);
    lemma_features_ignore_player(pos, m, 64);
    let w = spec_side(pos, m, true);
    let b = spec_side(pos, m, false);
    let w2 = spec_side(flipped, m, true);
    let b2 = spec_side(flipped, m, false);
    assert(spec_side_features(m, w2, b2, pos.cas_rights, pos.cas_history) == spec_side_features(
        m,
        w,
        b,
        pos.cas_rights,
        pos.cas_history,
    ));
    assert(spec_side_features(m, b2, w2, pos.cas_rights, pos.cas_history) == spec_side_features(
        m,
        b,
        w,
        pos.cas_rights,
        pos.cas_history,
    ));
    assert(spec_extract_features(flipped, m) == spec_extract_features(pos, m));
    let f = spec_extract_features(pos, m);
    let p = spec_positional_score(f.0, f.1);
    assert(p * spec_score_sign(flipped.player) == -(p * spec_score_sign(pos.player)));
    let balance = spec_material_balance(pos.bitboard);
    assert(balance * spec_score_sign(flipped.player) == -(balance * spec_score_sign(pos.player)));
}

/// With a knight, bishop, rook or queen on the board the evaluation is
/// zero-sum but for the tempo bonus.
pub proof fn lemma_eval_zero_sum(pos: Position, m: BitMask)
    requires
        pos.player == def::PLAYER_W || pos.player == def::PLAYER_B,
        spec_piece_mask(pos.bitboard) != 0,
    ensures
        spec_evaluate(spec_flip_player(pos), m) - TEMPO_VAL == -(spec_evaluate(pos, m)
            - TEMPO_VAL),
{
    lemma_pieces_decide_no_race(pos, m);
    lemma_eval_zero_sum_without_race(pos, m);
}

} // verus!
