//! Board constants, piece codes and small board-geometry helpers.

use vstd::prelude::*;

verus! {

pub const BOARD_SIZE: usize = 64;

/// Piece codes are below this bound, so a table indexed by piece code needs
/// this many columns.
pub const PIECE_CODE_RANGE: usize = 131;

pub const PLAYER_W: u8 = 2;

pub const PLAYER_B: u8 = 1;

pub const MOV_REG: u8 = 1;

pub const MOV_PROMO: u8 = 2;

pub const MOV_CAS: u8 = 3;

pub const MOV_ENP: u8 = 4;

pub const MOV_CR_ENP: u8 = 5;

pub const WP: u8 = 6;

pub const WN: u8 = 10;

pub const WB: u8 = 18;

pub const WR: u8 = 34;

pub const WQ: u8 = 66;

pub const WK: u8 = 130;

pub const BP: u8 = 5;

pub const BN: u8 = 9;

pub const BB: u8 = 17;

pub const BR: u8 = 33;

pub const BQ: u8 = 65;

pub const BK: u8 = 129;

/// White may still castle king side.
pub const CAS_WK: u8 = 8;

/// White may still castle queen side.
pub const CAS_WQ: u8 = 4;

/// Black may still castle king side.
pub const CAS_BK: u8 = 2;

/// Black may still castle queen side.
pub const CAS_BQ: u8 = 1;

pub const CAS_W_ALL: u8 = 12;

pub const CAS_B_ALL: u8 = 3;

pub const ENGINE_NAME: &'static str = "Corvid";

pub const VERSION: &'static str = "1.0";

pub const AUTHOR: &'static str = "the Corvid authors";

/// Smallest supported hash size, in table entries, and the size it stands for
/// in megabytes.
pub const MIN_HASH_SIZE_UNIT: usize = 65536;

pub const MIN_HASH_SIZE_MB: usize = 2;

pub const DEFAULT_HASH_SIZE_UNIT: usize = 4194304;

pub const DEFAULT_HASH_SIZE_MB: usize = 128;

pub const MAX_HASH_SIZE_MB: usize = 512;

pub open spec fn is_white_piece(piece: u8) -> bool {
    piece == WP || piece == WN || piece == WB || piece == WR || piece == WQ || piece == WK
}

pub open spec fn is_black_piece(piece: u8) -> bool {
    piece == BP || piece == BN || piece == BB || piece == BR || piece == BQ || piece == BK
}

pub open spec fn is_piece_code(piece: u8) -> bool {
    is_white_piece(piece) || is_black_piece(piece)
}

pub open spec fn spec_opposite_player(player: u8) -> u8 {
    if player == PLAYER_W {
        PLAYER_B
    } else {
        PLAYER_W
    }
}

pub open spec fn spec_rank(player: u8, index: usize) -> usize {
    if player == PLAYER_W {
        index / 8
    } else {
        (7 - index / 8) as usize
    }
}

pub open spec fn spec_file_distance(a: usize, b: usize) -> int {
    if a % 8 >= b % 8 {
        a % 8 - b % 8
    } else {
        b % 8 - a % 8
    }
}

/// Whether `piece` is a king of either colour.
pub fn is_k(piece: u8) -> (r: bool)
    ensures
        r == (piece == WK || piece == BK),
{
    piece == WK || piece == BK
}

/// Whether `piece` is a pawn of either colour.
pub fn is_p(piece: u8) -> (r: bool)
    ensures
        r == (piece == WP || piece == BP),
{
    piece == WP || piece == BP
}

/// Whether `piece` is one of the six white piece codes.
pub fn is_w(piece: u8) -> (r: bool)
    ensures
        r == is_white_piece(piece),
{
    piece == WP || piece == WN || piece == WB || piece == WR || piece == WQ || piece == WK
}

/// Whether `piece` is one of the six black piece codes.
pub fn is_b(piece: u8) -> (r: bool)
    ensures
        r == is_black_piece(piece),
{
    piece == BP || piece == BN || piece == BB || piece == BR || piece == BQ || piece == BK
}

/// The other player.
pub fn get_opposite_player(player: u8) -> (r: u8)
    ensures
        r == spec_opposite_player(player),
        r == PLAYER_W || r == PLAYER_B,
{
    if player == PLAYER_W {
        PLAYER_B
    } else {
        PLAYER_W
    }
}

/// Rank of a square counted from `player`'s own back rank, which is rank 0.
pub fn get_rank(player: u8, index: usize) -> (r: usize)
    requires
        index < BOARD_SIZE,
    ensures
        r == spec_rank(player, index),
        r < 8,
{
    if player == PLAYER_W {
        index / 8
    } else {
        7 - index / 8
    }
}

/// Number of files between two squares.
pub fn get_file_distance(a: usize, b: usize) -> (r: i32)
    ensures
        r == spec_file_distance(a, b),
        0 <= r < 8,
{
    let fa: usize = a % 8;
    let fb: usize = b % 8;
    if fa >= fb {
        (fa - fb) as i32
    } else {
        (fb - fa) as i32
    }
}

} // verus!
