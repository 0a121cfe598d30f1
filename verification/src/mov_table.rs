//! Attack detection and the generation of pseudo-legal moves.
//!
//! A pseudo-legal move follows the way its piece moves but may leave the
//! mover's own king attacked; whoever plays it tests for that afterwards.

use vstd::prelude::*;
use vstd::std_specs::bits::*;
use crate::bitboard::BitMask;
use crate::bits::{clear_lowest, lemma_clear_lowest};
use crate::def;
use crate::state::{Position, State};
use crate::util::{encode_u32_mov, get_highest_index, get_lowest_index, spec_encode};

verus! {

/// The squares of a ray towards higher indices, from the table entry of
/// `index` up to and with the first occupied square.
pub open spec fn spec_ray_low(table: [u64; 64], index: usize, occ: u64) -> u64 {
    let ray = table[index as int];
    if ray & occ != 0 {
        ray & !table[u64_trailing_zeros(ray & occ) as int]
    } else {
        ray
    }
}

/// The squares of a ray towards lower indices, from the table entry of
/// `index` down to and with the first occupied square.
pub open spec fn spec_ray_high(table: [u64; 64], index: usize, occ: u64) -> u64 {
    let ray = table[index as int];
    if ray & occ != 0 {
        ray & !table[63 - u64_leading_zeros(ray & occ)]
    } else {
        ray
    }
}

pub fn ray_low(table: &[u64; 64], index: usize, occ: u64) -> (r: u64)
    requires
        index < 64,
    ensures
        r == spec_ray_low(*table, index, occ),
{
    let ray: u64 = table[index];
    if ray & occ != 0 {
        ray & !table[get_lowest_index(ray & occ)]
    } else {
        ray
    }
}

pub fn ray_high(table: &[u64; 64], index: usize, occ: u64) -> (r: u64)
    requires
        index < 64,
    ensures
        r == spec_ray_high(*table, index, occ),
{
    let ray: u64 = table[index];
    if ray & occ != 0 {
        ray & !table[get_highest_index(ray & occ)]
    } else {
        ray
    }
}

/// Squares that a rook on `index` attacks when the squares of `occ` are
/// occupied.
pub open spec fn spec_rook_attacks(m: BitMask, index: usize, occ: u64) -> u64 {
    spec_ray_low(m.up_attack_masks, index, occ) | spec_ray_low(m.right_attack_masks, index, occ)
        | spec_ray_high(m.down_attack_masks, index, occ) | spec_ray_high(
        m.left_attack_masks,
        index,
        occ,
    )
}

/// Squares that a bishop on `index` attacks when the squares of `occ` are
/// occupied.
pub open spec fn spec_bishop_attacks(m: BitMask, index: usize, occ: u64) -> u64 {
    spec_ray_low(m.up_left_attack_masks, index, occ) | spec_ray_low(
        m.up_right_attack_masks,
        index,
        occ,
    ) | spec_ray_high(m.down_left_attack_masks, index, occ) | spec_ray_high(
        m.down_right_attack_masks,
        index,
        occ,
    )
}

pub fn rook_attacks(m: &BitMask, index: usize, occ: u64) -> (r: u64)
    requires
        index < 64,
    ensures
        r == spec_rook_attacks(*m, index, occ),
{
    ray_low(&m.up_attack_masks, index, occ) | ray_low(&m.right_attack_masks, index, occ)
        | ray_high(&m.down_attack_masks, index, occ) | ray_high(&m.left_attack_masks, index, occ)
}

pub fn bishop_attacks(m: &BitMask, index: usize, occ: u64) -> (r: u64)
    requires
        index < 64,
    ensures
        r == spec_bishop_attacks(*m, index, occ),
{
    ray_low(&m.up_left_attack_masks, index, occ) | ray_low(&m.up_right_attack_masks, index, occ)
        | ray_high(&m.down_left_attack_masks, index, occ) | ray_high(
        &m.down_right_attack_masks,
        index,
        occ,
    )
}

/// Pawns of `by` that attack `index`.
pub open spec fn spec_pawn_attackers(pos: Position, m: BitMask, index: usize, by: u8) -> u64 {
    if by == def::PLAYER_W {
        m.bp_attack_masks[index as int] & pos.bitboard.w_pawn
    } else {
        m.wp_attack_masks[index as int] & pos.bitboard.b_pawn
    }
}

/// Knights of `by` that attack `index`.
pub open spec fn spec_knight_attackers(pos: Position, m: BitMask, index: usize, by: u8) -> u64 {
    m.n_attack_masks[index as int] & (if by == def::PLAYER_W {
        pos.bitboard.w_knight
    } else {
        pos.bitboard.b_knight
    })
}

/// Bishops of `by` that attack `index`.
pub open spec fn spec_bishop_attackers(pos: Position, m: BitMask, index: usize, by: u8) -> u64 {
    spec_bishop_attacks(m, index, pos.bitboard.w_all | pos.bitboard.b_all) & (if by
        == def::PLAYER_W {
        pos.bitboard.w_bishop
    } else {
        pos.bitboard.b_bishop
    })
}

/// Rooks of `by` that attack `index`.
pub open spec fn spec_rook_attackers(pos: Position, m: BitMask, index: usize, by: u8) -> u64 {
    spec_rook_attacks(m, index, pos.bitboard.w_all | pos.bitboard.b_all) & (if by
        == def::PLAYER_W {
        pos.bitboard.w_rook
    } else {
        pos.bitboard.b_rook
    })
}

/// Queens of `by` that attack `index`.
pub open spec fn spec_queen_attackers(pos: Position, m: BitMask, index: usize, by: u8) -> u64 {
    (spec_rook_attacks(m, index, pos.bitboard.w_all | pos.bitboard.b_all) | spec_bishop_attacks(
        m,
        index,
        pos.bitboard.w_all | pos.bitboard.b_all,
    )) & (if by == def::PLAYER_W {
        pos.bitboard.w_queen
    } else {
        pos.bitboard.b_queen
    })
}

/// The square of the king of `player`.
pub open spec fn spec_king_index(pos: Position, player: u8) -> usize {
    if player == def::PLAYER_W {
        pos.wk_index
    } else {
        pos.bk_index
    }
}

/// Whether the king of `by` stands where its index says and next to
/// `index`.
pub open spec fn spec_king_attacks(pos: Position, m: BitMask, index: usize, by: u8) -> bool {
    let k = spec_king_index(pos, by);
    pos.squares[k as int] == (if by == def::PLAYER_W {
        def::WK
    } else {
        def::BK
    }) && m.k_attack_masks[index as int] & m.index_masks[k as int] != 0
}

/// Whether a piece of `by` attacks `index`.
#[verifier::opaque]
pub open spec fn spec_attacked(pos: Position, m: BitMask, index: usize, by: u8) -> bool {
    spec_pawn_attackers(pos, m, index, by) != 0 || spec_knight_attackers(pos, m, index, by) != 0
        || spec_bishop_attackers(pos, m, index, by) != 0 || spec_rook_attackers(
        pos,
        m,
        index,
        by,
    ) != 0 || spec_queen_attackers(pos, m, index, by) != 0 || spec_king_attacks(
        pos,
        m,
        index,
        by,
    )
}

/// Whether the king of `player` is attacked.
pub open spec fn spec_in_check(pos: Position, m: BitMask, player: u8) -> bool {
    spec_attacked(pos, m, spec_king_index(pos, player), def::spec_opposite_player(player))
}

pub fn pawn_attackers(state: &State, index: usize, by: u8) -> (r: u64)
    requires
        index < 64,
    ensures
        r == spec_pawn_attackers(state.pos, *state.bitmask, index, by),
{
    if by == def::PLAYER_W {
        state.bitmask.bp_attack_masks[index] & state.pos.bitboard.w_pawn
    } else {
        state.bitmask.wp_attack_masks[index] & state.pos.bitboard.b_pawn
    }
}

pub fn knight_attackers(state: &State, index: usize, by: u8) -> (r: u64)
    requires
        index < 64,
    ensures
        r == spec_knight_attackers(state.pos, *state.bitmask, index, by),
{
    state.bitmask.n_attack_masks[index] & (if by == def::PLAYER_W {
        state.pos.bitboard.w_knight
    } else {
        state.pos.bitboard.b_knight
    })
}

pub fn bishop_attackers(state: &State, index: usize, by: u8) -> (r: u64)
    requires
        index < 64,
    ensures
        r == spec_bishop_attackers(state.pos, *state.bitmask, index, by),
{
    bishop_attacks(state.bitmask, index, state.pos.bitboard.w_all | state.pos.bitboard.b_all) & (
    if by == def::PLAYER_W {
        state.pos.bitboard.w_bishop
    } else {
        state.pos.bitboard.b_bishop
    })
}

pub fn rook_attackers(state: &State, index: usize, by: u8) -> (r: u64)
    requires
        index < 64,
    ensures
        r == spec_rook_attackers(state.pos, *state.bitmask, index, by),
{
    rook_attacks(state.bitmask, index, state.pos.bitboard.w_all | state.pos.bitboard.b_all) & (
    if by == def::PLAYER_W {
        state.pos.bitboard.w_rook
    } else {
        state.pos.bitboard.b_rook
    })
}

pub fn queen_attackers(state: &State, index: usize, by: u8) -> (r: u64)
    requires
        index < 64,
    ensures
        r == spec_queen_attackers(state.pos, *state.bitmask, index, by),
{
    let occ: u64 = state.pos.bitboard.w_all | state.pos.bitboard.b_all;
    (rook_attacks(state.bitmask, index, occ) | bishop_attacks(state.bitmask, index, occ)) & (if by
        == def::PLAYER_W {
        state.pos.bitboard.w_queen
    } else {
        state.pos.bitboard.b_queen
    })
}

pub fn king_attacks(state: &State, index: usize, by: u8) -> (r: bool)
    requires
        state.pos.wf(),
        index < 64,
    ensures
        r == spec_king_attacks(state.pos, *state.bitmask, index, by),
{
    let k: usize = if by == def::PLAYER_W {
        state.pos.wk_index
    } else {
        state.pos.bk_index
    };
    let king: u8 = if by == def::PLAYER_W {
        def::WK
    } else {
        def::BK
    };
    state.pos.squares[k] == king && state.bitmask.k_attack_masks[index]
        & state.bitmask.index_masks[k] != 0
}

/// What a ray keeps up to its first occupied square is within the ray.
proof fn lemma_ray_within(ray: u64, beyond: u64)
    by (bit_vector)
    ensures
        (ray & !beyond) & !ray == 0,
        ray & !ray == 0,
{
}

/// Parts of four rays reach no piece that the whole rays do not reach.
proof fn lemma_rays_reach(
    a: u64,
    b: u64,
    c: u64,
    d: u64,
    pa: u64,
    pb: u64,
    pc: u64,
    pd: u64,
    x: u64,
    y: u64,
)
    by (bit_vector)
    requires
        pa & !a == 0,
        pb & !b == 0,
        pc & !c == 0,
        pd & !d == 0,
        (a | b | c | d) & (x | y) == 0,
    ensures
        (pa | pb | pc | pd) & x == 0,
        (pa | pb | pc | pd) & y == 0,
{
}

/// Attacks that reach no queen count for nothing among the queens.
proof fn lemma_queen_part(straight: u64, diagonal: u64, q: u64)
    by (bit_vector)
    ensures
        diagonal & q == 0 ==> (straight | diagonal) & q == straight & q,
        straight & q == 0 ==> (straight | diagonal) & q == diagonal & q,
        (straight | 0) & q == straight & q,
        (0 | diagonal) & q == diagonal & q,
        0u64 & q == 0,
{
}

/// The squares that a bishop on `index` attacks where a piece of `x` or
/// `y` stands on one of its rays; else nothing is worked out, nothing is
/// returned, and the bishop would attack no piece of `x` or `y`.
fn diagonal_attacks_on(m: &BitMask, index: usize, occ: u64, x: u64, y: u64) -> (r: u64)
    requires
        index < 64,
    ensures
        r == spec_bishop_attacks(*m, index, occ) || (r == 0 && spec_bishop_attacks(
            *m,
            index,
            occ,
        ) & x == 0 && spec_bishop_attacks(*m, index, occ) & y == 0),
{
    let a: u64 = m.up_left_attack_masks[index];
    let b: u64 = m.up_right_attack_masks[index];
    let c: u64 = m.down_left_attack_masks[index];
    let d: u64 = m.down_right_attack_masks[index];
    if (a | b | c | d) & (x | y) == 0 {
        proof {
            lemma_ray_within(a, m.up_left_attack_masks[u64_trailing_zeros(a & occ) as int]);
            lemma_ray_within(b, m.up_right_attack_masks[u64_trailing_zeros(b & occ) as int]);
            lemma_ray_within(c, m.down_left_attack_masks[63 - u64_leading_zeros(c & occ)]);
            lemma_ray_within(d, m.down_right_attack_masks[63 - u64_leading_zeros(d & occ)]);
            lemma_rays_reach(
                a,
                b,
                c,
                d,
                spec_ray_low(m.up_left_attack_masks, index, occ),
                spec_ray_low(m.up_right_attack_masks, index, occ),
                spec_ray_high(m.down_left_attack_masks, index, occ),
                spec_ray_high(m.down_right_attack_masks, index, occ),
                x,
                y,
            );
        }
        0
    } else {
        bishop_attacks(m, index, occ)
    }
}

/// The squares that a rook on `index` attacks where a piece of `x` or `y`
/// stands on one of its rays; else nothing is worked out, nothing is
/// returned, and the rook would attack no piece of `x` or `y`.
fn straight_attacks_on(m: &BitMask, index: usize, occ: u64, x: u64, y: u64) -> (r: u64)
    requires
        index < 64,
    ensures
        r == spec_rook_attacks(*m, index, occ) || (r == 0 && spec_rook_attacks(*m, index, occ) & x
            == 0 && spec_rook_attacks(*m, index, occ) & y == 0),
{
    let a: u64 = m.up_attack_masks[index];
    let b: u64 = m.right_attack_masks[index];
    let c: u64 = m.down_attack_masks[index];
    let d: u64 = m.left_attack_masks[index];
    if (a | b | c | d) & (x | y) == 0 {
        proof {
            lemma_ray_within(a, m.up_attack_masks[u64_trailing_zeros(a & occ) as int]);
            lemma_ray_within(b, m.right_attack_masks[u64_trailing_zeros(b & occ) as int]);
            lemma_ray_within(c, m.down_attack_masks[63 - u64_leading_zeros(c & occ)]);
            lemma_ray_within(d, m.left_attack_masks[63 - u64_leading_zeros(d & occ)]);
            lemma_rays_reach(
                a,
                b,
                c,
                d,
                spec_ray_low(m.up_attack_masks, index, occ),
                spec_ray_low(m.right_attack_masks, index, occ),
                spec_ray_high(m.down_attack_masks, index, occ),
                spec_ray_high(m.left_attack_masks, index, occ),
                x,
                y,
            );
        }
        0
    } else {
        rook_attacks(m, index, occ)
    }
}

/// Whether a piece of `by` attacks `index`. The rays from `index` are
/// followed only where a bishop, rook or queen of `by` stands on them.
pub fn is_attacked(state: &State, index: usize, by: u8) -> (r: bool)
    requires
        state.pos.wf(),
        index < 64,
    ensures
        r == spec_attacked(state.pos, *state.bitmask, index, by),
{
    reveal(spec_attacked);
    if pawn_attackers(state, index, by) != 0 || knight_attackers(state, index, by) != 0 {
        return true;
    }
    let b = &state.pos.bitboard;
    let white: bool = by == def::PLAYER_W;
    let occ: u64 = b.w_all | b.b_all;
    let bishops: u64 = if white { b.w_bishop } else { b.b_bishop };
    let rooks: u64 = if white { b.w_rook } else { b.b_rook };
    let queens: u64 = if white { b.w_queen } else { b.b_queen };
    let diagonal: u64 = diagonal_attacks_on(state.bitmask, index, occ, bishops, queens);
    let straight: u64 = straight_attacks_on(state.bitmask, index, occ, rooks, queens);
    proof {
        lemma_queen_part(
            spec_rook_attacks(*state.bitmask, index, occ),
            spec_bishop_attacks(*state.bitmask, index, occ),
            queens,
        );
        lemma_queen_part(straight, diagonal, queens);
        lemma_queen_part(0, 0, bishops);
        lemma_queen_part(0, 0, rooks);
    }
    diagonal & bishops != 0 || straight & rooks != 0 || (straight | diagonal) & queens != 0
        || king_attacks(state, index, by)
}

/// Whether the king of `player` is attacked.
pub fn is_in_check(state: &State, player: u8) -> (r: bool)
    requires
        state.pos.wf(),
    ensures
        r == spec_in_check(state.pos, *state.bitmask, player),
{
    let k: usize = if player == def::PLAYER_W {
        state.pos.wk_index
    } else {
        state.pos.bk_index
    };
    is_attacked(state, k, def::get_opposite_player(player))
}

/// The least valuable piece of `by` that attacks `to`, as the capture it
/// would make: the piece, the kind tag, the promotion piece and the square
/// it stands on. The piece is 0 where nothing of `by` attacks `to`.
#[verifier::opaque]
pub open spec fn spec_smallest_attacker(pos: Position, m: BitMask, to: usize, by: u8) -> (
    u8,
    u8,
    u8,
    usize,
) {
    let white = by == def::PLAYER_W;
    let pawns = spec_pawn_attackers(pos, m, to, by);
    let knights = spec_knight_attackers(pos, m, to, by);
    let bishops = spec_bishop_attackers(pos, m, to, by);
    let rooks = spec_rook_attackers(pos, m, to, by);
    let queens = spec_queen_attackers(pos, m, to, by);
    if pawns != 0 {
        if def::spec_rank(by, to) == 7 {
            (
                if white { def::WP } else { def::BP },
                def::MOV_PROMO,
                if white { def::WQ } else { def::BQ },
                u64_trailing_zeros(pawns) as usize,
            )
        } else {
            (
                if white { def::WP } else { def::BP },
                def::MOV_REG,
                0u8,
                u64_trailing_zeros(pawns) as usize,
            )
        }
    } else if knights != 0 {
        (
            if white { def::WN } else { def::BN },
            def::MOV_REG,
            0u8,
            u64_trailing_zeros(knights) as usize,
        )
    } else if bishops != 0 {
        (
            if white { def::WB } else { def::BB },
            def::MOV_REG,
            0u8,
            u64_trailing_zeros(bishops) as usize,
        )
    } else if rooks != 0 {
        (
            if white { def::WR } else { def::BR },
            def::MOV_REG,
            0u8,
            u64_trailing_zeros(rooks) as usize,
        )
    } else if queens != 0 {
        (
            if white { def::WQ } else { def::BQ },
            def::MOV_REG,
            0u8,
            u64_trailing_zeros(queens) as usize,
        )
    } else if spec_king_attacks(pos, m, to, by) {
        (if white { def::WK } else { def::BK }, def::MOV_REG, 0u8, spec_king_index(pos, by))
    } else {
        (0u8, 0u8, 0u8, 0usize)
    }
}

/// The least valuable piece of the player to move that attacks `to`.
pub fn get_smallest_attacker_index(state: &State, to: usize) -> (r: (u8, u8, u8, usize))
    requires
        state.pos.wf(),
        to < 64,
    ensures
        r == spec_smallest_attacker(state.pos, *state.bitmask, to, state.pos.player),
        r.0 == 0 <==> !spec_attacked(state.pos, *state.bitmask, to, state.pos.player),
        r.1 < 8,
        r.2 == 0 || r.2 == def::WQ || r.2 == def::BQ,
        r.3 < 64,
{
    reveal(spec_attacked);
    reveal(spec_smallest_attacker);
    let by: u8 = state.pos.player;
    let white: bool = by == def::PLAYER_W;
    let pawns: u64 = pawn_attackers(state, to, by);
    if pawns != 0 {
        let piece: u8 = if white { def::WP } else { def::BP };
        if def::get_rank(by, to) == 7 {
            let queen: u8 = if white { def::WQ } else { def::BQ };
            return (piece, def::MOV_PROMO, queen, get_lowest_index(pawns));
        }
        return (piece, def::MOV_REG, 0, get_lowest_index(pawns));
    }
    let knights: u64 = knight_attackers(state, to, by);
    if knights != 0 {
        return (if white { def::WN } else { def::BN }, def::MOV_REG, 0, get_lowest_index(knights));
    }
    let bishops: u64 = bishop_attackers(state, to, by);
    if bishops != 0 {
        return (if white { def::WB } else { def::BB }, def::MOV_REG, 0, get_lowest_index(bishops));
    }
    let rooks: u64 = rook_attackers(state, to, by);
    if rooks != 0 {
        return (if white { def::WR } else { def::BR }, def::MOV_REG, 0, get_lowest_index(rooks));
    }
    let queens: u64 = queen_attackers(state, to, by);
    if queens != 0 {
        return (if white { def::WQ } else { def::BQ }, def::MOV_REG, 0, get_lowest_index(queens));
    }
    if king_attacks(state, to, by) {
        let k: usize = if white { state.pos.wk_index } else { state.pos.bk_index };
        return (if white { def::WK } else { def::BK }, def::MOV_REG, 0, k);
    }
    (0, 0, 0, 0)
}

/// One move of kind `tp` from `from` to each square of `targets`, lowest
/// square first.
pub open spec fn spec_target_movs(from: usize, targets: u64, tp: u8) -> Seq<u32>
    decreases targets,
{
    if targets == 0 {
        Seq::empty()
    } else {
        proof {
            lemma_clear_lowest(targets);
        }
        seq![spec_encode(from, u64_trailing_zeros(targets) as usize, tp, 0)] + spec_target_movs(
            from,
            targets & ((targets - 1) as u64),
            tp,
        )
    }
}

/// The four promotions of a pawn of `player` that reaches `to`: to queen,
/// rook, bishop and knight, in this order.
pub open spec fn spec_promos_to(player: u8, from: usize, to: usize) -> Seq<u32> {
    let white = player == def::PLAYER_W;
    seq![
        spec_encode(from, to, def::MOV_PROMO, if white { def::WQ } else { def::BQ }),
        spec_encode(from, to, def::MOV_PROMO, if white { def::WR } else { def::BR }),
        spec_encode(from, to, def::MOV_PROMO, if white { def::WB } else { def::BB }),
        spec_encode(from, to, def::MOV_PROMO, if white { def::WN } else { def::BN }),
    ]
}

/// The promotions of a pawn of `player` on `from` to each square of
/// `targets`, lowest square first.
pub open spec fn spec_promo_movs(player: u8, from: usize, targets: u64) -> Seq<u32>
    decreases targets,
{
    if targets == 0 {
        Seq::empty()
    } else {
        proof {
            lemma_clear_lowest(targets);
        }
        spec_promos_to(player, from, u64_trailing_zeros(targets) as usize) + spec_promo_movs(
            player,
            from,
            targets & ((targets - 1) as u64),
        )
    }
}

fn push_targets(list: &mut Vec<u32>, from: usize, targets: u64, tp: u8)
    requires
        from < 64,
        0 < tp < 8,
    ensures
        final(list)@ == old(list)@ + spec_target_movs(from, targets, tp),
{
    let mut rest: u64 = targets;
    while rest != 0
        invariant
            from < 64,
            0 < tp < 8,
            list@ + spec_target_movs(from, rest, tp) == old(list)@ + spec_target_movs(
                from,
                targets,
                tp,
            ),
        decreases rest,
    {
        let to: usize = get_lowest_index(rest);
        let ghost before = list@;
        list.push(encode_u32_mov(from, to, tp, 0));
        let next: u64 = clear_lowest(rest);
        assert(list@ + spec_target_movs(from, next, tp) =~= before + spec_target_movs(
            from,
            rest,
            tp,
        ));
        rest = next;
    }
    assert(list@ + spec_target_movs(from, 0, tp) =~= list@);
}

fn push_promos(list: &mut Vec<u32>, player: u8, from: usize, targets: u64)
    requires
        from < 64,
    ensures
        final(list)@ == old(list)@ + spec_promo_movs(player, from, targets),
{
    let white: bool = player == def::PLAYER_W;
    let mut rest: u64 = targets;
    while rest != 0
        invariant
            from < 64,
            white == (player == def::PLAYER_W),
            list@ + spec_promo_movs(player, from, rest) == old(list)@ + spec_promo_movs(
                player,
                from,
                targets,
            ),
        decreases rest,
    {
        let to: usize = get_lowest_index(rest);
        let ghost before = list@;
        list.push(encode_u32_mov(from, to, def::MOV_PROMO, if white { def::WQ } else { def::BQ }));
        list.push(encode_u32_mov(from, to, def::MOV_PROMO, if white { def::WR } else { def::BR }));
        list.push(encode_u32_mov(from, to, def::MOV_PROMO, if white { def::WB } else { def::BB }));
        list.push(encode_u32_mov(from, to, def::MOV_PROMO, if white { def::WN } else { def::BN }));
        let next: u64 = clear_lowest(rest);
        assert(list@ =~= before + spec_promos_to(player, from, to));
        assert(list@ + spec_promo_movs(player, from, next) =~= before + spec_promo_movs(
            player,
            from,
            rest,
        ));
        rest = next;
    }
    assert(list@ + spec_promo_movs(player, from, 0) =~= list@);
}

/// All pieces of `player`.
pub open spec fn spec_own_mask(pos: Position, player: u8) -> u64 {
    if player == def::PLAYER_W {
        pos.bitboard.w_all
    } else {
        pos.bitboard.b_all
    }
}

/// All pieces of the opponent of `player`.
pub open spec fn spec_enemy_mask(pos: Position, player: u8) -> u64 {
    if player == def::PLAYER_W {
        pos.bitboard.b_all
    } else {
        pos.bitboard.w_all
    }
}

/// The square straight ahead of a pawn of `player` on `from`.
pub open spec fn spec_pawn_step(player: u8, from: usize) -> usize {
    if player == def::PLAYER_W {
        (from + 8) as usize
    } else {
        (from - 8) as usize
    }
}

/// The squares that a pawn of `player` on `from` attacks.
pub open spec fn spec_pawn_attacks(m: BitMask, player: u8, from: usize) -> u64 {
    if player == def::PLAYER_W {
        m.wp_attack_masks[from as int]
    } else {
        m.bp_attack_masks[from as int]
    }
}

/// The advances of the mover's pawn on `from`: one square ahead where that
/// is empty, as a promotion from the seventh rank; two squares from its
/// home rank where both are empty. With `captures_only` only the promotion
/// is left.
pub open spec fn spec_pawn_pushes(pos: Position, from: usize, captures_only: bool) -> Seq<u32> {
    let player = pos.player;
    let rank = def::spec_rank(player, from);
    let step = spec_pawn_step(player, from);
    if rank >= 7 || pos.squares[step as int] != 0 {
        Seq::empty()
    } else if rank == 6 {
        spec_promos_to(player, from, step)
    } else if captures_only {
        Seq::empty()
    } else if rank == 1 && pos.squares[spec_pawn_step(player, step) as int] == 0 {
        seq![
            spec_encode(from, step, def::MOV_REG, 0),
            spec_encode(from, spec_pawn_step(player, step), def::MOV_CR_ENP, 0),
        ]
    } else {
        seq![spec_encode(from, step, def::MOV_REG, 0)]
    }
}

/// The captures of the mover's pawn on `from`, as promotions from the
/// seventh rank, and after them the capture en passant where the position
/// allows one.
pub open spec fn spec_pawn_captures(pos: Position, m: BitMask, from: usize) -> Seq<u32> {
    let player = pos.player;
    let attacks = spec_pawn_attacks(m, player, from);
    let targets = attacks & spec_enemy_mask(pos, player);
    let taking = if def::spec_rank(player, from) == 6 {
        spec_promo_movs(player, from, targets)
    } else {
        spec_target_movs(from, targets, def::MOV_REG)
    };
    if pos.enp_square != 0 && attacks & (1u64 << (pos.enp_square as u64)) != 0
        && pos.squares[pos.enp_square as int] == 0 {
        taking + seq![spec_encode(from, pos.enp_square, def::MOV_ENP, 0)]
    } else {
        taking
    }
}

/// The squares that the piece on `from` attacks by the way it moves; empty
/// for a pawn or an empty square.
pub open spec fn spec_piece_attacks(pos: Position, m: BitMask, from: usize) -> u64 {
    let piece = pos.squares[from as int];
    let occ = pos.bitboard.w_all | pos.bitboard.b_all;
    if piece == def::WN || piece == def::BN {
        m.n_attack_masks[from as int]
    } else if piece == def::WB || piece == def::BB {
        spec_bishop_attacks(m, from, occ)
    } else if piece == def::WR || piece == def::BR {
        spec_rook_attacks(m, from, occ)
    } else if piece == def::WQ || piece == def::BQ {
        spec_rook_attacks(m, from, occ) | spec_bishop_attacks(m, from, occ)
    } else if piece == def::WK || piece == def::BK {
        m.k_attack_masks[from as int]
    } else {
        0
    }
}

/// The moves of whatever stands on `from`, taken as a piece of the player
/// to move. With `captures_only`, only captures and promotions.
#[verifier::opaque]
pub open spec fn spec_movs_from(pos: Position, m: BitMask, from: usize, captures_only: bool) -> Seq<
    u32,
> {
    let piece = pos.squares[from as int];
    if piece == def::WP || piece == def::BP {
        spec_pawn_pushes(pos, from, captures_only) + spec_pawn_captures(pos, m, from)
    } else if captures_only {
        spec_target_movs(
            from,
            spec_piece_attacks(pos, m, from) & spec_enemy_mask(pos, pos.player),
            def::MOV_REG,
        )
    } else {
        spec_target_movs(
            from,
            spec_piece_attacks(pos, m, from) & !spec_own_mask(pos, pos.player),
            def::MOV_REG,
        )
    }
}

/// The moves from each square of `pieces`, lowest square first.
pub open spec fn spec_movs_of(pos: Position, m: BitMask, pieces: u64, captures_only: bool) -> Seq<
    u32,
>
    decreases pieces,
{
    if pieces == 0 {
        Seq::empty()
    } else {
        proof {
            lemma_clear_lowest(pieces);
        }
        spec_movs_from(pos, m, u64_trailing_zeros(pieces) as usize, captures_only) + spec_movs_of(
            pos,
            m,
            pieces & ((pieces - 1) as u64),
            captures_only,
        )
    }
}

/// Castling to the king's side, where the mover may still do so, king and
/// rook stand at home with nothing between them, and neither the king's
/// square nor the one it passes is attacked.
pub open spec fn spec_castle_short(pos: Position, m: BitMask) -> Seq<u32> {
    let white = pos.player == def::PLAYER_W;
    let k: usize = if white { 4 } else { 60 };
    let right = if white { def::CAS_WK } else { def::CAS_BK };
    let enemy = def::spec_opposite_player(pos.player);
    if pos.cas_rights & right != 0 && pos.squares[k as int] == (if white { def::WK } else { def::BK })
        && pos.squares[k + 1] == 0 && pos.squares[k + 2] == 0 && pos.squares[k + 3] == (if white {
        def::WR
    } else {
        def::BR
    }) && !spec_attacked(pos, m, k, enemy) && !spec_attacked(pos, m, (k + 1) as usize, enemy) {
        seq![spec_encode(k, (k + 2) as usize, def::MOV_CAS, 0)]
    } else {
        Seq::empty()
    }
}

/// Castling to the queen's side, under the like conditions.
pub open spec fn spec_castle_long(pos: Position, m: BitMask) -> Seq<u32> {
    let white = pos.player == def::PLAYER_W;
    let k: usize = if white { 4 } else { 60 };
    let right = if white { def::CAS_WQ } else { def::CAS_BQ };
    let enemy = def::spec_opposite_player(pos.player);
    if pos.cas_rights & right != 0 && pos.squares[k as int] == (if white { def::WK } else { def::BK })
        && pos.squares[k - 1] == 0 && pos.squares[k - 2] == 0 && pos.squares[k - 3] == 0
        && pos.squares[k - 4] == (if white { def::WR } else { def::BR }) && !spec_attacked(
        pos,
        m,
        k,
        enemy,
    ) && !spec_attacked(pos, m, (k - 1) as usize, enemy) {
        seq![spec_encode(k, (k - 2) as usize, def::MOV_CAS, 0)]
    } else {
        Seq::empty()
    }
}

/// All pseudo-legal moves of the player to move: the moves of each of its
/// pieces, lowest square first, then castling.
#[verifier::opaque]
pub open spec fn spec_reg_mov_list(pos: Position, m: BitMask) -> Seq<u32> {
    spec_movs_of(pos, m, spec_own_mask(pos, pos.player), false) + spec_castle_short(pos, m)
        + spec_castle_long(pos, m)
}

/// The pseudo-legal captures and promotions of the player to move.
#[verifier::opaque]
pub open spec fn spec_capture_list(pos: Position, m: BitMask) -> Seq<u32> {
    spec_movs_of(pos, m, spec_own_mask(pos, pos.player), true)
}

fn push_pawn_pushes(state: &State, list: &mut Vec<u32>, from: usize, captures_only: bool)
    requires
        from < 64,
    ensures
        final(list)@ == old(list)@ + spec_pawn_pushes(state.pos, from, captures_only),
{
    let player: u8 = state.pos.player;
    let white: bool = player == def::PLAYER_W;
    let rank: usize = def::get_rank(player, from);
    if rank < 7 {
        let step: usize = if white { from + 8 } else { from - 8 };
        if state.pos.squares[step] == 0 {
            if rank == 6 {
                list.push(encode_u32_mov(from, step, def::MOV_PROMO, if white { def::WQ } else { def::BQ }));
                list.push(encode_u32_mov(from, step, def::MOV_PROMO, if white { def::WR } else { def::BR }));
                list.push(encode_u32_mov(from, step, def::MOV_PROMO, if white { def::WB } else { def::BB }));
                list.push(encode_u32_mov(from, step, def::MOV_PROMO, if white { def::WN } else { def::BN }));
            } else if !captures_only {
                list.push(encode_u32_mov(from, step, def::MOV_REG, 0));
                if rank == 1 {
                    let jump: usize = if white { step + 8 } else { step - 8 };
                    if state.pos.squares[jump] == 0 {
                        list.push(encode_u32_mov(from, jump, def::MOV_CR_ENP, 0));
                    }
                }
            }
        }
    }
    assert(list@ =~= old(list)@ + spec_pawn_pushes(state.pos, from, captures_only));
}

fn push_pawn_captures(state: &State, list: &mut Vec<u32>, from: usize)
    requires
        from < 64,
        state.pos.enp_square < 64,
    ensures
        final(list)@ == old(list)@ + spec_pawn_captures(state.pos, *state.bitmask, from),
{
    let player: u8 = state.pos.player;
    let white: bool = player == def::PLAYER_W;
    let rank: usize = def::get_rank(player, from);
    let attacks: u64 = if white {
        state.bitmask.wp_attack_masks[from]
    } else {
        state.bitmask.bp_attack_masks[from]
    };
    let enemy: u64 = if white { state.pos.bitboard.b_all } else { state.pos.bitboard.w_all };
    if rank == 6 {
        push_promos(list, player, from, attacks & enemy);
    } else {
        push_targets(list, from, attacks & enemy, def::MOV_REG);
    }
    let enp: usize = state.pos.enp_square;
    if enp != 0 && attacks & (1u64 << (enp as u64)) != 0 && state.pos.squares[enp] == 0 {
        list.push(encode_u32_mov(from, enp, def::MOV_ENP, 0));
    }
    assert(list@ =~= old(list)@ + spec_pawn_captures(state.pos, *state.bitmask, from));
}

fn push_pawn_movs(state: &State, list: &mut Vec<u32>, from: usize, captures_only: bool)
    requires
        from < 64,
        state.pos.enp_square < 64,
    ensures
        final(list)@ == old(list)@ + (spec_pawn_pushes(state.pos, from, captures_only)
            + spec_pawn_captures(state.pos, *state.bitmask, from)),
{
    push_pawn_pushes(state, list, from, captures_only);
    push_pawn_captures(state, list, from);
    assert(list@ =~= old(list)@ + (spec_pawn_pushes(state.pos, from, captures_only)
        + spec_pawn_captures(state.pos, *state.bitmask, from)));
}

fn piece_attacks(state: &State, from: usize) -> (r: u64)
    requires
        from < 64,
    ensures
        r == spec_piece_attacks(state.pos, *state.bitmask, from),
{
    let piece: u8 = state.pos.squares[from];
    let occ: u64 = state.pos.bitboard.w_all | state.pos.bitboard.b_all;
    if piece == def::WN || piece == def::BN {
        state.bitmask.n_attack_masks[from]
    } else if piece == def::WB || piece == def::BB {
        bishop_attacks(state.bitmask, from, occ)
    } else if piece == def::WR || piece == def::BR {
        rook_attacks(state.bitmask, from, occ)
    } else if piece == def::WQ || piece == def::BQ {
        rook_attacks(state.bitmask, from, occ) | bishop_attacks(state.bitmask, from, occ)
    } else if piece == def::WK || piece == def::BK {
        state.bitmask.k_attack_masks[from]
    } else {
        0
    }
}

fn push_movs_from(state: &State, list: &mut Vec<u32>, from: usize, captures_only: bool)
    requires
        state.pos.wf(),
        from < 64,
    ensures
        final(list)@ == old(list)@ + spec_movs_from(
            state.pos,
            *state.bitmask,
            from,
            captures_only,
        ),
{
    reveal(spec_movs_from);
    let piece: u8 = state.pos.squares[from];
    let white: bool = state.pos.player == def::PLAYER_W;
    if def::is_p(piece) {
        push_pawn_movs(state, list, from, captures_only);
    } else if captures_only {
        let enemy: u64 = if white { state.pos.bitboard.b_all } else { state.pos.bitboard.w_all };
        push_targets(list, from, piece_attacks(state, from) & enemy, def::MOV_REG);
    } else {
        let own: u64 = if white { state.pos.bitboard.w_all } else { state.pos.bitboard.b_all };
        push_targets(list, from, piece_attacks(state, from) & !own, def::MOV_REG);
    }
}

fn push_piece_movs(state: &State, list: &mut Vec<u32>, captures_only: bool)
    requires
        state.pos.wf(),
    ensures
        final(list)@ == old(list)@ + spec_movs_of(
            state.pos,
            *state.bitmask,
            spec_own_mask(state.pos, state.pos.player),
            captures_only,
        ),
{
    let own: u64 = if state.pos.player == def::PLAYER_W {
        state.pos.bitboard.w_all
    } else {
        state.pos.bitboard.b_all
    };
    let mut rest: u64 = own;
    while rest != 0
        invariant
            state.pos.wf(),
            list@ + spec_movs_of(state.pos, *state.bitmask, rest, captures_only) == old(list)@
                + spec_movs_of(state.pos, *state.bitmask, own, captures_only),
        decreases rest,
    {
        let from: usize = get_lowest_index(rest);
        let ghost before = list@;
        push_movs_from(state, list, from, captures_only);
        let next: u64 = clear_lowest(rest);
        assert(list@ + spec_movs_of(state.pos, *state.bitmask, next, captures_only) =~= before
            + spec_movs_of(state.pos, *state.bitmask, rest, captures_only));
        rest = next;
    }
    assert(list@ + spec_movs_of(state.pos, *state.bitmask, 0, captures_only) =~= list@);
}

fn push_castles(state: &State, list: &mut Vec<u32>)
    requires
        state.pos.wf(),
    ensures
        final(list)@ == old(list)@ + spec_castle_short(state.pos, *state.bitmask)
            + spec_castle_long(state.pos, *state.bitmask),
{
    let white: bool = state.pos.player == def::PLAYER_W;
    let k: usize = if white { 4 } else { 60 };
    let king: u8 = if white { def::WK } else { def::BK };
    let rook: u8 = if white { def::WR } else { def::BR };
    let enemy: u8 = def::get_opposite_player(state.pos.player);
    let short: u8 = if white { def::CAS_WK } else { def::CAS_BK };
    let long: u8 = if white { def::CAS_WQ } else { def::CAS_BQ };
    let ghost start = list@;
    if state.pos.cas_rights & short != 0 && state.pos.squares[k] == king && state.pos.squares[k
        + 1] == 0 && state.pos.squares[k + 2] == 0 && state.pos.squares[k + 3] == rook
        && !is_attacked(state, k, enemy) && !is_attacked(state, k + 1, enemy) {
        list.push(encode_u32_mov(k, k + 2, def::MOV_CAS, 0));
    }
    assert(list@ =~= start + spec_castle_short(state.pos, *state.bitmask));
    let ghost mid = list@;
    if state.pos.cas_rights & long != 0 && state.pos.squares[k] == king && state.pos.squares[k
        - 1] == 0 && state.pos.squares[k - 2] == 0 && state.pos.squares[k - 3] == 0
        && state.pos.squares[k - 4] == rook && !is_attacked(state, k, enemy) && !is_attacked(
        state,
        k - 1,
        enemy,
    ) {
        list.push(encode_u32_mov(k, k - 2, def::MOV_CAS, 0));
    }
    assert(list@ =~= mid + spec_castle_long(state.pos, *state.bitmask));
}

/// All pseudo-legal moves of the player to move.
pub fn gen_reg_mov_list(state: &State) -> (list: Vec<u32>)
    requires
        state.pos.wf(),
    ensures
        list@ == spec_reg_mov_list(state.pos, *state.bitmask),
{
    reveal(spec_reg_mov_list);
    let mut list: Vec<u32> = Vec::with_capacity(64);
    push_piece_movs(state, &mut list, false);
    push_castles(state, &mut list);
    assert(list@ =~= spec_reg_mov_list(state.pos, *state.bitmask));
    list
}

/// The pseudo-legal captures and promotions of the player to move.
pub fn gen_capture_list(state: &State) -> (list: Vec<u32>)
    requires
        state.pos.wf(),
    ensures
        list@ == spec_capture_list(state.pos, *state.bitmask),
{
    reveal(spec_capture_list);
    let mut list: Vec<u32> = Vec::with_capacity(16);
    push_piece_movs(state, &mut list, true);
    assert(list@ =~= spec_capture_list(state.pos, *state.bitmask));
    list
}

} // verus!
