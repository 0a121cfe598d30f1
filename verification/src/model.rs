//! The search as a function: what a search that is not stopped returns and
//! what it leaves in the engine's tables, given what the tables held before.
//!
//! The clock is the one thing that a search depends on beside its
//! arguments, and it can do no more than stop the search. So a search that
//! was not stopped has done what these functions say, step by step.

use vstd::prelude::*;
use crate::bitboard::BitMask;
use crate::def;
use crate::eval;
use crate::hash_tbl::{
    spec_lookup, LookupResult, TableEntry, HASH_TYPE_ALPHA, HASH_TYPE_BETA, HASH_TYPE_EXACT,
};
use crate::mov_table;
use crate::search::{
    spec_after, spec_capture_gain, spec_futility, spec_has_legal_mov, spec_history_after, spec_in_endgame,
    spec_insert_scored, spec_is_passed_pawn, spec_killers_after, spec_mate_distance, spec_mov_is_legal, spec_see,
    spec_mate_in, spec_static_eval, KillerSlot, DELTA_MARGIN, EXTENDED_WINDOW_SIZE, FP_DEPTH,
    IID_DEPTH, IID_R, KILLER_BASE_SCORE, MAX_DEPTH, MAX_NON_CAP_SCORE, NM_DEPTH, NM_R, PRIMARY_KILLER_SCORE,
    PV_PRINT_LENGTH, PV_TRACK_LENGTH, SCORE_LIMIT, SECONDARY_KILLER_SCORE, WINDOW_SIZE,
};
use crate::state::{spec_do_mov, spec_drawn, Position, State};
use crate::util;

verus! {

/// What a search reads of the engine and writes to it.
pub struct EngineView {
    pub depth_preferred: Seq<TableEntry>,
    pub always_replace: Seq<TableEntry>,
    pub primary_killers: Seq<KillerSlot>,
    pub secondary_killers: Seq<KillerSlot>,
    pub history: Seq<i32>,
    pub node_count: u64,
    pub sel_depth: u8,
}

/// The game as a search sees it: the position, the positions before it, and
/// the tables that moves and attacks are worked out with.
pub struct GameView {
    pub pos: Position,
    pub earlier: Seq<Position>,
    pub zob_keys: Seq<Vec<u64>>,
    pub masks: BitMask,
}

/// The game after a move.
pub open spec fn game_after(g: GameView, mov: u32) -> GameView {
    GameView {
        pos: spec_do_mov(
            g.pos,
            g.zob_keys,
            util::mov_from(mov),
            util::mov_to(mov),
            util::mov_kind(mov),
            util::mov_promo(mov),
        ),
        earlier: g.earlier.push(g.pos),
        ..g
    }
}

/// The game after the player to move has passed.
pub open spec fn game_after_pass(g: GameView) -> GameView {
    GameView {
        pos: Position {
            enp_square: 0,
            player: def::spec_opposite_player(g.pos.player),
            ..g.pos
        },
        earlier: g.earlier.push(g.pos),
        ..g
    }
}

/// The game that a state holds.
pub open spec fn game_of(state: &State) -> GameView {
    GameView {
        pos: state.pos,
        earlier: state.history@,
        zob_keys: state.zob_keys@,
        masks: *state.bitmask,
    }
}

/// What a probe of one table finds.
pub open spec fn table_get(entries: Seq<TableEntry>, pos: Position, depth: u8) -> LookupResult {
    spec_lookup(
        entries[pos.hash_key as int % entries.len() as int],
        pos.hash_key,
        pos.player,
        depth,
        pos.cas_rights,
        pos.enp_square,
    )
}

/// What a probe of the two tables finds: what the depth-preferred table
/// holds, and where that is nothing, what the always-replace table holds.
pub open spec fn view_get_hash(v: EngineView, pos: Position, depth: u8) -> LookupResult {
    match table_get(v.depth_preferred, pos, depth) {
        LookupResult::NoMatch => table_get(v.always_replace, pos, depth),
        found => found,
    }
}

/// The tables once a result is stored: in the depth-preferred table unless
/// its slot holds a deeper result, and then in the always-replace table.
pub open spec fn view_set_hash(
    v: EngineView,
    pos: Position,
    depth: u8,
    flag: u8,
    score: i32,
    mov: u32,
) -> EngineView {
    let entry = TableEntry {
        used: true,
        key: pos.hash_key,
        player: pos.player,
        depth,
        cas_rights: pos.cas_rights,
        enp_sqr: pos.enp_square,
        flag,
        score,
        mov,
    };
    let slot = pos.hash_key as int % v.depth_preferred.len() as int;
    if !v.depth_preferred[slot].used || v.depth_preferred[slot].depth <= depth {
        EngineView { depth_preferred: v.depth_preferred.update(slot, entry), ..v }
    } else {
        EngineView {
            always_replace: v.always_replace.update(
                pos.hash_key as int % v.always_replace.len() as int,
                entry,
            ),
            ..v
        }
    }
}

/// The engine with one more node counted, up to the largest count.
pub open spec fn view_count_node(v: EngineView) -> EngineView {
    EngineView {
        node_count: if v.node_count < u64::MAX {
            (v.node_count + 1) as u64
        } else {
            v.node_count
        },
        ..v
    }
}

/// The two killer moves to try at `ply`.
pub open spec fn view_killer_mov(v: EngineView, ply: u8) -> (u32, u32) {
    if ply >= PV_TRACK_LENGTH {
        (0u32, 0u32)
    } else if v.primary_killers[ply as int].mov == 0 && ply > 2 {
        (v.primary_killers[ply - 2].mov, v.secondary_killers[ply - 2].mov)
    } else if v.secondary_killers[ply as int].mov == 0 && ply > 2 {
        (v.primary_killers[ply as int].mov, v.primary_killers[ply - 2].mov)
    } else {
        (v.primary_killers[ply as int].mov, v.secondary_killers[ply as int].mov)
    }
}

/// The engine once a quiet move has cut off at `ply`.
pub open spec fn view_update_killer(v: EngineView, score: i32, ply: u8, mov: u32) -> EngineView {
    if ply >= PV_TRACK_LENGTH {
        v
    } else {
        let slots = spec_killers_after(
            v.primary_killers[ply as int],
            v.secondary_killers[ply as int],
            score,
            mov,
        );
        EngineView {
            primary_killers: v.primary_killers.update(ply as int, slots.0),
            secondary_killers: v.secondary_killers.update(ply as int, slots.1),
            ..v
        }
    }
}

/// The engine once the quiet move from `from` to `to` has cut off at
/// `depth`.
pub open spec fn view_update_history(v: EngineView, depth: u8, from: usize, to: usize) -> EngineView {
    EngineView {
        history: v.history.update(
            from * 64 + to,
            spec_history_after(v.history[from * 64 + to], depth),
        ),
        ..v
    }
}

/// The largest `r` with `r * r <= n`, looked for from `r` upwards.
pub open spec fn spec_isqrt_from(n: nat, r: nat) -> nat
    decreases n - r,
{
    if (r + 1) * (r + 1) > n || r >= n {
        r
    } else {
        spec_isqrt_from(n, r + 1)
    }
}

/// The largest `r` with `r * r <= n`.
pub open spec fn spec_isqrt(n: nat) -> nat {
    spec_isqrt_from(n, 0)
}

/// What a move is ordered by: a capture by its exchange value and a
/// promotion by the worth of the new piece, both raised above every quiet
/// move; the two killer moves next, raised above every other quiet move;
/// any other move by its history score.
pub open spec fn spec_order_score(
    history: Seq<i32>,
    pos: Position,
    zob_keys: Seq<Vec<u64>>,
    m: BitMask,
    mov: u32,
    killers: (u32, u32),
) -> int {
    let from = util::mov_from(mov);
    let to = util::mov_to(mov);
    let promo = util::mov_promo(mov);
    if pos.squares[to as int] != 0 {
        MAX_NON_CAP_SCORE + spec_see(pos, zob_keys, m, from, to, util::mov_kind(mov), promo)
    } else if promo != 0 {
        MAX_NON_CAP_SCORE + eval::spec_val_of(promo)
    } else if mov == killers.0 {
        KILLER_BASE_SCORE + PRIMARY_KILLER_SCORE
    } else if mov == killers.1 {
        KILLER_BASE_SCORE + SECONDARY_KILLER_SCORE
    } else {
        history[from * 64 + to] as int
    }
}

/// The first `k` moves of `movs` but for `skip`, each with what it is
/// ordered by, best first; of two moves with the same score the earlier
/// stays first.
pub open spec fn spec_ordered(
    history: Seq<i32>,
    pos: Position,
    zob_keys: Seq<Vec<u64>>,
    m: BitMask,
    movs: Seq<u32>,
    k: nat,
    skip: u32,
    killers: (u32, u32),
) -> Seq<(i32, u32)>
    decreases k,
{
    if k == 0 || k > movs.len() {
        Seq::empty()
    } else {
        let before = spec_ordered(history, pos, zob_keys, m, movs, (k - 1) as nat, skip, killers);
        let mov = movs[k - 1];
        if mov == skip {
            before
        } else {
            spec_insert_scored(
                before,
                (spec_order_score(history, pos, zob_keys, m, mov, killers) as i32, mov),
            )
        }
    }
}

/// The first `k` captures of `caps` that may win at least `delta` and do
/// not lose material in the exchange, each with its exchange value, best
/// first.
pub open spec fn spec_ordered_captures(
    pos: Position,
    zob_keys: Seq<Vec<u64>>,
    m: BitMask,
    caps: Seq<u32>,
    k: nat,
    delta: int,
) -> Seq<(i32, u32)>
    decreases k,
{
    if k == 0 || k > caps.len() {
        Seq::empty()
    } else {
        let before = spec_ordered_captures(pos, zob_keys, m, caps, (k - 1) as nat, delta);
        let cap = caps[k - 1];
        if spec_capture_gain(pos, cap) < delta || spec_see(
            pos,
            zob_keys,
            m,
            util::mov_from(cap),
            util::mov_to(cap),
            util::mov_kind(cap),
            util::mov_promo(cap),
        ) < 0 {
            before
        } else {
            spec_insert_scored(
                before,
                (
                    spec_see(
                        pos,
                        zob_keys,
                        m,
                        util::mov_from(cap),
                        util::mov_to(cap),
                        util::mov_kind(cap),
                        util::mov_promo(cap),
                    ) as i32,
                    cap,
                ),
            )
        }
    }
}

/// What settles a node on entering it, before the window is looked at: a
/// position in which the player who has just moved stands in check scores
/// as a mate for the player to move; after the root a drawn position scores
/// 0; at the last ply that is searched a position scores what it is worth
/// without looking ahead.
pub open spec fn spec_enter(g: GameView, ply: u8) -> Option<i32> {
    if mov_table::spec_in_check(g.pos, g.masks, def::spec_opposite_player(g.pos.player)) {
        Some((eval::MATE_VAL - ply) as i32)
    } else if ply > 0 && spec_drawn(g.pos, g.earlier) {
        Some(0i32)
    } else if ply >= PV_TRACK_LENGTH {
        Some(spec_static_eval(g.pos, g.masks) as i32)
    } else {
        None
    }
}

/// What a probe of the transposition tables settles: beyond ply 1 a result
/// that was searched deep enough gives the score where it is exact, the
/// bound of the window that it lies beyond where it is a bound, and a
/// narrower window where it is a bound within the window. With it come the
/// window and the stored move.
pub open spec fn spec_probe_hash(
    v: EngineView,
    pos: Position,
    alpha: i32,
    beta: i32,
    depth: u8,
    ply: u8,
) -> (Option<i32>, i32, i32, u32) {
    match view_get_hash(v, pos, depth) {
        LookupResult::Match(flag, score, mov) => {
            if ply <= 1 {
                (None, alpha, beta, mov)
            } else if flag == HASH_TYPE_EXACT {
                (Some(score), alpha, beta, mov)
            } else if flag == HASH_TYPE_ALPHA {
                if score <= alpha {
                    (Some(alpha), alpha, beta, mov)
                } else if score < beta {
                    (None, alpha, score, mov)
                } else {
                    (None, alpha, beta, mov)
                }
            } else if flag == HASH_TYPE_BETA {
                if score >= beta {
                    (Some(beta), alpha, beta, mov)
                } else if score > alpha {
                    (None, score, beta, mov)
                } else {
                    (None, alpha, beta, mov)
                }
            } else {
                (None, alpha, beta, mov)
            }
        },
        LookupResult::MovOnly(mov) => (None, alpha, beta, mov),
        LookupResult::NoMatch => (None, alpha, beta, 0u32),
    }
}

/// What a node that has tried all its moves returns, and the tables with
/// what it has found: the score as exact where a move raised `alpha`, else
/// the best score as an upper bound. Where the best score is a mate against
/// the player to move, who is not in check and has no legal move, the node
/// is a stalemate: it scores 0, which is stored as exact at any depth.
#[verifier::opaque]
pub open spec fn spec_finish(
    v: EngineView,
    g: GameView,
    in_check: bool,
    raised: bool,
    alpha: i32,
    best_score: i32,
    best_mov: u32,
    depth: u8,
) -> (i32, EngineView) {
    let stored = if raised {
        view_set_hash(v, g.pos, depth, HASH_TYPE_EXACT, alpha, best_mov)
    } else {
        view_set_hash(v, g.pos, depth, HASH_TYPE_ALPHA, best_score, best_mov)
    };
    if best_score < -eval::TERM_VAL && !in_check && !spec_has_legal_mov(
        g.pos,
        g.zob_keys,
        g.masks,
    ) {
        (0i32, view_set_hash(stored, g.pos, MAX_DEPTH, HASH_TYPE_EXACT, 0, 0))
    } else {
        (alpha, stored)
    }
}

/// The depth that a late, quiet move is first searched to: less than its
/// turn by the square root of half the sum of depth and move count.
pub open spec fn spec_reduced_depth(depth: u8, mov_count: usize) -> u8 {
    let late = if mov_count > 1000 {
        1000
    } else {
        mov_count as int
    };
    let root = spec_isqrt(((depth + late) / 2) as nat);
    if root >= depth {
        0u8
    } else {
        (depth - root) as u8
    }
}

/// The score of a searched position for the player who moved into it.
pub open spec fn negated(r: (i32, EngineView)) -> i32 {
    (-r.0) as i32
}

/// How a node opens: the score where it is settled without a move being
/// searched, the window that is left, the move that the tables hold for it,
/// and whether it goes on with the quiescence search, with a pass, or with
/// a shallower search for a move to start with.
pub struct Opening {
    pub settled: Option<i32>,
    pub lower: i32,
    pub upper: i32,
    pub hash_mov: u32,
    pub quiesce: bool,
    pub try_pass: bool,
    pub deepen: bool,
}

/// An opening that settles the node with `score`.
pub open spec fn settled_with(score: Option<i32>, lower: i32, upper: i32, hash_mov: u32) -> Opening {
    Opening {
        settled: score,
        lower,
        upper,
        hash_mov,
        quiesce: false,
        try_pass: false,
        deepen: false,
    }
}

/// How a node opens. It is settled on entering (see `spec_enter`); else by
/// the mates that are still possible at its ply; else by what the tables
/// hold for it; else, at a shallow depth and unless the player to move is in
/// check, is searched deeper than its turn or the game is an endgame, by a
/// lead in material that cannot be lost within the depth. A node that is not
/// settled goes on with the quiescence search at depth 0; it tries a pass
/// from a depth of `NM_DEPTH` on under the same terms as the material test;
/// and it looks for a move to start with, from a depth of `IID_DEPTH` on,
/// where the window is wider than one point and the tables hold no move.
#[verifier::opaque]
pub open spec fn spec_open_node(
    v: EngineView,
    g: GameView,
    in_check: bool,
    on_extend: bool,
    alpha: i32,
    beta: i32,
    depth: u8,
    ply: u8,
) -> Opening {
    let narrowed = spec_mate_distance(alpha, beta, ply);
    let probed = spec_probe_hash(v, g.pos, narrowed.1, narrowed.2, depth, ply);
    let calm = ply > 0 && !on_extend && !in_check && !spec_in_endgame(g.pos);
    if spec_enter(g, ply).is_some() {
        settled_with(spec_enter(g, ply), alpha, beta, 0)
    } else if narrowed.0.is_some() {
        settled_with(narrowed.0, narrowed.1, narrowed.2, 0)
    } else if probed.0.is_some() {
        settled_with(probed.0, probed.1, probed.2, probed.3)
    } else {
        Opening {
            settled: if depth != 0 && calm && depth <= FP_DEPTH {
                spec_futility(g.pos, g.masks, probed.2, depth)
            } else {
                None
            },
            lower: probed.1,
            upper: probed.2,
            hash_mov: probed.3,
            quiesce: depth == 0,
            try_pass: calm && depth >= NM_DEPTH,
            deepen: beta > alpha + 1 && probed.3 == 0 && depth >= IID_DEPTH,
        }
    }
}

/// What the quiescence search finds before it follows a capture: whether
/// the position is illegal, whether the player to move is in check, the
/// score where the position is settled, and else the lower bound that the
/// evaluation leaves and the captures to follow.
pub struct Stand {
    pub illegal: bool,
    pub in_check: bool,
    pub settled: Option<i32>,
    pub lower: i32,
    pub captures: Seq<(i32, u32)>,
}

/// What the quiescence search finds before it follows a capture. A
/// position is settled with 0 where the material makes a draw, with `beta`
/// where the material alone is beyond it by the margin, and with the
/// evaluation where that reaches `beta` or the last ply is reached. Else
/// the captures and promotions that may lift the score to within the
/// margin of the lower bound are to be followed, best exchange first.
#[verifier::opaque]
pub open spec fn spec_stand(g: GameView, alpha: i32, beta: i32, ply: u8) -> Stand {
    let material = eval::spec_eval_materials(g.pos);
    let score = eval::spec_eval_state(g.pos, g.masks, material.0) as i32;
    let lower = if score > alpha {
        score
    } else {
        alpha
    };
    let caps = mov_table::spec_capture_list(g.pos, g.masks);
    let nothing = Stand {
        illegal: false,
        in_check: false,
        settled: None,
        lower: alpha,
        captures: Seq::empty(),
    };
    if mov_table::spec_in_check(g.pos, g.masks, def::spec_opposite_player(g.pos.player)) {
        Stand { illegal: true, ..nothing }
    } else if mov_table::spec_in_check(g.pos, g.masks, g.pos.player) {
        Stand { in_check: true, ..nothing }
    } else if material.1 {
        Stand { settled: Some(0i32), ..nothing }
    } else if material.0 - DELTA_MARGIN >= beta {
        Stand { settled: Some(beta), ..nothing }
    } else if score >= beta || ply >= PV_TRACK_LENGTH {
        Stand { settled: Some(score), ..nothing }
    } else {
        Stand {
            lower,
            captures: spec_ordered_captures(
                g.pos,
                g.zob_keys,
                g.masks,
                caps,
                caps.len(),
                lower - score - DELTA_MARGIN,
            ),
            ..nothing
        }
    }
}

/// How a move is searched: whether it gives check, whether it is searched
/// one ply deeper, the depth that it counts as searched to, and whether it
/// is first searched less deep, and how deep.
pub struct ChildPlan {
    pub gives_check: bool,
    pub extended: bool,
    pub deep: u8,
    pub late: bool,
    pub reduced: u8,
}

/// How the move that has led to `after` and gone to the square `to` is
/// searched. A move that gives check or pushes a passed pawn on is searched
/// one ply deeper. A move behind the first that does neither and is no good
/// capture is first searched less deep, the more so the later it comes and
/// the deeper the search.
#[verifier::opaque]
pub open spec fn spec_child_plan(
    after: GameView,
    to: usize,
    first: bool,
    good_capture: bool,
    mov_count: usize,
    depth: u8,
) -> ChildPlan {
    let gives_check = mov_table::spec_in_check(after.pos, after.masks, after.pos.player);
    let is_passer = spec_is_passed_pawn(after.pos, after.masks, after.pos.squares[to as int], to);
    let deep = if gives_check || is_passer {
        (depth + 1) as u8
    } else {
        depth
    };
    ChildPlan {
        gives_check,
        extended: gives_check || is_passer,
        deep,
        late: !first && deep > 1 && mov_count > 1 && !gives_check && !good_capture && !is_passer,
        reduced: spec_reduced_depth(deep, mov_count),
    }
}

/// The engine once a move has cut off: a quiet move is noted in the history
/// and killer tables, and every move is stored in the transposition tables
/// with its score as a lower bound.
#[verifier::opaque]
pub open spec fn spec_cutoff(
    v: EngineView,
    pos: Position,
    mov: u32,
    score: i32,
    searched: u8,
    ply: u8,
) -> EngineView {
    let from = util::mov_from(mov);
    let to = util::mov_to(mov);
    let noted = if pos.squares[to as int] == 0 && util::mov_promo(mov) == 0 {
        view_update_killer(view_update_history(v, searched, from, to), score, ply, mov)
    } else {
        v
    };
    view_set_hash(noted, pos, searched, HASH_TYPE_BETA, score, mov)
}

/// The moves of a node but for `skip`, in the order in which they are
/// searched.
#[verifier::opaque]
pub open spec fn spec_move_list(v: EngineView, g: GameView, skip: u32, ply: u8) -> Seq<(i32, u32)> {
    spec_ordered(
        v.history,
        g.pos,
        g.zob_keys,
        g.masks,
        mov_table::spec_reg_mov_list(g.pos, g.masks),
        mov_table::spec_reg_mov_list(g.pos, g.masks).len(),
        skip,
        view_killer_mov(v, ply),
    )
}

/// What ranks the searches that stay on one ply, so that each is followed
/// only by searches of lower rank or on a later ply.
pub open spec fn spec_rank(depth: u8) -> nat {
    if depth == 0 {
        9
    } else if depth == 1 {
        6
    } else {
        (9 + 2 * depth) as nat
    }
}

/// What `ab_search` returns for a search that is not stopped, and what it
/// leaves in the engine: the node is counted and opened; a node that is
/// not settled goes on with the quiescence search at depth 0, and else with
/// a pass where one is tried, which returns the upper bound if the
/// opponent cannot bring the score below it, with a shallower search for a
/// move to start with where one is needed, and with the search of its
/// moves.
pub open spec fn spec_ab(
    v: EngineView,
    g: GameView,
    in_check: bool,
    on_extend: bool,
    alpha: i32,
    beta: i32,
    depth: u8,
    ply: u8,
) -> (i32, EngineView)
    decreases PV_TRACK_LENGTH - ply, spec_rank(depth), 0nat,
{
    let counted = view_count_node(v);
    let o = spec_open_node(counted, g, in_check, on_extend, alpha, beta, depth, ply);
    if o.settled.is_some() {
        (o.settled.unwrap(), counted)
    } else if depth == 0 {
        spec_q(counted, g, o.lower, o.upper, ply)
    } else {
        let passed = if o.try_pass {
            spec_null_move(counted, g, o.upper, depth, ply)
        } else {
            (false, counted)
        };
        if passed.0 {
            (o.upper, passed.1)
        } else {
            let start = if o.deepen {
                spec_deepen(passed.1, g, in_check, on_extend, o.lower, o.upper, depth, ply)
            } else {
                (o.hash_mov, passed.1)
            };
            spec_search_movs(start.1, g, in_check, start.0, o.lower, o.upper, depth, ply)
        }
    }
}

/// Whether a pass and a shallower search with a window of one point at
/// `beta` still leaves the score at `beta` or above.
pub open spec fn spec_null_move(v: EngineView, g: GameView, beta: i32, depth: u8, ply: u8) -> (
    bool,
    EngineView,
)
    decreases PV_TRACK_LENGTH - ply, 3nat, 0nat,
    when ply < PV_TRACK_LENGTH && depth >= NM_DEPTH
{
    let reduction = if depth > NM_DEPTH {
        NM_R + 1
    } else {
        NM_R as int
    };
    let r = spec_ab(
        v,
        game_after_pass(g),
        false,
        false,
        (-beta) as i32,
        (-beta + 1) as i32,
        (depth - reduction - 1) as u8,
        (ply + 1) as u8,
    );
    (negated(r) >= beta, r.1)
}

/// The move that a shallower search leaves in the tables for the position.
pub open spec fn spec_deepen(
    v: EngineView,
    g: GameView,
    in_check: bool,
    on_extend: bool,
    alpha: i32,
    beta: i32,
    depth: u8,
    ply: u8,
) -> (u32, EngineView)
    decreases PV_TRACK_LENGTH - ply, (spec_rank(depth) - 1) as nat, 0nat,
    when depth >= IID_DEPTH
{
    let r = spec_ab(v, g, in_check, on_extend, alpha, beta, (depth - IID_R) as u8, ply);
    (
        match view_get_hash(r.1, g.pos, depth) {
            LookupResult::MovOnly(hash_mov) => hash_mov,
            _ => 0u32,
        },
        r.1,
    )
}

/// The search of the position `g` that a move has led to, for the player
/// who made the move: behind the first improvement with a window of one
/// point, and with the full window only if that finds an improvement short
/// of a cutoff.
pub open spec fn spec_pvs_child(
    v: EngineView,
    g: GameView,
    gives_check: bool,
    extended: bool,
    pv_found: bool,
    alpha: i32,
    beta: i32,
    depth: u8,
    ply: u8,
) -> (i32, EngineView)
    decreases PV_TRACK_LENGTH - ply, 1nat, 0nat,
    when ply < PV_TRACK_LENGTH && depth >= 1
{
    if pv_found {
        let scout = spec_ab(
            v,
            g,
            gives_check,
            extended,
            (-alpha - 1) as i32,
            (-alpha) as i32,
            (depth - 1) as u8,
            (ply + 1) as u8,
        );
        if negated(scout) > alpha && negated(scout) < beta {
            let full = spec_ab(
                scout.1,
                g,
                gives_check,
                extended,
                (-beta) as i32,
                (-alpha) as i32,
                (depth - 1) as u8,
                (ply + 1) as u8,
            );
            (negated(full), full.1)
        } else {
            (negated(scout), scout.1)
        }
    } else {
        let full = spec_ab(
            v,
            g,
            gives_check,
            extended,
            (-beta) as i32,
            (-alpha) as i32,
            (depth - 1) as u8,
            (ply + 1) as u8,
        );
        (negated(full), full.1)
    }
}

/// The search of one move: the score for the mover, the depth that the
/// move counts as searched to, and the engine after it. The first move is
/// searched with the full window; a late move first less deep with a window
/// of one point, and again only if that beats `alpha`.
pub open spec fn spec_search_child(
    v: EngineView,
    g: GameView,
    mov: u32,
    first: bool,
    good_capture: bool,
    mov_count: usize,
    pv_found: bool,
    alpha: i32,
    beta: i32,
    depth: u8,
    ply: u8,
) -> (i32, u8, EngineView)
    decreases PV_TRACK_LENGTH - ply, 2nat, 0nat,
    when ply < PV_TRACK_LENGTH && 1 <= depth <= MAX_DEPTH
{
    let after = game_after(g, mov);
    let plan = spec_child_plan(after, util::mov_to(mov), first, good_capture, mov_count, depth);
    if first {
        let full = spec_ab(
            v,
            after,
            plan.gives_check,
            plan.extended,
            (-beta) as i32,
            (-alpha) as i32,
            (plan.deep - 1) as u8,
            (ply + 1) as u8,
        );
        (negated(full), plan.deep, full.1)
    } else if plan.late {
        let scout = spec_ab(
            v,
            after,
            plan.gives_check,
            plan.extended,
            (-alpha - 1) as i32,
            (-alpha) as i32,
            plan.reduced,
            (ply + 1) as u8,
        );
        if negated(scout) > alpha {
            let again = spec_pvs_child(
                scout.1,
                after,
                plan.gives_check,
                plan.extended,
                pv_found,
                alpha,
                beta,
                plan.deep,
                ply,
            );
            (again.0, plan.deep, again.1)
        } else {
            (negated(scout), plan.deep, scout.1)
        }
    } else {
        let searched = spec_pvs_child(
            v,
            after,
            plan.gives_check,
            plan.extended,
            pv_found,
            alpha,
            beta,
            plan.deep,
            ply,
        );
        (searched.0, plan.deep, searched.1)
    }
}

/// The search of one move with what a cutoff records. With the score comes
/// whether the move cut off.
pub open spec fn spec_try_mov(
    v: EngineView,
    g: GameView,
    mov: u32,
    first: bool,
    order_score: i32,
    mov_count: usize,
    pv_found: bool,
    alpha: i32,
    beta: i32,
    depth: u8,
    ply: u8,
) -> (i32, bool, EngineView)
    decreases PV_TRACK_LENGTH - ply, 3nat, 0nat,
    when ply < PV_TRACK_LENGTH && 1 <= depth <= MAX_DEPTH
{
    let good_capture = g.pos.squares[util::mov_to(mov) as int] != 0 && order_score
        >= MAX_NON_CAP_SCORE;
    let child = spec_search_child(
        v,
        g,
        mov,
        first,
        good_capture && !first,
        mov_count,
        pv_found,
        alpha,
        beta,
        depth,
        ply,
    );
    if child.0 >= beta {
        (child.0, true, spec_cutoff(child.2, g.pos, mov, child.0, child.1, ply))
    } else {
        (child.0, false, child.2)
    }
}

/// What a node has found so far.
pub struct Found {
    pub mov_count: usize,
    pub pv_found: bool,
    pub lower: i32,
    pub best_score: i32,
    pub best_mov: u32,
}

/// What a node has found once a move that did not cut off is searched.
pub open spec fn found_with(f: Found, mov_count: usize, score: i32, mov: u32) -> Found {
    Found {
        mov_count,
        pv_found: f.pv_found || score > f.lower,
        lower: if score > f.lower {
            score
        } else {
            f.lower
        },
        best_score: if score > f.best_score {
            score
        } else {
            f.best_score
        },
        best_mov: if score > f.best_score {
            mov
        } else {
            f.best_mov
        },
    }
}

/// The number of moves searched once one more is.
pub open spec fn next_count(mov_count: usize) -> usize {
    if mov_count < usize::MAX {
        (mov_count + 1) as usize
    } else {
        mov_count
    }
}

/// The search of the moves of `list` from the `k`th on, and the close of
/// the node. A move that reaches `beta` ends the node with its score.
pub open spec fn spec_movs_from(
    v: EngineView,
    g: GameView,
    in_check: bool,
    list: Seq<(i32, u32)>,
    k: nat,
    f: Found,
    alpha: i32,
    beta: i32,
    depth: u8,
    ply: u8,
) -> (i32, EngineView)
    decreases PV_TRACK_LENGTH - ply, 4nat, list.len() - k,
    when ply < PV_TRACK_LENGTH && 1 <= depth <= MAX_DEPTH
{
    if k >= list.len() {
        spec_finish(v, g, in_check, f.lower > alpha, f.lower, f.best_score, f.best_mov, depth)
    } else {
        let tried = spec_try_mov(
            v,
            g,
            list[k as int].1,
            false,
            list[k as int].0,
            next_count(f.mov_count),
            f.pv_found,
            f.lower,
            beta,
            depth,
            ply,
        );
        if tried.1 {
            (tried.0, tried.2)
        } else {
            spec_movs_from(
                tried.2,
                g,
                in_check,
                list,
                k + 1,
                found_with(f, next_count(f.mov_count), tried.0, list[k as int].1),
                alpha,
                beta,
                depth,
                ply,
            )
        }
    }
}

/// What a node has found before any move is searched.
pub open spec fn found_nothing(pv_mov: u32, alpha: i32) -> Found {
    Found {
        mov_count: 0,
        pv_found: false,
        lower: alpha,
        best_score: (-eval::MATE_VAL) as i32,
        best_mov: pv_mov,
    }
}

/// The search of the moves of a node: the move that the tables hold for it
/// first, then the others in their order.
pub open spec fn spec_search_movs(
    v: EngineView,
    g: GameView,
    in_check: bool,
    pv_mov: u32,
    alpha: i32,
    beta: i32,
    depth: u8,
    ply: u8,
) -> (i32, EngineView)
    decreases PV_TRACK_LENGTH - ply, 5nat, 0nat,
    when ply < PV_TRACK_LENGTH && 1 <= depth <= MAX_DEPTH
{
    if pv_mov != 0 {
        let tried = spec_try_mov(v, g, pv_mov, true, 0, 1, false, alpha, beta, depth, ply);
        if tried.1 {
            (tried.0, tried.2)
        } else {
            spec_movs_from(
                tried.2,
                g,
                in_check,
                spec_move_list(tried.2, g, pv_mov, ply),
                0,
                found_with(found_nothing(pv_mov, alpha), 1, tried.0, pv_mov),
                alpha,
                beta,
                depth,
                ply,
            )
        }
    } else {
        spec_movs_from(
            v,
            g,
            in_check,
            spec_move_list(v, g, pv_mov, ply),
            0,
            found_nothing(pv_mov, alpha),
            alpha,
            beta,
            depth,
            ply,
        )
    }
}

/// The search of the captures of `list` from the `k`th on: the best score
/// that the player to move can hold on to within the window.
pub open spec fn spec_captures_from(
    v: EngineView,
    g: GameView,
    list: Seq<(i32, u32)>,
    k: nat,
    lower: i32,
    beta: i32,
    ply: u8,
) -> (i32, EngineView)
    decreases PV_TRACK_LENGTH - ply, 7nat, list.len() - k,
    when ply < PV_TRACK_LENGTH
{
    if k >= list.len() {
        (lower, v)
    } else {
        let r = spec_q(
            v,
            game_after(g, list[k as int].1),
            (-beta) as i32,
            (-lower) as i32,
            (ply + 1) as u8,
        );
        if negated(r) >= beta {
            (negated(r), r.1)
        } else {
            spec_captures_from(
                r.1,
                g,
                list,
                k + 1,
                if negated(r) > lower {
                    negated(r)
                } else {
                    lower
                },
                beta,
                ply,
            )
        }
    }
}

/// The engine once the quiescence search has reached `ply`.
pub open spec fn view_seen(v: EngineView, ply: u8) -> EngineView {
    EngineView {
        sel_depth: if ply > v.sel_depth {
            ply
        } else {
            v.sel_depth
        },
        ..v
    }
}

/// What `q_search` returns for a search that is not stopped, and what it
/// leaves in the engine: the node is counted; an illegal position scores as
/// a mate for the player to move; in check every move is searched one ply
/// deep; else the position is settled by where it stands or its captures
/// are followed.
pub open spec fn spec_q(v: EngineView, g: GameView, alpha: i32, beta: i32, ply: u8) -> (
    i32,
    EngineView,
)
    decreases PV_TRACK_LENGTH - ply, 8nat, 0nat,
{
    let counted = view_count_node(v);
    let stand = spec_stand(g, alpha, beta, ply);
    if stand.illegal {
        ((eval::MATE_VAL - ply) as i32, counted)
    } else if stand.in_check {
        if ply <= PV_TRACK_LENGTH {
            spec_ab(counted, g, true, true, alpha, beta, 1, ply)
        } else {
            (alpha, counted)
        }
    } else if stand.settled.is_some() {
        (stand.settled.unwrap(), view_seen(counted, ply))
    } else {
        spec_captures_from(view_seen(counted, ply), g, stand.captures, 0, stand.lower, beta, ply)
    }
}

/// The line that the transposition tables hold from a position: the move
/// stored for it, then the line from the position that this move leads to,
/// as long as a move is stored, it leaves the mover's king unattacked, and
/// fewer than `room` moves are listed.
pub open spec fn spec_pv(v: EngineView, g: GameView, room: nat) -> Seq<u32>
    decreases room,
{
    let mov = match view_get_hash(v, g.pos, MAX_DEPTH) {
        LookupResult::Match(_, _, hash_mov) => hash_mov,
        LookupResult::MovOnly(hash_mov) => hash_mov,
        LookupResult::NoMatch => 0u32,
    };
    if room == 0 || mov == 0 || !spec_mov_is_legal(g.pos, g.zob_keys, g.masks, mov) {
        Seq::empty()
    } else {
        seq![mov] + spec_pv(v, game_after(g, mov), (room - 1) as nat)
    }
}

/// The line that the tables hold is no longer than the room for it.
pub proof fn lemma_pv_len(v: EngineView, g: GameView, room: nat)
    ensures
        spec_pv(v, g, room).len() <= room,
    decreases room,
{
    let mov = match view_get_hash(v, g.pos, MAX_DEPTH) {
        LookupResult::Match(_, _, hash_mov) => hash_mov,
        LookupResult::MovOnly(hash_mov) => hash_mov,
        LookupResult::NoMatch => 0u32,
    };
    if !(room == 0 || mov == 0 || !spec_mov_is_legal(g.pos, g.zob_keys, g.masks, mov)) {
        lemma_pv_len(v, game_after(g, mov), (room - 1) as nat);
    }
}

/// A result that is stored is found again: with its bound flag, score and
/// move where no more depth is asked for than was stored, with the move
/// alone where more is asked for. This holds unless the depth-preferred
/// table kept a deeper result for the same position, which is then what a
/// probe finds.
pub proof fn lemma_set_hash_then_get_hash(
    v: EngineView,
    pos: Position,
    depth: u8,
    flag: u8,
    score: i32,
    mov: u32,
    asked: u8,
)
    requires
        v.depth_preferred.len() > 0,
        v.always_replace.len() > 0,
        table_get(v.depth_preferred, pos, 0) == LookupResult::NoMatch || {
            let slot = v.depth_preferred[pos.hash_key as int % v.depth_preferred.len() as int];
            !slot.used || slot.depth <= depth
        },
    ensures
        asked <= depth ==> view_get_hash(
            view_set_hash(v, pos, depth, flag, score, mov),
            pos,
            asked,
        ) == LookupResult::Match(flag, score, mov),
        asked > depth ==> view_get_hash(view_set_hash(v, pos, depth, flag, score, mov), pos, asked)
            == LookupResult::MovOnly(mov),
{
}

/// What a completed iteration reports, but for the time it took.
pub struct Report {
    pub score: i32,
    pub is_mate: bool,
    pub mate_in: i32,
    pub depth: u8,
    pub sel_depth: u8,
    pub nodes: u64,
    pub pv: Seq<u32>,
}

/// The engine at the start of a search: the tables as they are, no killer
/// move and no history score.
pub open spec fn view_at_start(v: EngineView) -> EngineView {
    EngineView {
        primary_killers: Seq::new(PV_TRACK_LENGTH as nat, |i: int| KillerSlot { score: 0, mov: 0 }),
        secondary_killers: Seq::new(
            PV_TRACK_LENGTH as nat,
            |i: int| KillerSlot { score: 0, mov: 0 },
        ),
        history: Seq::new(4096, |i: int| 0i32),
        ..v
    }
}

/// The engine at the start of an iteration: no node counted yet.
pub open spec fn view_fresh(v: EngineView) -> EngineView {
    EngineView { node_count: 0, sel_depth: 0, ..v }
}

/// The lower bound with which a depth is searched again after the score
/// has come out at or below it: wider by `EXTENDED_WINDOW_SIZE` the first
/// time a bound of this depth fails, open after that.
pub open spec fn widened_alpha(score: i32, widened: bool) -> i32 {
    if widened {
        (-eval::MATE_VAL) as i32
    } else if score - EXTENDED_WINDOW_SIZE < -SCORE_LIMIT {
        (-SCORE_LIMIT) as i32
    } else {
        (score - EXTENDED_WINDOW_SIZE) as i32
    }
}

/// The upper bound with which a depth is searched again after the score
/// has come out at or above it.
pub open spec fn widened_beta(score: i32, widened: bool) -> i32 {
    if widened {
        eval::MATE_VAL
    } else if score + EXTENDED_WINDOW_SIZE > SCORE_LIMIT {
        SCORE_LIMIT
    } else {
        (score + EXTENDED_WINDOW_SIZE) as i32
    }
}

/// The lower bound with which the next depth is first searched.
pub open spec fn next_alpha(score: i32) -> i32 {
    if score - WINDOW_SIZE < -SCORE_LIMIT {
        (-SCORE_LIMIT) as i32
    } else {
        (score - WINDOW_SIZE) as i32
    }
}

/// The upper bound with which the next depth is first searched.
pub open spec fn next_beta(score: i32) -> i32 {
    if score + WINDOW_SIZE > SCORE_LIMIT {
        SCORE_LIMIT
    } else {
        (score + WINDOW_SIZE) as i32
    }
}

/// Whether a score says that a mate was found.
pub open spec fn is_mate_score(score: i32) -> bool {
    score > eval::TERM_VAL || score < -eval::TERM_VAL
}

/// What a search leaves of the engine when it goes on from `depth` and
/// nothing hurries it: what the last search from the root has left, after
/// the same depths, windows and tries as in `spec_reports`.
pub open spec fn spec_search_end(
    v: EngineView,
    g: GameView,
    in_check: bool,
    depth: u8,
    alpha: i32,
    beta: i32,
    attempts: u8,
    widened: bool,
    max_depth: u8,
) -> EngineView
    decreases MAX_DEPTH + 1 - depth, 3 - attempts,
{
    if depth > max_depth || depth > MAX_DEPTH || attempts > 3 {
        v
    } else {
        let r = spec_ab(view_fresh(v), g, in_check, false, alpha, beta, depth, 0);
        if r.0 <= alpha && attempts < 3 {
            spec_search_end(
                r.1,
                g,
                in_check,
                depth,
                widened_alpha(r.0, widened),
                beta,
                (attempts + 1) as u8,
                true,
                max_depth,
            )
        } else if r.0 >= beta && attempts < 3 {
            spec_search_end(
                r.1,
                g,
                in_check,
                depth,
                alpha,
                widened_beta(r.0, widened),
                (attempts + 1) as u8,
                true,
                max_depth,
            )
        } else if spec_pv(r.1, g, PV_PRINT_LENGTH as nat).len() > 0 && is_mate_score(r.0) {
            r.1
        } else {
            spec_search_end(
                r.1,
                g,
                in_check,
                (depth + 1) as u8,
                next_alpha(r.0),
                next_beta(r.0),
                0,
                false,
                max_depth,
            )
        }
    }
}

/// What a search reports from `depth` on when nothing hurries it: each
/// depth up to `max_depth` is searched with the window around the score of
/// the depth before, and again with a wider window while the score comes
/// out on a bound, up to three times; a depth whose line is empty reports
/// nothing; and a mate ends the search.
pub open spec fn spec_reports(
    v: EngineView,
    g: GameView,
    in_check: bool,
    depth: u8,
    alpha: i32,
    beta: i32,
    attempts: u8,
    widened: bool,
    max_depth: u8,
) -> Seq<Report>
    decreases MAX_DEPTH + 1 - depth, 3 - attempts,
{
    if depth > max_depth || depth > MAX_DEPTH || attempts > 3 {
        Seq::empty()
    } else {
        let r = spec_ab(view_fresh(v), g, in_check, false, alpha, beta, depth, 0);
        if r.0 <= alpha && attempts < 3 {
            spec_reports(
                r.1,
                g,
                in_check,
                depth,
                widened_alpha(r.0, widened),
                beta,
                (attempts + 1) as u8,
                true,
                max_depth,
            )
        } else if r.0 >= beta && attempts < 3 {
            spec_reports(
                r.1,
                g,
                in_check,
                depth,
                alpha,
                widened_beta(r.0, widened),
                (attempts + 1) as u8,
                true,
                max_depth,
            )
        } else {
            let pv = spec_pv(r.1, g, PV_PRINT_LENGTH as nat);
            let rest = if pv.len() > 0 && is_mate_score(r.0) {
                Seq::empty()
            } else {
                spec_reports(
                    r.1,
                    g,
                    in_check,
                    (depth + 1) as u8,
                    next_alpha(r.0),
                    next_beta(r.0),
                    0,
                    false,
                    max_depth,
                )
            };
            if pv.len() > 0 {
                seq![
                    Report {
                        score: r.0,
                        is_mate: is_mate_score(r.0),
                        mate_in: if is_mate_score(r.0) {
                            spec_mate_in(r.0) as i32
                        } else {
                            0
                        },
                        depth,
                        sel_depth: r.1.sel_depth,
                        nodes: r.1.node_count,
                        pv,
                    },
                ] + rest
            } else {
                rest
            }
        }
    }
}

} // verus!
