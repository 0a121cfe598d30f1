//! The search: iterative deepening over an alpha-beta search with a
//! transposition table, killer moves, a history table and a quiescence
//! search that orders captures by static exchange evaluation.

use vstd::prelude::*;
use crate::bitboard::BitMask;
use crate::def;
use crate::eval;
use crate::hash_tbl::{HashTable, LookupResult, TableEntry};
use crate::model::{
    found_nothing, found_with, game_after, game_after_pass, game_of, settled_with, spec_ab,
    spec_captures_from, spec_child_plan, spec_cutoff, spec_deepen, spec_enter, spec_finish,
    spec_isqrt, spec_isqrt_from, spec_move_list, spec_movs_from, spec_null_move,
    spec_open_node, spec_order_score, spec_ordered, spec_ordered_captures, spec_probe_hash,
    spec_pvs_child, spec_q, spec_search_child, spec_search_movs, spec_stand, spec_try_mov,
    view_count_node, view_get_hash, view_killer_mov, view_seen, view_set_hash,
    view_update_history, view_update_killer, lemma_pv_len, spec_pv, spec_reports,
    view_at_start, ChildPlan, EngineView, Found, GameView, Opening, Report,
};
use crate::mov_table;
use crate::state::{spec_do_mov, Position, State};
use crate::util;

verus! {

/// Plies for which killer moves are kept, and the deepest ply searched.
pub const PV_TRACK_LENGTH: usize = 128;

/// Moves of the principal variation that are reported.
pub const PV_PRINT_LENGTH: usize = 16;

pub const MAX_HISTORY_SCORE: i32 = 100000;

/// What a capture or promotion is ordered by, on top of its exchange value,
/// so that it comes before every quiet move.
pub const MAX_NON_CAP_SCORE: i32 = 200000;

/// What a killer move is ordered by, on top of its own score, so that it
/// comes before every other quiet move and behind every capture.
pub const KILLER_BASE_SCORE: i32 = 150000;

pub const PRIMARY_KILLER_SCORE: i32 = 1;

pub const SECONDARY_KILLER_SCORE: i32 = -1000;

pub const WINDOW_SIZE: i32 = 50;

pub const EXTENDED_WINDOW_SIZE: i32 = 200;

pub const NM_DEPTH: u8 = 6;

pub const NM_R: u8 = 2;

/// The deepest search, and the depth under which a result is stored that
/// holds at any depth.
pub const MAX_DEPTH: u8 = 128;

pub const FP_DEPTH: u8 = 7;

pub const IID_DEPTH: u8 = 7;

pub const IID_R: u8 = 2;

pub const DELTA_MARGIN: i32 = 200;

pub const FUTILITY_MARGIN: [i32; 8] = [0, 420, 540, 660, 780, 900, 1020, 1140];

/// The clock is read at every node whose count has none of these bits.
pub const TIME_CHECK_INTERVAL: u64 = 4095;

/// No score and no window bound is beyond this.
pub const SCORE_LIMIT: i32 = 1500000000;

/// Recaptures on one square that the exchange evaluation follows.
pub const SEE_DEPTH: u8 = 64;

/// A killer move with the score it cut off with.
#[derive(Clone, Copy, Debug, PartialEq, Eq, Structural)]
pub struct KillerSlot {
    pub score: i32,
    pub mov: u32,
}

/// The time for one search: what it may take, and what it may add once when
/// the first narrow window fails late.
#[derive(Clone, Copy, Debug)]
pub struct TimeCapacity {
    pub main_time_millis: u128,
    pub extra_time_millis: u128,
}

/// What one completed iteration found.
#[derive(Debug)]
pub struct IterationInfo {
    /// The score in centipawns; where `is_mate` holds, `mate_in` says in how
    /// many moves, negative when the player to move is mated.
    pub score: i32,
    pub is_mate: bool,
    pub mate_in: i32,
    pub depth: u8,
    pub sel_depth: u8,
    pub nodes: u64,
    pub nps: u128,
    pub time_millis: u128,
    pub pv: Vec<u32>,
}

pub struct SearchEngine {
    pub depth_preferred_hash_table: HashTable,
    pub always_replace_hash_table: HashTable,
    pub primary_killer_table: [KillerSlot; 128],
    pub secondary_killer_table: [KillerSlot; 128],
    /// History score of the move from square `f` to square `t`, at
    /// `f * 64 + t`.
    pub index_history_table: [i32; 4096],
    pub time_tracker: std::time::Instant,
    pub max_time_millis: u128,
    /// Nodes visited in the current iteration.
    pub node_count: u64,
    /// Deepest ply that the quiescence search of the current iteration
    /// reached.
    pub sel_depth: u8,
    /// Set when the search is to stop; every node returns at once while it
    /// is set.
    pub abort: bool,
    /// One entry for each iteration that the last search completed.
    pub iterations: Vec<IterationInfo>,
}

#[verifier::external_type_specification]
#[verifier::external_body]
pub struct ExInstant(std::time::Instant);

/// `Instant::now` of the standard library: the current reading of a clock
/// that never runs backwards. Nothing is claimed of the value.
#[verifier::external_body]
fn clock_now() -> (t: std::time::Instant) {
    std::time::Instant::now()
}

/// The most milliseconds that the standard library's `Duration` holds:
/// `u64::MAX` seconds and 999 milliseconds.
pub const MAX_ELAPSED_MILLIS: u128 = 18446744073709551615999;

/// `Instant::elapsed` of the standard library, in whole milliseconds: the
/// time since `t` was read. Of the value only this is claimed: it is what
/// `Duration::as_millis` gives, and a `Duration` holds whole seconds in a
/// `u64` and less than a second beside them.
#[verifier::external_body]
fn clock_elapsed_millis(t: &std::time::Instant) -> (ms: u128)
    ensures
        ms <= MAX_ELAPSED_MILLIS,
{
    t.elapsed().as_millis()
}

/// Whether a search that has run for `elapsed_millis` has used up its
/// budget.
pub fn over_budget(elapsed_millis: u128, budget_millis: u128) -> (r: bool)
    ensures
        r == (elapsed_millis > budget_millis),
{
    elapsed_millis > budget_millis
}

/// The time from one reading of the clock to a later one; nothing where
/// the second is not later.
pub fn time_between(earlier_millis: u128, later_millis: u128) -> (r: u128)
    ensures
        r == (if later_millis >= earlier_millis {
            later_millis - earlier_millis
        } else {
            0
        }),
{
    if later_millis >= earlier_millis {
        later_millis - earlier_millis
    } else {
        0
    }
}

/// Nodes searched in a second, for an iteration that took `millis`; whole
/// seconds count, and less than one second counts as one.
pub fn nodes_per_second(nodes: u64, millis: u128) -> (r: u128)
    ensures
        r == (if millis < 1000 {
            nodes as int
        } else {
            nodes as int / (millis as int / 1000)
        }),
        r <= nodes,
{
    let seconds: u128 = millis / 1000;
    if seconds == 0 {
        nodes as u128
    } else {
        (nodes as u128) / seconds
    }
}

/// Whether the search is to end rather than go one ply deeper: the last
/// depth took more than half the time that is left of the budget.
pub fn next_depth_is_too_long(iter_millis: u128, elapsed_millis: u128, budget_millis: u128) -> (r:
    bool)
    ensures
        r == (iter_millis > (if budget_millis >= elapsed_millis {
            budget_millis - elapsed_millis
        } else {
            0
        }) / 2),
{
    iter_millis > time_between(elapsed_millis, budget_millis) / 2
}

/// The budget with the extra time added, up to the largest number.
pub fn extended_budget(budget_millis: u128, extra_millis: u128) -> (r: u128)
    ensures
        r == (if budget_millis + extra_millis > u128::MAX {
            u128::MAX
        } else {
            (budget_millis + extra_millis) as u128
        }),
{
    if u128::MAX - budget_millis < extra_millis {
        u128::MAX
    } else {
        budget_millis + extra_millis
    }
}

/// The largest `r` with `r * r <= n`.
pub fn isqrt(n: u32) -> (r: u32)
    ensures
        r * r <= n < (r + 1) * (r + 1),
        r == spec_isqrt(n as nat),
{
    let mut r: u32 = 0;
    while r < 65535
        invariant
            r * r <= n,
            r <= 65535,
            spec_isqrt_from(n as nat, r as nat) == spec_isqrt(n as nat),
        decreases 65535 - r,
    {
        let next: u64 = r as u64 + 1;
        assert(next * next <= 65536 * 65536) by (nonlinear_arith)
            requires
                next <= 65536,
        ;
        if next * next > n as u64 {
            return r;
        }
        assert(r < n) by (nonlinear_arith)
            requires
                (r + 1) * (r + 1) <= n,
        ;
        r = r + 1;
    }
    assert((r + 1) * (r + 1) > n) by (nonlinear_arith)
        requires
            r == 65535,
            n <= 0xffff_ffff,
    ;
    r
}

/// Where a move with score `score` goes into a list that is ordered by
/// falling score: behind every move that scores at least as much.
pub open spec fn spec_insert_pos(list: Seq<(i32, u32)>, score: i32) -> nat
    decreases list.len(),
{
    if list.len() == 0 {
        0
    } else if list[0].0 < score {
        0
    } else {
        1 + spec_insert_pos(list.skip(1), score)
    }
}

/// The list with one more scored move, put behind every move that scores
/// at least as much as it does.
pub open spec fn spec_insert_scored(list: Seq<(i32, u32)>, item: (i32, u32)) -> Seq<(i32, u32)> {
    list.insert(spec_insert_pos(list, item.0) as int, item)
}

/// Scores fall, or stay, from the front of the list to its end.
pub open spec fn is_ordered(list: Seq<(i32, u32)>) -> bool {
    forall|i: int, j: int| 0 <= i <= j < list.len() ==> list[i].0 >= list[j].0
}

/// The place that `spec_insert_pos` names is the first one whose move scores
/// less.
proof fn lemma_insert_pos(list: Seq<(i32, u32)>, score: i32, p: nat)
    requires
        p <= list.len(),
        forall|j: int| 0 <= j < p ==> list[j].0 >= score,
        p < list.len() ==> list[p as int].0 < score,
    ensures
        spec_insert_pos(list, score) == p,
    decreases list.len(),
{
    if list.len() != 0 && list[0].0 >= score {
        assert(p > 0);
        let rest = list.skip(1);
        assert forall|j: int| 0 <= j < p - 1 implies rest[j].0 >= score by {
            assert(rest[j] == list[j + 1]);
        }
        lemma_insert_pos(rest, score, (p - 1) as nat);
    }
}

/// Putting a scored move into an ordered list keeps the list ordered and
/// adds that move and no other.
pub proof fn lemma_insert_scored(list: Seq<(i32, u32)>, item: (i32, u32))
    requires
        is_ordered(list),
    ensures
        is_ordered(spec_insert_scored(list, item)),
        spec_insert_scored(list, item).to_multiset() == list.to_multiset().insert(item),
        spec_insert_scored(list, item).len() == list.len() + 1,
{
    let p = spec_insert_pos(list, item.0);
    lemma_insert_pos_bounds(list, item.0);
    let r = spec_insert_scored(list, item);
    assert forall|i: int, j: int| 0 <= i <= j < r.len() implies r[i].0 >= r[j].0 by {
        if i < p && j > p {
            assert(r[j] == list[j - 1]);
        }
    }
    vstd::seq_lib::to_multiset_insert(list, p as int, item);
}

/// Before the place that `spec_insert_pos` names every move scores at least
/// `score`; from that place on every move of an ordered list scores less.
proof fn lemma_insert_pos_bounds(list: Seq<(i32, u32)>, score: i32)
    ensures
        spec_insert_pos(list, score) <= list.len(),
        forall|j: int| 0 <= j < spec_insert_pos(list, score) ==> list[j].0 >= score,
        spec_insert_pos(list, score) < list.len() ==> list[spec_insert_pos(list, score) as int].0
            < score,
        is_ordered(list) ==> forall|j: int|
            spec_insert_pos(list, score) <= j < list.len() ==> list[j].0 < score,
    decreases list.len(),
{
    if list.len() != 0 && list[0].0 >= score {
        let rest = list.skip(1);
        lemma_insert_pos_bounds(rest, score);
        let p = spec_insert_pos(rest, score);
        assert forall|j: int| 0 <= j < p + 1 implies list[j].0 >= score by {
            if j > 0 {
                assert(rest[j - 1] == list[j]);
            }
        }
        if p < rest.len() {
            assert(rest[p as int] == list[p as int + 1]);
        }
        if is_ordered(list) {
            assert forall|a: int, b: int| 0 <= a <= b < rest.len() implies rest[a].0
                >= rest[b].0 by {
                assert(rest[a] == list[a + 1]);
                assert(rest[b] == list[b + 1]);
            }
            assert forall|j: int| p + 1 <= j < list.len() implies list[j].0 < score by {
                assert(rest[j - 1] == list[j]);
            }
        }
    }
}

/// Puts a scored move into a list ordered by falling score, behind every
/// move that scores at least as much.
pub fn insert_scored(list: &mut Vec<(i32, u32)>, item: (i32, u32))
    ensures
        final(list)@ == spec_insert_scored(old(list)@, item),
{
    let n: usize = list.len();
    let mut p: usize = 0;
    while p < n && list[p].0 >= item.0
        invariant
            p <= n,
            n == list@.len(),
            list@ == old(list)@,
            forall|j: int| 0 <= j < p ==> list@[j].0 >= item.0,
        decreases n - p,
    {
        p += 1;
    }
    proof {
        lemma_insert_pos(list@, item.0, p as nat);
    }
    list.insert(p, item);
}

/// The position that an encoded move leads to.
pub open spec fn spec_after(pos: Position, zob_keys: Seq<Vec<u64>>, mov: u32) -> Position {
    spec_do_mov(
        pos,
        zob_keys,
        util::mov_from(mov),
        util::mov_to(mov),
        util::mov_kind(mov),
        util::mov_promo(mov),
    )
}

/// Whether a move leaves the mover's own king unattacked.
pub open spec fn spec_mov_is_legal(
    pos: Position,
    zob_keys: Seq<Vec<u64>>,
    m: BitMask,
    mov: u32,
) -> bool {
    !mov_table::spec_in_check(spec_after(pos, zob_keys, mov), m, pos.player)
}

/// Whether the player to move has a pseudo-legal move that leaves its king
/// unattacked.
pub open spec fn spec_has_legal_mov(pos: Position, zob_keys: Seq<Vec<u64>>, m: BitMask) -> bool {
    exists|k: int|
        0 <= k < mov_table::spec_reg_mov_list(pos, m).len() && spec_mov_is_legal(
            pos,
            zob_keys,
            m,
            #[trigger] mov_table::spec_reg_mov_list(pos, m)[k],
        )
}

/// Whether the game has come down to little material or one player has no
/// pawn left.
pub open spec fn spec_in_endgame(pos: Position) -> bool {
    eval::spec_phase(pos.bitboard) <= eval::ENDGAME_PHASE || pos.bitboard.w_pawn == 0
        || pos.bitboard.b_pawn == 0
}

/// Whether the game has come down to little material or one player has no
/// pawn left. Pruning that trusts a pass to be harmless is switched off
/// then.
pub fn in_endgame(state: &State) -> (r: bool)
    ensures
        r == spec_in_endgame(state.pos),
{
    eval::get_phase(state) <= eval::ENDGAME_PHASE || state.pos.bitboard.w_pawn == 0
        || state.pos.bitboard.b_pawn == 0
}

/// Whether `moving_piece`, which has just moved to `to_index`, is a pawn
/// past the middle of the board with no enemy pawn ahead of it on its own
/// or a neighbouring file and no enemy piece on its file.
pub open spec fn spec_is_passed_pawn(
    pos: Position,
    m: BitMask,
    moving_piece: u8,
    to_index: usize,
) -> bool {
    if moving_piece == def::WP {
        m.wp_forward_masks[to_index as int] & pos.bitboard.b_pawn == 0
            && m.file_masks[to_index as int] & pos.bitboard.b_all == 0 && def::spec_rank(
            pos.player,
            to_index,
        ) < 5
    } else if moving_piece == def::BP {
        m.bp_forward_masks[to_index as int] & pos.bitboard.w_pawn == 0
            && m.file_masks[to_index as int] & pos.bitboard.w_all == 0 && def::spec_rank(
            pos.player,
            to_index,
        ) < 5
    } else {
        false
    }
}

/// Whether the pawn that has just moved to `to_index` is a passed pawn on
/// its way; the player to move is by now its opponent, from whose side the
/// rank is counted.
pub fn is_passed_pawn(state: &State, moving_piece: u8, to_index: usize) -> (r: bool)
    requires
        to_index < 64,
    ensures
        r == spec_is_passed_pawn(state.pos, *state.bitmask, moving_piece, to_index),
{
    if moving_piece == def::WP {
        state.bitmask.wp_forward_masks[to_index] & state.pos.bitboard.b_pawn == 0
            && state.bitmask.file_masks[to_index] & state.pos.bitboard.b_all == 0 && def::get_rank(
            state.pos.player,
            to_index,
        ) < 5
    } else if moving_piece == def::BP {
        state.bitmask.bp_forward_masks[to_index] & state.pos.bitboard.w_pawn == 0
            && state.bitmask.file_masks[to_index] & state.pos.bitboard.w_all == 0 && def::get_rank(
            state.pos.player,
            to_index,
        ) < 5
    } else {
        false
    }
}

/// What the player to move wins on `to` when both players go on capturing
/// there with their least valuable piece and either may stop when going on
/// would lose: `last_attacker` stands on `to` and is what the first capture
/// takes. At most `fuel` captures are followed.
pub open spec fn spec_see_exchange(
    pos: Position,
    zob_keys: Seq<Vec<u64>>,
    m: BitMask,
    to: usize,
    last_attacker: u8,
    fuel: nat,
) -> int
    decreases fuel,
{
    let a = mov_table::spec_smallest_attacker(pos, m, to, pos.player);
    if a.0 == 0 || fuel == 0 {
        0
    } else {
        let rest = spec_see_exchange(
            spec_do_mov(pos, zob_keys, a.3, to, a.1, a.2),
            zob_keys,
            m,
            to,
            a.0,
            (fuel - 1) as nat,
        );
        let gain = eval::spec_val_of(last_attacker) + eval::spec_val_of(a.2) - rest;
        if gain > 0 {
            gain
        } else {
            0
        }
    }
}

/// The material that a capture or promotion wins or loses once the
/// exchange on its destination is played out: what it takes and what it
/// promotes to, less what the opponent wins back.
pub open spec fn spec_see(
    pos: Position,
    zob_keys: Seq<Vec<u64>>,
    m: BitMask,
    from: usize,
    to: usize,
    tp: u8,
    promo: u8,
) -> int {
    let after = spec_do_mov(pos, zob_keys, from, to, tp, promo);
    eval::spec_val_of(pos.squares[to as int]) + eval::spec_val_of(promo) - spec_see_exchange(
        after,
        zob_keys,
        m,
        to,
        after.squares[to as int],
        SEE_DEPTH as nat,
    )
}

/// An exchange wins nothing less than nothing, and no more than the piece
/// it starts with and a promotion are worth.
pub proof fn lemma_see_exchange_bounds(
    pos: Position,
    zob_keys: Seq<Vec<u64>>,
    m: BitMask,
    to: usize,
    last_attacker: u8,
    fuel: nat,
)
    ensures
        0 <= spec_see_exchange(pos, zob_keys, m, to, last_attacker, fuel) <= eval::spec_val_of(
            last_attacker,
        ) + eval::Q_VAL,
    decreases fuel,
{
    reveal(mov_table::spec_smallest_attacker);
    let a = mov_table::spec_smallest_attacker(pos, m, to, pos.player);
    if a.0 != 0 && fuel != 0 {
        lemma_see_exchange_bounds(
            spec_do_mov(pos, zob_keys, a.3, to, a.1, a.2),
            zob_keys,
            m,
            to,
            a.0,
            (fuel - 1) as nat,
        );
    }
}

/// A capture of a piece that nothing defends wins all that it takes: where
/// no piece of the opponent attacks the destination once the move is
/// made, the exchange value is the worth of the piece taken and of the
/// promotion.
pub proof fn lemma_see_unguarded(
    pos: Position,
    zob_keys: Seq<Vec<u64>>,
    m: BitMask,
    from: usize,
    to: usize,
    tp: u8,
    promo: u8,
)
    requires
        !mov_table::spec_attacked(
            spec_do_mov(pos, zob_keys, from, to, tp, promo),
            m,
            to,
            spec_do_mov(pos, zob_keys, from, to, tp, promo).player,
        ),
    ensures
        spec_see(pos, zob_keys, m, from, to, tp, promo) == eval::spec_val_of(
            pos.squares[to as int],
        ) + eval::spec_val_of(promo),
{
    reveal(mov_table::spec_smallest_attacker);
    reveal(mov_table::spec_attacked);
    let after = spec_do_mov(pos, zob_keys, from, to, tp, promo);
    let a = mov_table::spec_smallest_attacker(after, m, to, after.player);
    assert(a.0 == 0);
}

/// A capture of a defended piece by a piece worth at least as much as what
/// it takes and what defends it together wins nothing: away from the first
/// and the last rank, where nothing promotes, the exchange value of such a
/// capture is 0 or less.
pub proof fn lemma_see_guarded(
    pos: Position,
    zob_keys: Seq<Vec<u64>>,
    m: BitMask,
    from: usize,
    to: usize,
    tp: u8,
)
    requires
        8 <= to < 56,
        mov_table::spec_attacked(
            spec_do_mov(pos, zob_keys, from, to, tp, 0),
            m,
            to,
            spec_do_mov(pos, zob_keys, from, to, tp, 0).player,
        ),
        eval::spec_val_of(pos.squares[to as int]) + eval::spec_val_of(
            mov_table::spec_smallest_attacker(
                spec_do_mov(pos, zob_keys, from, to, tp, 0),
                m,
                to,
                spec_do_mov(pos, zob_keys, from, to, tp, 0).player,
            ).0,
        ) <= eval::spec_val_of(spec_do_mov(pos, zob_keys, from, to, tp, 0).squares[to as int]),
    ensures
        spec_see(pos, zob_keys, m, from, to, tp, 0) <= 0,
{
    reveal(mov_table::spec_smallest_attacker);
    reveal(mov_table::spec_attacked);
    let after = spec_do_mov(pos, zob_keys, from, to, tp, 0);
    let a = mov_table::spec_smallest_attacker(after, m, to, after.player);
    assert(a.2 == 0);
    let next = spec_do_mov(after, zob_keys, a.3, to, a.1, a.2);
    let b = mov_table::spec_smallest_attacker(next, m, to, next.player);
    assert(b.2 == 0);
    if b.0 != 0 {
        lemma_see_exchange_bounds(
            spec_do_mov(next, zob_keys, b.3, to, b.1, b.2),
            zob_keys,
            m,
            to,
            b.0,
            (SEE_DEPTH - 2) as nat,
        );
    }
    reveal_with_fuel(spec_see_exchange, 3);
}

/// What the exchange on `to` wins for the player to move; the position is
/// left as it was found.
pub fn see_exchange(state: &mut State, to: usize, last_attacker: u8, fuel: u8) -> (r: i32)
    requires
        old(state).wf(),
        to < 64,
    ensures
        final(state).wf(),
        final(state).pos == old(state).pos,
        final(state).history@ == old(state).history@,
        final(state).zob_keys == old(state).zob_keys,
        final(state).bitmask == old(state).bitmask,
        r == spec_see_exchange(
            old(state).pos,
            old(state).zob_keys@,
            *old(state).bitmask,
            to,
            last_attacker,
            fuel as nat,
        ),
        0 <= r <= eval::MATE_VAL + eval::Q_VAL,
    decreases fuel,
{
    let (attacker, tp, promo, attack_from) = mov_table::get_smallest_attacker_index(state, to);
    if attacker == 0 || fuel == 0 {
        return 0;
    }
    state.do_mov(attack_from, to, tp, promo);
    let rest: i32 = see_exchange(state, to, attacker, fuel - 1);
    let gain: i32 = eval::val_of(last_attacker) + eval::val_of(promo) - rest;
    state.undo_mov();
    assert(state.history@ =~= old(state).history@);
    if gain > 0 {
        gain
    } else {
        0
    }
}

/// The exchange value of a capture or promotion; the position is left as it
/// was found.
pub fn see(state: &mut State, from: usize, to: usize, tp: u8, promo: u8) -> (r: i32)
    requires
        old(state).wf(),
        from < 64,
        to < 64,
    ensures
        final(state).wf(),
        final(state).pos == old(state).pos,
        final(state).history@ == old(state).history@,
        final(state).zob_keys == old(state).zob_keys,
        final(state).bitmask == old(state).bitmask,
        r == spec_see(old(state).pos, old(state).zob_keys@, *old(state).bitmask, from, to, tp, promo),
        -eval::MATE_VAL - eval::Q_VAL <= r <= 2 * eval::MATE_VAL,
{
    let initial_gain: i32 = eval::val_of(state.pos.squares[to]) + eval::val_of(promo);
    state.do_mov(from, to, tp, promo);
    let mover: u8 = state.pos.squares[to];
    let score: i32 = initial_gain - see_exchange(state, to, mover, SEE_DEPTH);
    state.undo_mov();
    assert(state.history@ =~= old(state).history@);
    score
}

/// Whether the player to move has no move that leaves its king
/// unattacked. The position is left as it was found.
pub fn has_no_legal_mov(state: &mut State) -> (r: bool)
    requires
        old(state).wf(),
    ensures
        final(state).wf(),
        final(state).pos == old(state).pos,
        final(state).history@ == old(state).history@,
        final(state).zob_keys == old(state).zob_keys,
        final(state).bitmask == old(state).bitmask,
        r == !spec_has_legal_mov(old(state).pos, old(state).zob_keys@, *old(state).bitmask),
{
    let player: u8 = state.pos.player;
    let mov_list = mov_table::gen_reg_mov_list(state);
    let n: usize = mov_list.len();
    let mut k: usize = 0;
    while k < n
        invariant
            k <= n,
            n == mov_list@.len(),
            state.wf(),
            state.pos == old(state).pos,
            state.history@ == old(state).history@,
            state.zob_keys == old(state).zob_keys,
            state.bitmask == old(state).bitmask,
            player == state.pos.player,
            mov_list@ == mov_table::spec_reg_mov_list(state.pos, *state.bitmask),
            forall|j: int|
                0 <= j < k ==> !spec_mov_is_legal(
                    state.pos,
                    state.zob_keys@,
                    *state.bitmask,
                    #[trigger] mov_list@[j],
                ),
        decreases n - k,
    {
        let (from, to, tp, promo) = util::decode_u32_mov(mov_list[k]);
        state.do_mov(from, to, tp, promo);
        let checked: bool = mov_table::is_in_check(state, player);
        state.undo_mov();
        assert(state.history@ =~= old(state).history@);
        if !checked {
            return false;
        }
        k += 1;
    }
    true
}

/// Leaf positions `depth` plies on from the moves `movs[0..k]`.
pub open spec fn spec_perft_sum(
    pos: Position,
    zob_keys: Seq<Vec<u64>>,
    m: BitMask,
    movs: Seq<u32>,
    k: nat,
    depth: nat,
) -> nat
    decreases depth, 0nat, k,
{
    if k == 0 || k > movs.len() || depth == 0 {
        0
    } else {
        spec_perft_sum(pos, zob_keys, m, movs, (k - 1) as nat, depth) + spec_perft(
            spec_after(pos, zob_keys, movs[k - 1]),
            zob_keys,
            m,
            (depth - 1) as nat,
        )
    }
}

/// Whether one of the moves takes a king.
pub open spec fn spec_takes_king(pos: Position, movs: Seq<u32>) -> bool {
    exists|j: int|
        0 <= j < movs.len() && {
            ||| pos.squares[util::mov_to(#[trigger] movs[j]) as int] == def::WK
            ||| pos.squares[util::mov_to(movs[j]) as int] == def::BK
        }
}

/// Number of positions that sequences of `depth` legal moves lead to: a
/// position in which the player who has just moved stands in check was
/// reached by no legal move and counts for nothing, and so does whatever
/// follows it.
pub open spec fn spec_perft(pos: Position, zob_keys: Seq<Vec<u64>>, m: BitMask, depth: nat) -> nat
    decreases depth, 1nat, 0nat,
{
    if mov_table::spec_in_check(pos, m, def::spec_opposite_player(pos.player)) {
        0
    } else if depth == 0 {
        1
    } else if spec_takes_king(pos, mov_table::spec_reg_mov_list(pos, m)) {
        0
    } else {
        spec_perft_sum(
            pos,
            zob_keys,
            m,
            mov_table::spec_reg_mov_list(pos, m),
            mov_table::spec_reg_mov_list(pos, m).len(),
            depth,
        )
    }
}

/// `n`, or the largest `usize` where `n` is beyond it.
pub open spec fn spec_saturate(n: nat) -> usize {
    if n > usize::MAX {
        usize::MAX
    } else {
        n as usize
    }
}

fn saturating_sum(a: usize, b: usize) -> (r: usize)
    ensures
        r == spec_saturate((a + b) as nat),
{
    if usize::MAX - a < b {
        usize::MAX
    } else {
        a + b
    }
}

fn perft_of(state: &mut State, depth: u8) -> (r: usize)
    requires
        old(state).wf(),
    ensures
        final(state).wf(),
        final(state).pos == old(state).pos,
        final(state).history@ == old(state).history@,
        final(state).zob_keys == old(state).zob_keys,
        final(state).bitmask == old(state).bitmask,
        r == spec_saturate(
            spec_perft(old(state).pos, old(state).zob_keys@, *old(state).bitmask, depth as nat),
        ),
    decreases depth,
{
    if mov_table::is_in_check(state, def::get_opposite_player(state.pos.player)) {
        return 0;
    }
    if depth == 0 {
        return 1;
    }
    let mut node_count: usize = 0;
    let mov_list = mov_table::gen_reg_mov_list(state);
    let n: usize = mov_list.len();
    let mut k: usize = 0;
    while k < n
        invariant
            k <= n,
            n == mov_list@.len(),
            depth > 0,
            state.wf(),
            state.pos == old(state).pos,
            state.history@ == old(state).history@,
            state.zob_keys == old(state).zob_keys,
            state.bitmask == old(state).bitmask,
            mov_list@ == mov_table::spec_reg_mov_list(state.pos, *state.bitmask),
            forall|j: int|
                0 <= j < k ==> state.pos.squares[util::mov_to(#[trigger] mov_list@[j]) as int]
                    != def::WK && state.pos.squares[util::mov_to(mov_list@[j]) as int]
                    != def::BK,
            node_count == spec_saturate(
                spec_perft_sum(
                    state.pos,
                    state.zob_keys@,
                    *state.bitmask,
                    mov_list@,
                    k as nat,
                    depth as nat,
                ),
            ),
        decreases n - k,
    {
        let (from, to, tp, promo) = util::decode_u32_mov(mov_list[k]);
        if def::is_k(state.pos.squares[to]) {
            return 0;
        }
        state.do_mov(from, to, tp, promo);
        let below: usize = perft_of(state, depth - 1);
        node_count = saturating_sum(node_count, below);
        state.undo_mov();
        assert(state.history@ =~= old(state).history@);
        k += 1;
    }
    node_count
}

/// The two killer slots of a ply once a quiet move has cut off there with
/// `score`: the move takes the first slot, and moves the old first to the
/// second, where it beats the first's score or the first is empty; else it
/// takes the second on the same terms; else nothing changes.
pub open spec fn spec_killers_after(
    primary: KillerSlot,
    secondary: KillerSlot,
    score: i32,
    mov: u32,
) -> (KillerSlot, KillerSlot) {
    if score > primary.score || primary.mov == 0 {
        (KillerSlot { score, mov }, primary)
    } else if score > secondary.score || secondary.mov == 0 {
        (primary, KillerSlot { score, mov })
    } else {
        (primary, secondary)
    }
}

/// The history score of a move once it has cut off at `depth`: the square
/// of the depth more, unless that would reach the cap.
pub open spec fn spec_history_after(current: i32, depth: u8) -> i32 {
    if current < MAX_HISTORY_SCORE - depth * depth {
        (current + depth * depth) as i32
    } else {
        current
    }
}

/// What a search reads of an engine and writes to it.
pub open spec fn engine_of(engine: &SearchEngine) -> EngineView {
    EngineView {
        depth_preferred: engine.depth_preferred_hash_table.entries(),
        always_replace: engine.always_replace_hash_table.entries(),
        primary_killers: engine.primary_killer_table@,
        secondary_killers: engine.secondary_killer_table@,
        history: engine.index_history_table@,
        node_count: engine.node_count,
        sel_depth: engine.sel_depth,
    }
}

impl SearchEngine {
    /// Both tables have slots, the first keeps the deeper result and the
    /// second the newer, no stored score is beyond `SCORE_LIMIT`, and every
    /// history score is between 0 and its cap.
    pub open spec fn wf(&self) -> bool {
        &&& self.depth_preferred_hash_table.wf()
        &&& self.depth_preferred_hash_table.is_depth_preferred()
        &&& self.depth_preferred_hash_table.scores_within(SCORE_LIMIT as int)
        &&& self.always_replace_hash_table.wf()
        &&& !self.always_replace_hash_table.is_depth_preferred()
        &&& self.always_replace_hash_table.scores_within(SCORE_LIMIT as int)
        &&& forall|i: int|
            0 <= i < 4096 ==> 0 <= (#[trigger] self.index_history_table[i]) <= MAX_HISTORY_SCORE
    }

    /// Everything but the transposition tables is the same.
    pub open spec fn same_but_tables(&self, other: &SearchEngine) -> bool {
        &&& self.primary_killer_table == other.primary_killer_table
        &&& self.secondary_killer_table == other.secondary_killer_table
        &&& self.index_history_table == other.index_history_table
        &&& self.time_tracker == other.time_tracker
        &&& self.max_time_millis == other.max_time_millis
        &&& self.node_count == other.node_count
        &&& self.sel_depth == other.sel_depth
        &&& self.abort == other.abort
        &&& self.iterations == other.iterations
    }

    /// What a search neither reads nor writes is the same: the clock, the
    /// budget, the order to stop, and the reports of the last search.
    pub open spec fn same_rest(&self, other: &SearchEngine) -> bool {
        &&& self.time_tracker == other.time_tracker
        &&& self.max_time_millis == other.max_time_millis
        &&& self.abort == other.abort
        &&& self.iterations == other.iterations
    }

    /// An engine whose two transposition tables have `hash_size / 2` slots
    /// each, with no time budget to run out of until a search sets one.
    pub fn new(hash_size: usize) -> (r: Self)
        requires
            hash_size >= 2,
        ensures
            r.wf(),
            !r.abort,
            r.node_count == 0,
            r.sel_depth == 0,
            r.max_time_millis == u128::MAX,
            r.iterations@.len() == 0,
            r.depth_preferred_hash_table.entries().len() == hash_size / 2,
            r.always_replace_hash_table.entries().len() == hash_size / 2,
            forall|i: int|
                0 <= i < hash_size / 2 ==> !(
                #[trigger] r.depth_preferred_hash_table.entries()[i]).used,
            forall|i: int|
                0 <= i < hash_size / 2 ==> !(#[trigger] r.always_replace_hash_table.entries()[i]).used,
            forall|i: int|
                0 <= i < PV_TRACK_LENGTH ==> (#[trigger] r.primary_killer_table[i]) == (KillerSlot {
                    score: 0,
                    mov: 0,
                }) && r.secondary_killer_table[i] == (KillerSlot { score: 0, mov: 0 }),
            forall|i: int| 0 <= i < 4096 ==> (#[trigger] r.index_history_table[i]) == 0,
    {
        SearchEngine {
            depth_preferred_hash_table: HashTable::new_depth_preferred(hash_size / 2),
            always_replace_hash_table: HashTable::new(hash_size / 2),
            primary_killer_table: [KillerSlot { score: 0, mov: 0 };128],
            secondary_killer_table: [KillerSlot { score: 0, mov: 0 };128],
            index_history_table: [0i32;4096],
            time_tracker: clock_now(),
            max_time_millis: u128::MAX,
            node_count: 0,
            sel_depth: 0,
            abort: false,
            iterations: Vec::new(),
        }
    }

    /// Empties both transposition tables.
    pub fn reset(&mut self)
        requires
            old(self).wf(),
        ensures
            final(self).wf(),
            final(self).same_but_tables(old(self)),
            final(self).depth_preferred_hash_table.entries().len() == old(
                self,
            ).depth_preferred_hash_table.entries().len(),
            final(self).always_replace_hash_table.entries().len() == old(
                self,
            ).always_replace_hash_table.entries().len(),
            forall|i: int|
                0 <= i < final(self).depth_preferred_hash_table.entries().len() ==> !(
                #[trigger] final(self).depth_preferred_hash_table.entries()[i]).used,
            forall|i: int|
                0 <= i < final(self).always_replace_hash_table.entries().len() ==> !(
                #[trigger] final(self).always_replace_hash_table.entries()[i]).used,
    {
        self.depth_preferred_hash_table.clear();
        self.always_replace_hash_table.clear();
    }

    /// Replaces both transposition tables by empty ones of `hash_size / 2`
    /// slots each.
    pub fn set_hash_size(&mut self, hash_size: usize)
        requires
            old(self).wf(),
            hash_size >= 2,
        ensures
            final(self).wf(),
            final(self).same_but_tables(old(self)),
            final(self).depth_preferred_hash_table.entries().len() == hash_size / 2,
            final(self).always_replace_hash_table.entries().len() == hash_size / 2,
            forall|i: int|
                0 <= i < hash_size / 2 ==> !(
                #[trigger] final(self).depth_preferred_hash_table.entries()[i]).used,
            forall|i: int|
                0 <= i < hash_size / 2 ==> !(
                #[trigger] final(self).always_replace_hash_table.entries()[i]).used,
    {
        self.depth_preferred_hash_table = HashTable::new_depth_preferred(hash_size / 2);
        self.always_replace_hash_table = HashTable::new(hash_size / 2);
    }

    /// Whether the player to move has no legal move, which without a check
    /// is stalemate. The position is left as it was found.
    pub fn in_stale_mate(&self, state: &mut State) -> (r: bool)
        requires
            old(state).wf(),
        ensures
            final(state).wf(),
            final(state).pos == old(state).pos,
            final(state).history@ == old(state).history@,
            final(state).zob_keys == old(state).zob_keys,
            final(state).bitmask == old(state).bitmask,
            r == !spec_has_legal_mov(old(state).pos, old(state).zob_keys@, *old(state).bitmask),
    {
        has_no_legal_mov(state)
    }

    /// Asks the search to stop: every node returns at once from now on.
    pub fn stop(&mut self)
        requires
            old(self).wf(),
        ensures
            final(self).wf(),
            final(self).abort,
            engine_of(final(self)) == engine_of(old(self)),
    {
        self.abort = true;
    }

    /// Number of leaf positions `depth` plies on, counting only sequences of
    /// legal moves; the largest `usize` where there are more. The position
    /// is left as it was found.
    pub fn perft(&self, state: &mut State, depth: u8) -> (r: usize)
        requires
            old(state).wf(),
        ensures
            final(state).wf(),
            final(state).pos == old(state).pos,
            final(state).history@ == old(state).history@,
            r == spec_saturate(
                spec_perft(old(state).pos, old(state).zob_keys@, *old(state).bitmask, depth as nat),
            ),
    {
        perft_of(state, depth)
    }

    /// Probes the depth-preferred table for the position, then the
    /// always-replace table.
    pub fn get_hash(&self, state: &State, depth: u8) -> (r: LookupResult)
        requires
            self.wf(),
        ensures
            r == view_get_hash(engine_of(self), state.pos, depth),
            match r {
                LookupResult::Match(_, score, _) => -SCORE_LIMIT <= score <= SCORE_LIMIT,
                _ => true,
            },
    {
        match self.depth_preferred_hash_table.get(
            state.pos.hash_key,
            state.pos.player,
            depth,
            state.pos.cas_rights,
            state.pos.enp_square,
        ) {
            LookupResult::NoMatch => self.always_replace_hash_table.get(
                state.pos.hash_key,
                state.pos.player,
                depth,
                state.pos.cas_rights,
                state.pos.enp_square,
            ),
            found => found,
        }
    }

    /// Stores a result for the position: in the depth-preferred table, or,
    /// where that keeps a deeper one, in the always-replace table.
    pub fn set_hash(&mut self, state: &State, depth: u8, hash_flag: u8, score: i32, mov: u32)
        requires
            old(self).wf(),
            -SCORE_LIMIT <= score <= SCORE_LIMIT,
        ensures
            final(self).wf(),
            final(self).same_but_tables(old(self)),
            engine_of(final(self)) == view_set_hash(
                engine_of(old(self)),
                state.pos,
                depth,
                hash_flag,
                score,
                mov,
            ),
    {
        if !self.depth_preferred_hash_table.set(
            state.pos.hash_key,
            state.pos.player,
            depth,
            state.pos.cas_rights,
            state.pos.enp_square,
            hash_flag,
            score,
            mov,
        ) {
            self.always_replace_hash_table.set(
                state.pos.hash_key,
                state.pos.player,
                depth,
                state.pos.cas_rights,
                state.pos.enp_square,
                hash_flag,
                score,
                mov,
            );
        }
    }

    /// Records a quiet move that cut off at `ply` with `score`. Beyond the
    /// plies that killers are kept for nothing is recorded.
    pub fn update_killer_table(&mut self, score: i32, ply: u8, mov: u32)
        requires
            old(self).wf(),
        ensures
            final(self).wf(),
            final(self).same_rest(old(self)),
            engine_of(final(self)) == view_update_killer(engine_of(old(self)), score, ply, mov),
    {
        let ply_index: usize = ply as usize;
        if ply_index >= PV_TRACK_LENGTH {
            return ;
        }
        let primary = self.primary_killer_table[ply_index];
        if score > primary.score || primary.mov == 0 {
            self.primary_killer_table[ply_index] = KillerSlot { score, mov };
            self.secondary_killer_table[ply_index] = primary;
        } else {
            let secondary = self.secondary_killer_table[ply_index];
            if score > secondary.score || secondary.mov == 0 {
                self.secondary_killer_table[ply_index] = KillerSlot { score, mov };
            }
        }
        assert(self.primary_killer_table@ =~= old(self).primary_killer_table@.update(
            ply as int,
            spec_killers_after(
                old(self).primary_killer_table[ply as int],
                old(self).secondary_killer_table[ply as int],
                score,
                mov,
            ).0,
        ));
        assert(self.secondary_killer_table@ =~= old(self).secondary_killer_table@.update(
            ply as int,
            spec_killers_after(
                old(self).primary_killer_table[ply as int],
                old(self).secondary_killer_table[ply as int],
                score,
                mov,
            ).1,
        ));
    }

    /// The two killer moves to try at `ply`. Where the ply has none of its
    /// own, the pair of two plies earlier stands in, when the same player was
    /// to move; where it has only the first, the first of two plies earlier
    /// is its second. Up to ply 2, and beyond the plies that killers are
    /// kept for, nothing stands in.
    pub fn get_killer_mov(&self, ply: u8) -> (r: (u32, u32))
        ensures
            r == view_killer_mov(engine_of(self), ply),
    {
        let ply_index: usize = ply as usize;
        if ply_index >= PV_TRACK_LENGTH {
            return (0, 0);
        }
        let primary_killer: u32 = self.primary_killer_table[ply_index].mov;
        if primary_killer == 0 && ply > 2 {
            return (
                self.primary_killer_table[ply_index - 2].mov,
                self.secondary_killer_table[ply_index - 2].mov,
            );
        }
        let secondary_killer: u32 = self.secondary_killer_table[ply_index].mov;
        if secondary_killer == 0 && ply > 2 {
            return (primary_killer, self.primary_killer_table[ply_index - 2].mov);
        }
        (primary_killer, secondary_killer)
    }

    /// Credits the quiet move from `from` to `to` with a cutoff at `depth`.
    pub fn update_history_table(&mut self, depth: u8, from: usize, to: usize)
        requires
            old(self).wf(),
            from < 64,
            to < 64,
        ensures
            final(self).wf(),
            final(self).same_rest(old(self)),
            engine_of(final(self)) == view_update_history(engine_of(old(self)), depth, from, to),
    {
        let d: i32 = depth as i32;
        assert(0 <= d * d <= 65025) by (nonlinear_arith)
            requires
                0 <= d <= 255,
        ;
        let history_score_increment: i32 = d * d;
        let current: i32 = self.index_history_table[from * 64 + to];
        if current < MAX_HISTORY_SCORE - history_score_increment {
            self.index_history_table[from * 64 + to] = current + history_score_increment;
        }
        assert(self.index_history_table@ =~= old(self).index_history_table@.update(
            from * 64 + to,
            spec_history_after(old(self).index_history_table@[from * 64 + to], depth),
        ));
    }

    /// Appends to `pv` the line that the transposition tables hold from the
    /// position, up to `PV_PRINT_LENGTH` moves counted from `mov_index`. The
    /// position is left as it was found.
    pub fn retrieve_pv(&self, state: &mut State, pv: &mut Vec<u32>, mov_index: usize)
        requires
            self.wf(),
            old(state).wf(),
            mov_index <= PV_PRINT_LENGTH,
        ensures
            final(state).wf(),
            final(state).pos == old(state).pos,
            final(state).history@ == old(state).history@,
            final(state).zob_keys == old(state).zob_keys,
            final(state).bitmask == old(state).bitmask,
            final(pv)@ == old(pv)@ + spec_pv(
                engine_of(self),
                game_of(old(state)),
                (PV_PRINT_LENGTH - mov_index) as nat,
            ),
        decreases PV_PRINT_LENGTH - mov_index,
    {
        let mov: u32 = match self.get_hash(state, MAX_DEPTH) {
            LookupResult::Match(_flag, _score, hash_mov) => hash_mov,
            LookupResult::MovOnly(hash_mov) => hash_mov,
            LookupResult::NoMatch => 0,
        };
        if mov_index == PV_PRINT_LENGTH || mov == 0 {
            assert(pv@ + Seq::<u32>::empty() =~= pv@);
            return ;
        }
        let player: u8 = state.pos.player;
        let (from, to, tp, promo) = util::decode_u32_mov(mov);
        state.do_mov(from, to, tp, promo);
        if mov_table::is_in_check(state, player) {
            state.undo_mov();
            assert(state.history@ =~= old(state).history@);
            assert(pv@ + Seq::<u32>::empty() =~= pv@);
            return ;
        }
        pv.push(mov);
        assert(game_of(state) == game_after(game_of(old(state)), mov));
        self.retrieve_pv(state, pv, mov_index + 1);
        state.undo_mov();
        assert(state.history@ =~= old(state).history@);
        assert(pv@ =~= old(pv)@ + spec_pv(
            engine_of(self),
            game_of(old(state)),
            (PV_PRINT_LENGTH - mov_index) as nat,
        ));
    }
}

/// Whether a count of nodes has grown, or has reached the largest count.
pub open spec fn counted_more(before: u64, after: u64) -> bool {
    after > before || after == u64::MAX
}

/// Whether a count of nodes has passed one at which the clock is read:
/// a multiple of 4096.
pub open spec fn passed_a_poll(before: u64, after: u64) -> bool {
    before / 4096 < after / 4096
}

/// The count that follows another is one at which the clock is read only
/// where it has passed a multiple of 4096.
pub proof fn lemma_poll_is_passed(before: u64)
    requires
        before < u64::MAX,
        (before + 1) as u64 & TIME_CHECK_INTERVAL == 0,
    ensures
        passed_a_poll(before, (before + 1) as u64),
{
    let after: u64 = (before + 1) as u64;
    assert(after & 4095 == 0 && after > 0 ==> (after - 1) as u64 / 4096 < after / 4096)
        by (bit_vector);
}

/// The transposition tables have as many slots as before.
pub open spec fn same_sizes(after: &SearchEngine, before: &SearchEngine) -> bool {
    &&& after.depth_preferred_hash_table.entries().len()
        == before.depth_preferred_hash_table.entries().len()
    &&& after.always_replace_hash_table.entries().len()
        == before.always_replace_hash_table.entries().len()
}

/// The position is well formed and is, with its stack of earlier positions
/// and its tables, what it was before.
pub open spec fn state_restored(after: &State, before: &State) -> bool {
    &&& after.wf()
    &&& after.pos == before.pos
    &&& after.history@ == before.history@
    &&& after.zob_keys == before.zob_keys
    &&& after.bitmask == before.bitmask
}

/// A window that the search accepts: both bounds within `SCORE_LIMIT`, the
/// lower one below the highest score and the upper one above the lowest.
pub open spec fn window_ok(alpha: i32, beta: i32) -> bool {
    -SCORE_LIMIT <= alpha < SCORE_LIMIT && -SCORE_LIMIT < beta <= SCORE_LIMIT
}

/// What ranks the calls of the search that stay on one ply, so that each
/// call is followed only by calls of lower rank or on a later ply.
pub open spec fn ab_rank(depth: u8) -> nat {
    if depth == 0 {
        9
    } else if depth == 1 {
        6
    } else {
        (9 + 2 * depth) as nat
    }
}

/// The score of a position without looking ahead: 0 where the material
/// makes a draw, else the evaluation.
pub open spec fn spec_static_eval(pos: Position, m: BitMask) -> int {
    if eval::spec_eval_materials(pos).1 {
        0
    } else {
        eval::spec_evaluate(pos, m)
    }
}

/// The score of a position without looking ahead.
pub fn static_eval(state: &State) -> (r: i32)
    requires
        state.pos.wf(),
    ensures
        r == spec_static_eval(state.pos, *state.bitmask),
        -SCORE_LIMIT <= r <= SCORE_LIMIT,
{
    let (material_score, is_draw) = eval::eval_materials(state);
    if is_draw {
        0
    } else {
        eval::eval_state(state, material_score)
    }
}

/// Captures and promotions come before killer moves, and killer moves
/// before every other quiet move: a capture or promotion is ordered by more
/// than `KILLER_BASE_SCORE + PRIMARY_KILLER_SCORE`, a killer move by more
/// than `MAX_HISTORY_SCORE`, and any other move by its history score.
pub proof fn lemma_order_classes(
    history: Seq<i32>,
    pos: Position,
    zob_keys: Seq<Vec<u64>>,
    m: BitMask,
    mov: u32,
    killers: (u32, u32),
)
    requires
        history.len() == 4096,
        forall|i: int| 0 <= i < 4096 ==> 0 <= #[trigger] history[i] <= MAX_HISTORY_SCORE,
    ensures
        pos.squares[util::mov_to(mov) as int] != 0 || util::mov_promo(mov) != 0
            ==> spec_order_score(history, pos, zob_keys, m, mov, killers) > KILLER_BASE_SCORE
            + PRIMARY_KILLER_SCORE,
        pos.squares[util::mov_to(mov) as int] == 0 && util::mov_promo(mov) == 0 && (mov
            == killers.0 || mov == killers.1) ==> MAX_HISTORY_SCORE < spec_order_score(
            history,
            pos,
            zob_keys,
            m,
            mov,
            killers,
        ) <= KILLER_BASE_SCORE + PRIMARY_KILLER_SCORE,
        pos.squares[util::mov_to(mov) as int] == 0 && util::mov_promo(mov) == 0 && mov
            != killers.0 && mov != killers.1 ==> 0 <= spec_order_score(
            history,
            pos,
            zob_keys,
            m,
            mov,
            killers,
        ) <= MAX_HISTORY_SCORE,
{
    let from = util::mov_from(mov);
    let to = util::mov_to(mov);
    let after = spec_do_mov(pos, zob_keys, from, to, util::mov_kind(mov), util::mov_promo(mov));
    lemma_see_exchange_bounds(after, zob_keys, m, to, after.squares[to as int], SEE_DEPTH as nat);
    assert(0 <= from * 64 + to < 4096);
}

/// The ordered list is in order: no move scores more than a move before it.
pub proof fn lemma_ordered_is_ordered(
    history: Seq<i32>,
    pos: Position,
    zob_keys: Seq<Vec<u64>>,
    m: BitMask,
    movs: Seq<u32>,
    k: nat,
    skip: u32,
    killers: (u32, u32),
)
    ensures
        is_ordered(spec_ordered(history, pos, zob_keys, m, movs, k, skip, killers)),
        spec_ordered(history, pos, zob_keys, m, movs, k, skip, killers).len() <= k,
    decreases k,
{
    if k > 0 && k <= movs.len() {
        lemma_ordered_is_ordered(history, pos, zob_keys, m, movs, (k - 1) as nat, skip, killers);
        let before = spec_ordered(history, pos, zob_keys, m, movs, (k - 1) as nat, skip, killers);
        let mov = movs[k - 1];
        if mov != skip {
            lemma_insert_scored(
                before,
                (spec_order_score(history, pos, zob_keys, m, mov, killers) as i32, mov),
            );
        }
    }
}

/// The captures that the quiescence search follows are in order: none has
/// a higher exchange value than one before it.
pub proof fn lemma_ordered_captures_is_ordered(
    pos: Position,
    zob_keys: Seq<Vec<u64>>,
    m: BitMask,
    caps: Seq<u32>,
    k: nat,
    delta: int,
)
    ensures
        is_ordered(spec_ordered_captures(pos, zob_keys, m, caps, k, delta)),
        spec_ordered_captures(pos, zob_keys, m, caps, k, delta).len() <= k,
    decreases k,
{
    if k > 0 && k <= caps.len() {
        lemma_ordered_captures_is_ordered(pos, zob_keys, m, caps, (k - 1) as nat, delta);
        let before = spec_ordered_captures(pos, zob_keys, m, caps, (k - 1) as nat, delta);
        let cap = caps[k - 1];
        if spec_capture_gain(pos, cap) >= delta {
            lemma_insert_scored(
                before,
                (
                    spec_see(
                        pos,
                        zob_keys,
                        m,
                        util::mov_from(cap),
                        util::mov_to(cap),
                        util::mov_kind(cap),
                        util::mov_promo(cap),
                    ) as i32,
                    cap,
                ),
            );
        }
    }
}

/// Every move of the ordered list is one of the moves it was made from.
pub proof fn lemma_ordered_members(
    history: Seq<i32>,
    pos: Position,
    zob_keys: Seq<Vec<u64>>,
    m: BitMask,
    movs: Seq<u32>,
    k: nat,
    skip: u32,
    killers: (u32, u32),
)
    requires
        k <= movs.len(),
    ensures
        forall|i: int|
            0 <= i < spec_ordered(history, pos, zob_keys, m, movs, k, skip, killers).len()
                ==> exists|j: int|
                0 <= j < k && movs[j] == (#[trigger] spec_ordered(
                    history,
                    pos,
                    zob_keys,
                    m,
                    movs,
                    k,
                    skip,
                    killers,
                )[i]).1,
    decreases k,
{
    if k > 0 {
        lemma_ordered_members(history, pos, zob_keys, m, movs, (k - 1) as nat, skip, killers);
        let before = spec_ordered(history, pos, zob_keys, m, movs, (k - 1) as nat, skip, killers);
        let after = spec_ordered(history, pos, zob_keys, m, movs, k, skip, killers);
        let mov = movs[k - 1];
        if mov != skip {
            let item = (spec_order_score(history, pos, zob_keys, m, mov, killers) as i32, mov);
            let p = spec_insert_pos(before, item.0) as int;
            lemma_insert_pos_bounds(before, item.0);
            assert forall|i: int| 0 <= i < after.len() implies exists|j: int|
                0 <= j < k && movs[j] == (#[trigger] after[i]).1 by {
                if i < p {
                    assert(after[i] == before[i]);
                    let j = choose|j: int| 0 <= j < k - 1 && movs[j] == before[i].1;
                    assert(0 <= j < k && movs[j] == after[i].1);
                } else if i == p {
                    assert(movs[k - 1] == after[i].1);
                } else {
                    assert(after[i] == before[i - 1]);
                    let j = choose|j: int| 0 <= j < k - 1 && movs[j] == before[i - 1].1;
                    assert(0 <= j < k && movs[j] == after[i].1);
                }
            }
        } else {
            assert forall|i: int| 0 <= i < after.len() implies exists|j: int|
                0 <= j < k && movs[j] == (#[trigger] after[i]).1 by {
                let j = choose|j: int| 0 <= j < k - 1 && movs[j] == before[i].1;
                assert(0 <= j < k && movs[j] == after[i].1);
            }
        }
    }
}

/// The score of a position in which the player to move is mated, at `ply`
/// plies from the root: the mate lies one ply on.
pub open spec fn spec_mated_score(ply: u8) -> int {
    -eval::MATE_VAL + ply + 1
}

/// The window that is left at `ply` once it is narrowed to the mates that
/// are still possible there, and the nearest of these mates where the
/// window lies beyond it; at the root the window is left as it is.
pub open spec fn spec_mate_distance(alpha: i32, beta: i32, ply: u8) -> (Option<i32>, i32, i32) {
    let mating_val = (eval::MATE_VAL - ply) as i32;
    let mated_val = (-eval::MATE_VAL + ply) as i32;
    if ply == 0 {
        (None, alpha, beta)
    } else if mating_val < beta && alpha >= mating_val {
        (Some(mating_val), alpha, beta)
    } else {
        let upper = if mating_val < beta {
            mating_val
        } else {
            beta
        };
        if mated_val > alpha && upper <= mated_val {
            (Some(mated_val), alpha, upper)
        } else if mated_val > alpha {
            (None, mated_val, upper)
        } else {
            (None, alpha, upper)
        }
    }
}

/// What a node that is so far ahead in material is given up for without a
/// search: 0 where the material makes a draw, `beta` where material and
/// evaluation are both beyond `beta` by the margin of the depth, and
/// nothing where the node is to be searched.
pub open spec fn spec_futility(pos: Position, m: BitMask, beta: i32, depth: u8) -> Option<i32> {
    let material = eval::spec_eval_materials(pos);
    if material.1 {
        Some(0i32)
    } else if material.0 - FUTILITY_MARGIN[depth as int] > beta && eval::spec_eval_state(
        pos,
        m,
        material.0,
    ) - FUTILITY_MARGIN[depth as int] > beta {
        Some(beta)
    } else {
        None
    }
}

/// What a search is owed at a node where the player to move has no legal
/// move: the position is legal and no draw by repetition or by the
/// fifty-move rule, the transposition tables hold nothing for it, the
/// window takes in the score of a mate at this ply, the depth is at least 1
/// and short of the depths at which a pass is tried or a move is looked for
/// first, and the node is not given up for its material.
pub open spec fn node_without_moves(
    v: EngineView,
    g: GameView,
    in_check: bool,
    on_extend: bool,
    alpha: i32,
    beta: i32,
    depth: u8,
    ply: u8,
) -> bool {
    &&& ply < PV_TRACK_LENGTH
    &&& 1 <= depth < NM_DEPTH
    &&& (ply == 0 || !crate::state::spec_drawn(g.pos, g.earlier))
    &&& view_get_hash(v, g.pos, depth) == LookupResult::NoMatch
    &&& !mov_table::spec_in_check(g.pos, g.masks, def::spec_opposite_player(g.pos.player))
    &&& !spec_has_legal_mov(g.pos, g.zob_keys, g.masks)
    &&& alpha < eval::MATE_VAL - ply
    &&& beta > spec_mated_score(ply)
    &&& (ply == 0 || on_extend || in_check || spec_in_endgame(g.pos) || spec_futility(
        g.pos,
        g.masks,
        spec_mate_distance(alpha, beta, ply).2,
        depth,
    ).is_none())
}

/// The score of a mate against the player to move at `ply`, or `alpha`
/// where that is more.
pub open spec fn spec_raised(alpha: i32, ply: u8) -> int {
    if alpha > spec_mated_score(ply) {
        alpha as int
    } else {
        spec_mated_score(ply)
    }
}

/// What a node has found where every move that it has searched so far was
/// illegal: nothing, or the score of a mate at its ply and a lower bound
/// raised to it.
pub open spec fn found_no_legal(found: Found, alpha: i32, ply: u8) -> bool {
    ||| (found.best_score == -eval::MATE_VAL && found.lower == alpha)
    ||| (found.best_score == spec_mated_score(ply) && found.lower == spec_raised(alpha, ply))
}

/// How a node that is not settled comes to the search of its moves: whether
/// a pass has already shown that the score stays at the upper bound or
/// above, the move that the search starts with, and the engine by then.
pub open spec fn spec_node_start(
    v: EngineView,
    g: GameView,
    in_check: bool,
    on_extend: bool,
    alpha: i32,
    beta: i32,
    depth: u8,
    ply: u8,
) -> (bool, u32, EngineView) {
    let counted = view_count_node(v);
    let o = spec_open_node(counted, g, in_check, on_extend, alpha, beta, depth, ply);
    let passed = if o.try_pass {
        spec_null_move(counted, g, o.upper, depth, ply)
    } else {
        (false, counted)
    };
    let start = if o.deepen {
        spec_deepen(passed.1, g, in_check, on_extend, o.lower, o.upper, depth, ply)
    } else {
        (o.hash_mov, passed.1)
    };
    (passed.0, start.0, start.1)
}

/// Whether a node comes to the search of its moves and finds no legal one
/// among them: it is not settled on opening, its depth is not 0, a pass, if
/// one is tried, does not keep the score at the upper bound, a mate at this
/// ply is short of the upper bound, the player to move has no legal move,
/// and the move that the search starts with, if there is one, is not legal
/// either.
pub open spec fn node_finds_no_legal_mov(
    v: EngineView,
    g: GameView,
    in_check: bool,
    on_extend: bool,
    alpha: i32,
    beta: i32,
    depth: u8,
    ply: u8,
) -> bool {
    let o = spec_open_node(view_count_node(v), g, in_check, on_extend, alpha, beta, depth, ply);
    let start = spec_node_start(v, g, in_check, on_extend, alpha, beta, depth, ply);
    &&& o.settled.is_none()
    &&& depth != 0
    &&& o.upper > spec_mated_score(ply)
    &&& !start.0
    &&& !spec_has_legal_mov(g.pos, g.zob_keys, g.masks)
    &&& (start.1 == 0 || !spec_mov_is_legal(g.pos, g.zob_keys, g.masks, start.1))
}

/// What a node returns that finds no legal move: 0, a stalemate, where the
/// player to move is not in check; else the score of a mate at its ply, or
/// its lower bound where that is more, and the lower bound where no move at
/// all is listed for the position.
pub open spec fn spec_score_without_legal_mov(
    v: EngineView,
    g: GameView,
    in_check: bool,
    on_extend: bool,
    alpha: i32,
    beta: i32,
    depth: u8,
    ply: u8,
) -> int {
    let o = spec_open_node(view_count_node(v), g, in_check, on_extend, alpha, beta, depth, ply);
    let start = spec_node_start(v, g, in_check, on_extend, alpha, beta, depth, ply);
    if !in_check {
        0
    } else if start.1 == 0 && spec_move_list(start.2, g, 0, ply).len() == 0 {
        o.lower as int
    } else {
        spec_raised(o.lower, ply)
    }
}

/// A node at which the player to move has no legal move, and which
/// `node_without_moves` describes, comes to the search of its moves and
/// finds no legal one: it scores 0 without a check, and with a check the
/// score of a mate at its ply or what the mates possible at its ply leave
/// as the lower bound.
pub proof fn lemma_node_without_moves_opens(
    v: EngineView,
    g: GameView,
    in_check: bool,
    on_extend: bool,
    alpha: i32,
    beta: i32,
    depth: u8,
    ply: u8,
)
    requires
        node_without_moves(v, g, in_check, on_extend, alpha, beta, depth, ply),
    ensures
        node_finds_no_legal_mov(v, g, in_check, on_extend, alpha, beta, depth, ply),
        spec_score_without_legal_mov(v, g, in_check, on_extend, alpha, beta, depth, ply) == (
        if !in_check {
            0
        } else if spec_move_list(view_count_node(v), g, 0, ply).len() == 0 {
            spec_mate_distance(alpha, beta, ply).1 as int
        } else {
            spec_raised(spec_mate_distance(alpha, beta, ply).1, ply)
        }),
{
    reveal(spec_open_node);
}

/// A node that is settled on opening returns what settles it and changes
/// nothing in the engine but the count of nodes.
pub proof fn lemma_settled_node(
    v: EngineView,
    g: GameView,
    in_check: bool,
    on_extend: bool,
    alpha: i32,
    beta: i32,
    depth: u8,
    ply: u8,
)
    requires
        spec_open_node(
            view_count_node(v),
            g,
            in_check,
            on_extend,
            alpha,
            beta,
            depth,
            ply,
        ).settled.is_some(),
    ensures
        spec_ab(v, g, in_check, on_extend, alpha, beta, depth, ply) == (
            spec_open_node(
                view_count_node(v),
                g,
                in_check,
                on_extend,
                alpha,
                beta,
                depth,
                ply,
            ).settled.unwrap(),
            view_count_node(v),
        ),
{
}

/// A position in which the player who has just moved stands in check
/// settles the node with a mate for the player to move at this ply; after
/// the root a drawn position settles it with 0; and beyond ply 1 so does an
/// exact result of sufficient depth that the tables hold, with its score.
pub proof fn lemma_what_settles(
    v: EngineView,
    g: GameView,
    in_check: bool,
    on_extend: bool,
    alpha: i32,
    beta: i32,
    depth: u8,
    ply: u8,
)
    ensures
        mov_table::spec_in_check(g.pos, g.masks, def::spec_opposite_player(g.pos.player))
            ==> spec_open_node(v, g, in_check, on_extend, alpha, beta, depth, ply).settled == Some(
            (eval::MATE_VAL - ply) as i32,
        ),
        !mov_table::spec_in_check(g.pos, g.masks, def::spec_opposite_player(g.pos.player)) && ply
            > 0 && crate::state::spec_drawn(g.pos, g.earlier) ==> spec_open_node(
            v,
            g,
            in_check,
            on_extend,
            alpha,
            beta,
            depth,
            ply,
        ).settled == Some(0i32),
        spec_enter(g, ply).is_none() && spec_mate_distance(alpha, beta, ply).0.is_none() && ply > 1
            ==> match view_get_hash(v, g.pos, depth) {
            LookupResult::Match(flag, score, _) => flag == crate::hash_tbl::HASH_TYPE_EXACT
                ==> spec_open_node(v, g, in_check, on_extend, alpha, beta, depth, ply).settled
                == Some(score),
            _ => true,
        },
{
    reveal(spec_open_node);
}

/// A quiet position is worth what it stands at: where the quiescence search
/// finds the position settled, it returns that score, counts the node and
/// notes the ply, and changes nothing else.
pub proof fn lemma_quiet_position(v: EngineView, g: GameView, alpha: i32, beta: i32, ply: u8)
    requires
        spec_stand(g, alpha, beta, ply).settled.is_some(),
        !spec_stand(g, alpha, beta, ply).illegal,
        !spec_stand(g, alpha, beta, ply).in_check,
    ensures
        spec_q(v, g, alpha, beta, ply) == (
            spec_stand(g, alpha, beta, ply).settled.unwrap(),
            view_seen(view_count_node(v), ply),
        ),
{
}

/// What a capture or promotion may win at most: the piece it takes and the
/// piece it promotes to.
pub open spec fn spec_capture_gain(pos: Position, mov: u32) -> int {
    eval::spec_val_of(pos.squares[util::mov_to(mov) as int]) + eval::spec_val_of(
        util::mov_promo(mov),
    )
}

/// Orders the captures and promotions that may win at least `delta` and
/// lose no material in the exchange by their exchange value. The position is left as it was found.
pub fn order_captures(state: &mut State, caps: &Vec<u32>, delta: i64) -> (r: Vec<(i32, u32)>)
    requires
        old(state).wf(),
    ensures
        state_restored(final(state), old(state)),
        r@ == spec_ordered_captures(
            old(state).pos,
            old(state).zob_keys@,
            *old(state).bitmask,
            caps@,
            caps@.len(),
            delta as int,
        ),
{
    let mut scored: Vec<(i32, u32)> = Vec::new();
    let n: usize = caps.len();
    let mut k: usize = 0;
    while k < n
        invariant
            k <= n,
            n == caps@.len(),
            state_restored(state, old(state)),
            scored@ == spec_ordered_captures(
                state.pos,
                state.zob_keys@,
                *state.bitmask,
                caps@,
                k as nat,
                delta as int,
            ),
        decreases n - k,
    {
        let cap: u32 = caps[k];
        let (from, to, tp, promo) = util::decode_u32_mov(cap);
        let gain: i32 = eval::val_of(state.pos.squares[to]) + eval::val_of(promo);
        if (gain as i64) >= delta {
            let value: i32 = see(state, from, to, tp, promo);
            if value >= 0 {
                insert_scored(&mut scored, (value, cap));
            }
        }
        k += 1;
    }
    scored
}

impl SearchEngine {
    /// Orders the moves of `mov_list` but for `skip`. The position is left
    /// as it was found.
    pub fn order_movs(&self, state: &mut State, mov_list: &Vec<u32>, skip: u32, ply: u8) -> (r: Vec<
        (i32, u32),
    >)
        requires
            self.wf(),
            old(state).wf(),
        ensures
            state_restored(final(state), old(state)),
            r@ == spec_ordered(
                self.index_history_table@,
                old(state).pos,
                old(state).zob_keys@,
                *old(state).bitmask,
                mov_list@,
                mov_list@.len(),
                skip,
                view_killer_mov(engine_of(self), ply),
            ),
    {
        let (primary_killer, secondary_killer) = self.get_killer_mov(ply);
        let mut ordered: Vec<(i32, u32)> = Vec::new();
        let n: usize = mov_list.len();
        let mut k: usize = 0;
        while k < n
            invariant
                k <= n,
                n == mov_list@.len(),
                self.wf(),
                state_restored(state, old(state)),
                (primary_killer, secondary_killer) == view_killer_mov(engine_of(self), ply),
                ordered@ == spec_ordered(
                    self.index_history_table@,
                    state.pos,
                    state.zob_keys@,
                    *state.bitmask,
                    mov_list@,
                    k as nat,
                    skip,
                    view_killer_mov(engine_of(self), ply),
                ),
            decreases n - k,
        {
            let mov: u32 = mov_list[k];
            if mov != skip {
                let (from, to, tp, promo) = util::decode_u32_mov(mov);
                let score: i32 = if state.pos.squares[to] != 0 {
                    MAX_NON_CAP_SCORE + see(state, from, to, tp, promo)
                } else if promo != 0 {
                    MAX_NON_CAP_SCORE + eval::val_of(promo)
                } else if mov == primary_killer {
                    KILLER_BASE_SCORE + PRIMARY_KILLER_SCORE
                } else if mov == secondary_killer {
                    KILLER_BASE_SCORE + SECONDARY_KILLER_SCORE
                } else {
                    self.index_history_table[from * 64 + to]
                };
                insert_scored(&mut ordered, (score, mov));
            }
            k += 1;
        }
        ordered
    }

    /// The moves of the position but for `skip`, in the order in which they
    /// are searched. The position is left as it was found.
    fn move_list(&self, state: &mut State, skip: u32, ply: u8) -> (r: Vec<(i32, u32)>)
        requires
            self.wf(),
            old(state).wf(),
        ensures
            state_restored(final(state), old(state)),
            r@ == spec_move_list(engine_of(self), game_of(old(state)), skip, ply),
            !spec_has_legal_mov(old(state).pos, old(state).zob_keys@, *old(state).bitmask)
                ==> forall|i: int|
                0 <= i < r@.len() ==> !spec_mov_is_legal(
                    old(state).pos,
                    old(state).zob_keys@,
                    *old(state).bitmask,
                    (#[trigger] r@[i]).1,
                ),
    {
        reveal(spec_move_list);
        let mov_list = mov_table::gen_reg_mov_list(state);
        proof {
            lemma_ordered_members(
                self.index_history_table@,
                state.pos,
                state.zob_keys@,
                *state.bitmask,
                mov_list@,
                mov_list@.len(),
                skip,
                view_killer_mov(engine_of(self), ply),
            );
        }
        self.order_movs(state, &mov_list, skip, ply)
    }

    /// Counts one more node, up to the largest count.
    fn count_node(&mut self)
        ensures
            *final(self) == (SearchEngine {
                node_count: if old(self).node_count < u64::MAX {
                    (old(self).node_count + 1) as u64
                } else {
                    old(self).node_count
                },
                ..*old(self)
            }),
            engine_of(final(self)) == view_count_node(engine_of(old(self))),
    {
        if self.node_count < u64::MAX {
            self.node_count = self.node_count + 1;
        }
    }

    /// Whether the time for the search has run out. The clock is read only
    /// at every 4096th node.
    fn time_is_up(&self) -> (r: bool)
        ensures
            self.node_count & TIME_CHECK_INTERVAL != 0 ==> !r,
            self.max_time_millis == u128::MAX ==> !r,
    {
        self.node_count & TIME_CHECK_INTERVAL == 0 && over_budget(
            clock_elapsed_millis(&self.time_tracker),
            self.max_time_millis,
        )
    }

    /// Counts the node and says whether the clock is to stop the search
    /// here: it is read only at every 4096th node.
    fn poll_clock(&mut self) -> (r: bool)
        ensures
            *final(self) == (SearchEngine {
                node_count: if old(self).node_count < u64::MAX {
                    (old(self).node_count + 1) as u64
                } else {
                    old(self).node_count
                },
                ..*old(self)
            }),
            engine_of(final(self)) == view_count_node(engine_of(old(self))),
            final(self).node_count & TIME_CHECK_INTERVAL != 0 ==> !r,
            old(self).max_time_millis == u128::MAX ==> !r,
            r ==> passed_a_poll(old(self).node_count, final(self).node_count),
    {
        self.count_node();
        proof {
            if old(self).node_count < u64::MAX {
                if self.node_count & TIME_CHECK_INTERVAL == 0 {
                    lemma_poll_is_passed(old(self).node_count);
                }
            } else {
                assert(u64::MAX & 4095 != 0) by (bit_vector);
            }
        }
        self.time_is_up()
    }

    /// Narrows the window to the mates that are still possible at this ply,
    /// and returns the nearest of them where the window lies beyond it.
    fn mate_distance(alpha: i32, beta: i32, ply: u8) -> (r: (Option<i32>, i32, i32))
        requires
            window_ok(alpha, beta),
            ply < PV_TRACK_LENGTH,
        ensures
            r == spec_mate_distance(alpha, beta, ply),
            window_ok(r.1, r.2),
            match r.0 {
                Some(score) => -SCORE_LIMIT <= score <= SCORE_LIMIT,
                None => true,
            },
    {
        let mut alpha: i32 = alpha;
        let mut beta: i32 = beta;
        if ply > 0 {
            let mating_val: i32 = eval::MATE_VAL - ply as i32;
            if mating_val < beta {
                if alpha >= mating_val {
                    return (Some(mating_val), alpha, beta);
                }
                beta = mating_val;
            }
            let mated_val: i32 = -eval::MATE_VAL + ply as i32;
            if mated_val > alpha {
                if beta <= mated_val {
                    return (Some(mated_val), alpha, beta);
                }
                alpha = mated_val;
            }
        }
        (None, alpha, beta)
    }

    /// Probes the transposition tables. Beyond ply 1 a result that was
    /// searched deep enough settles the node where it is exact or lies
    /// beyond the window, and narrows the window where it does not. Returns
    /// the score if the node is settled, the window, and the stored move.
    fn probe_hash(&self, state: &State, alpha: i32, beta: i32, depth: u8, ply: u8) -> (r: (
        Option<i32>,
        i32,
        i32,
        u32,
    ))
        requires
            self.wf(),
            window_ok(alpha, beta),
        ensures
            r == spec_probe_hash(engine_of(self), state.pos, alpha, beta, depth, ply),
            window_ok(r.1, r.2),
            match r.0 {
                Some(score) => -SCORE_LIMIT <= score <= SCORE_LIMIT,
                None => true,
            },
    {
        let mut alpha: i32 = alpha;
        let mut beta: i32 = beta;
        let mut pv_mov: u32 = 0;
        match self.get_hash(state, depth) {
            LookupResult::Match(flag, score, mov) => {
                pv_mov = mov;
                if ply > 1 {
                    if flag == crate::hash_tbl::HASH_TYPE_EXACT {
                        return (Some(score), alpha, beta, pv_mov);
                    } else if flag == crate::hash_tbl::HASH_TYPE_ALPHA {
                        if score <= alpha {
                            return (Some(alpha), alpha, beta, pv_mov);
                        }
                        if score < beta {
                            beta = score;
                        }
                    } else if flag == crate::hash_tbl::HASH_TYPE_BETA {
                        if score >= beta {
                            return (Some(beta), alpha, beta, pv_mov);
                        }
                        if score > alpha {
                            alpha = score;
                        }
                    }
                }
            },
            LookupResult::MovOnly(mov) => {
                pv_mov = mov;
            },
            LookupResult::NoMatch => {},
        }
        (None, alpha, beta, pv_mov)
    }

    /// Whether the node is given up without a search because the player to
    /// move is so far ahead that the score cannot fall back to `beta` within
    /// `depth` plies: 0 where the material makes a draw, `beta` where
    /// material and evaluation are both beyond `beta` by the margin of the
    /// depth.
    fn futility(state: &State, beta: i32, depth: u8) -> (r: Option<i32>)
        requires
            state.pos.wf(),
            -SCORE_LIMIT < beta <= SCORE_LIMIT,
            depth <= FP_DEPTH,
        ensures
            r == spec_futility(state.pos, *state.bitmask, beta, depth),
    {
        let (score, is_draw) = eval::eval_materials(state);
        if is_draw {
            return Some(0);
        }
        if score - FUTILITY_MARGIN[depth as usize] > beta {
            let score: i32 = eval::eval_state(state, score);
            if score - FUTILITY_MARGIN[depth as usize] > beta {
                return Some(beta);
            }
        }
        None
    }

    /// Opens a node: says whether it is settled without a move being
    /// searched, and with what window and which further steps it goes on.
    fn open_node(
        &self,
        state: &State,
        in_check: bool,
        on_extend: bool,
        alpha: i32,
        beta: i32,
        depth: u8,
        ply: u8,
    ) -> (r: Opening)
        requires
            self.wf(),
            state.wf(),
            window_ok(alpha, beta),
            ply <= PV_TRACK_LENGTH,
        ensures
            r == spec_open_node(
                engine_of(self),
                game_of(state),
                in_check,
                on_extend,
                alpha,
                beta,
                depth,
                ply,
            ),
            window_ok(r.lower, r.upper),
            match r.settled {
                Some(score) => -SCORE_LIMIT <= score <= SCORE_LIMIT,
                None => ply < PV_TRACK_LENGTH,
            },
            r.try_pass ==> depth >= NM_DEPTH,
            r.deepen ==> depth >= IID_DEPTH,
            mov_table::spec_in_check(
                state.pos,
                *state.bitmask,
                def::spec_opposite_player(state.pos.player),
            ) ==> r.settled == Some((eval::MATE_VAL - ply) as i32),
    {
        reveal(spec_open_node);
        if mov_table::is_in_check(state, def::get_opposite_player(state.pos.player)) {
            return settled_opening(Some(eval::MATE_VAL - ply as i32), alpha, beta, 0);
        }
        if ply > 0 && state.is_draw() {
            return settled_opening(Some(0), alpha, beta, 0);
        }
        if ply as usize >= PV_TRACK_LENGTH {
            return settled_opening(Some(static_eval(state)), alpha, beta, 0);
        }
        let (settled, lower, upper) = SearchEngine::mate_distance(alpha, beta, ply);
        if settled.is_some() {
            return settled_opening(settled, lower, upper, 0);
        }
        let (settled, lower, upper, hash_mov) = self.probe_hash(state, lower, upper, depth, ply);
        if settled.is_some() {
            return settled_opening(settled, lower, upper, hash_mov);
        }
        let calm: bool = ply > 0 && !on_extend && !in_check && !in_endgame(state);
        Opening {
            settled: if depth != 0 && calm && depth <= FP_DEPTH {
                SearchEngine::futility(state, upper, depth)
            } else {
                None
            },
            lower,
            upper,
            hash_mov,
            quiesce: depth == 0,
            try_pass: calm && depth >= NM_DEPTH,
            deepen: beta > alpha + 1 && hash_mov == 0 && depth >= IID_DEPTH,
        }
    }

    /// Notes a move that has cut off: a quiet move in the history and
    /// killer tables, every move in the transposition tables with its score
    /// as a lower bound.
    fn record_cutoff(&mut self, state: &State, mov: u32, score: i32, searched: u8, ply: u8)
        requires
            old(self).wf(),
            -SCORE_LIMIT <= score <= SCORE_LIMIT,
        ensures
            final(self).wf(),
            final(self).iterations == old(self).iterations,
            final(self).time_tracker == old(self).time_tracker,
            final(self).max_time_millis == old(self).max_time_millis,
            final(self).abort == old(self).abort,
            final(self).node_count == old(self).node_count,
            same_sizes(final(self), old(self)),
            engine_of(final(self)) == spec_cutoff(
                engine_of(old(self)),
                state.pos,
                mov,
                score,
                searched,
                ply,
            ),
    {
        reveal(spec_cutoff);
        let (from, to, _tp, promo) = util::decode_u32_mov(mov);
        if state.pos.squares[to] == 0 && promo == 0 {
            self.update_history_table(searched, from, to);
            self.update_killer_table(score, ply, mov);
        }
        self.set_hash(state, searched, crate::hash_tbl::HASH_TYPE_BETA, score, mov);
    }

    /// Searches the position after the move that led to it, behind the
    /// first move with a window of one point and with the full window only
    /// if that finds an improvement short of a cutoff. The score is seen from
    /// the player who made the move.
    fn pvs_child(
        &mut self,
        state: &mut State,
        gives_check: bool,
        extended: bool,
        pv_found: bool,
        alpha: i32,
        beta: i32,
        depth: u8,
        ply: u8,
    ) -> (r: i32)
        requires
            old(self).wf(),
            old(state).wf(),
            window_ok(alpha, beta),
            1 <= depth <= MAX_DEPTH + 1,
            ply < PV_TRACK_LENGTH,
        ensures
            final(self).wf(),
            state_restored(final(state), old(state)),
            final(self).iterations == old(self).iterations,
            final(self).time_tracker == old(self).time_tracker,
            final(self).max_time_millis == old(self).max_time_millis,
            old(self).abort ==> *final(self) == *old(self),
            !old(self).abort && old(self).max_time_millis == u128::MAX ==> !final(self).abort,
            final(self).node_count >= old(self).node_count,
            !old(self).abort && final(self).abort ==> passed_a_poll(
                old(self).node_count,
                final(self).node_count,
            ),
            same_sizes(final(self), old(self)),
            -SCORE_LIMIT <= r <= SCORE_LIMIT,
            !final(self).abort && mov_table::spec_in_check(
                old(state).pos,
                *old(state).bitmask,
                def::spec_opposite_player(old(state).pos.player),
            ) ==> r == spec_mated_score(ply),
            !final(self).abort ==> (r, engine_of(final(self))) == spec_pvs_child(
                engine_of(old(self)),
                game_of(old(state)),
                gives_check,
                extended,
                pv_found,
                alpha,
                beta,
                depth,
                ply,
            ),
        decreases PV_TRACK_LENGTH - ply, 1nat,
    {
        if pv_found {
            let score: i32 = -self.ab_search(
                state,
                gives_check,
                extended,
                -alpha - 1,
                -alpha,
                depth - 1,
                ply + 1,
            );
            if score > alpha && score < beta {
                -self.ab_search(state, gives_check, extended, -beta, -alpha, depth - 1, ply + 1)
            } else {
                score
            }
        } else {
            -self.ab_search(state, gives_check, extended, -beta, -alpha, depth - 1, ply + 1)
        }
    }

    /// How the move that has just been made and has gone to `to` is
    /// searched.
    fn plan_child(
        state: &State,
        to: usize,
        first: bool,
        good_capture: bool,
        mov_count: usize,
        depth: u8,
    ) -> (r: ChildPlan)
        requires
            state.wf(),
            to < 64,
            1 <= depth <= MAX_DEPTH,
        ensures
            r == spec_child_plan(game_of(state), to, first, good_capture, mov_count, depth),
            r.gives_check == mov_table::spec_in_check(
                state.pos,
                *state.bitmask,
                state.pos.player,
            ),
            r.deep == depth || r.deep == depth + 1,
            r.reduced <= r.deep,
            r.late ==> r.reduced < r.deep,
    {
        reveal(spec_child_plan);
        let gives_check: bool = mov_table::is_in_check(state, state.pos.player);
        let is_passer: bool = is_passed_pawn(state, state.pos.squares[to], to);
        let extended: bool = gives_check || is_passer;
        let deep: u8 = if extended {
            depth + 1
        } else {
            depth
        };
        let late: u32 = if mov_count > 1000 {
            1000
        } else {
            mov_count as u32
        };
        let root: u32 = isqrt((deep as u32 + late) / 2);
        assert(deep > 1 && mov_count > 1 ==> root >= 1) by (nonlinear_arith)
            requires
                (deep as u32 + late) / 2 < (root + 1) * (root + 1),
                deep > 1 && mov_count > 1 ==> (deep as u32 + late) / 2 >= 2,
        ;
        ChildPlan {
            gives_check,
            extended,
            deep,
            late: !first && deep > 1 && mov_count > 1 && !gives_check && !good_capture
                && !is_passer,
            reduced: if root >= deep as u32 {
                0
            } else {
                deep - root as u8
            },
        }
    }

    /// Makes a move, searches the position it leads to and takes the move
    /// back. Returns the score, seen from the mover, and the depth that the
    /// move counts as searched to.
    fn search_child(
        &mut self,
        state: &mut State,
        mov: u32,
        first: bool,
        good_capture: bool,
        mov_count: usize,
        pv_found: bool,
        alpha: i32,
        beta: i32,
        depth: u8,
        ply: u8,
    ) -> (r: (i32, u8))
        requires
            old(self).wf(),
            old(state).wf(),
            window_ok(alpha, beta),
            depth <= MAX_DEPTH,
            ply <= PV_TRACK_LENGTH,
            depth >= 1,
            ply < PV_TRACK_LENGTH,
        ensures
            final(self).wf(),
            state_restored(final(state), old(state)),
            final(self).iterations == old(self).iterations,
            final(self).time_tracker == old(self).time_tracker,
            final(self).max_time_millis == old(self).max_time_millis,
            old(self).abort ==> *final(self) == *old(self),
            !old(self).abort && old(self).max_time_millis == u128::MAX ==> !final(self).abort,
            final(self).node_count >= old(self).node_count,
            !old(self).abort && final(self).abort ==> passed_a_poll(
                old(self).node_count,
                final(self).node_count,
            ),
            same_sizes(final(self), old(self)),
            -SCORE_LIMIT <= r.0 <= SCORE_LIMIT,
            r.1 == depth || r.1 == depth + 1,
            !final(self).abort && !spec_mov_is_legal(
                old(state).pos,
                old(state).zob_keys@,
                *old(state).bitmask,
                mov,
            ) ==> r.0 == spec_mated_score(ply),
            !final(self).abort ==> (r.0, r.1, engine_of(final(self))) == spec_search_child(
                engine_of(old(self)),
                game_of(old(state)),
                mov,
                first,
                good_capture,
                mov_count,
                pv_found,
                alpha,
                beta,
                depth,
                ply,
            ),
        decreases PV_TRACK_LENGTH - ply, 2nat,
    {
        let (from, to, tp, promo) = util::decode_u32_mov(mov);
        state.do_mov(from, to, tp, promo);
        assert(game_of(state) == game_after(game_of(old(state)), mov));
        let plan = SearchEngine::plan_child(state, to, first, good_capture, mov_count, depth);
        let score: i32 = if first {
            -self.ab_search(
                state,
                plan.gives_check,
                plan.extended,
                -beta,
                -alpha,
                plan.deep - 1,
                ply + 1,
            )
        } else if plan.late {
            let score: i32 = -self.ab_search(
                state,
                plan.gives_check,
                plan.extended,
                -alpha - 1,
                -alpha,
                plan.reduced,
                ply + 1,
            );
            if score > alpha {
                self.pvs_child(
                    state,
                    plan.gives_check,
                    plan.extended,
                    pv_found,
                    alpha,
                    beta,
                    plan.deep,
                    ply,
                )
            } else {
                score
            }
        } else {
            self.pvs_child(
                state,
                plan.gives_check,
                plan.extended,
                pv_found,
                alpha,
                beta,
                plan.deep,
                ply,
            )
        };
        state.undo_mov();
        assert(state.history@ =~= old(state).history@);
        (score, plan.deep)
    }

    /// Searches one move and, where it cuts off, records it. Returns the
    /// score and whether the move cut off.
    fn try_mov(
        &mut self,
        state: &mut State,
        mov: u32,
        first: bool,
        order_score: i32,
        mov_count: usize,
        pv_found: bool,
        alpha: i32,
        beta: i32,
        depth: u8,
        ply: u8,
    ) -> (r: (i32, bool))
        requires
            old(self).wf(),
            old(state).wf(),
            window_ok(alpha, beta),
            depth <= MAX_DEPTH,
            ply <= PV_TRACK_LENGTH,
            depth >= 1,
            ply < PV_TRACK_LENGTH,
        ensures
            final(self).wf(),
            state_restored(final(state), old(state)),
            final(self).iterations == old(self).iterations,
            final(self).time_tracker == old(self).time_tracker,
            final(self).max_time_millis == old(self).max_time_millis,
            old(self).abort ==> *final(self) == *old(self),
            !old(self).abort && old(self).max_time_millis == u128::MAX ==> !final(self).abort,
            final(self).node_count >= old(self).node_count,
            !old(self).abort && final(self).abort ==> passed_a_poll(
                old(self).node_count,
                final(self).node_count,
            ),
            same_sizes(final(self), old(self)),
            -SCORE_LIMIT <= r.0 <= SCORE_LIMIT,
            r.1 ==> r.0 >= beta && !final(self).abort,
            !r.1 && !final(self).abort ==> r.0 < beta,
            !final(self).abort && !spec_mov_is_legal(
                old(state).pos,
                old(state).zob_keys@,
                *old(state).bitmask,
                mov,
            ) ==> r.0 == spec_mated_score(ply),
            !final(self).abort ==> (r.0, r.1, engine_of(final(self))) == spec_try_mov(
                engine_of(old(self)),
                game_of(old(state)),
                mov,
                first,
                order_score,
                mov_count,
                pv_found,
                alpha,
                beta,
                depth,
                ply,
            ),
        decreases PV_TRACK_LENGTH - ply, 3nat,
    {
        let (_from, to, _tp, _promo) = util::decode_u32_mov(mov);
        let good_capture: bool = state.pos.squares[to] != 0 && order_score >= MAX_NON_CAP_SCORE;
        let (score, searched) = self.search_child(
            state,
            mov,
            first,
            good_capture && !first,
            mov_count,
            pv_found,
            alpha,
            beta,
            depth,
            ply,
        );
        if self.abort {
            return (score, false);
        }
        if score >= beta {
            self.record_cutoff(state, mov, score, searched, ply);
            return (score, true);
        }
        (score, false)
    }

    /// Lets the player to move pass and searches less deep with a window of
    /// one point at `beta`. Returns whether the opponent, on the move twice,
    /// still cannot bring the score below `beta`.
    fn null_move_fails_high(&mut self, state: &mut State, beta: i32, depth: u8, ply: u8) -> (r:
        bool)
        requires
            old(self).wf(),
            old(state).wf(),
            -SCORE_LIMIT < beta <= SCORE_LIMIT,
            NM_DEPTH <= depth <= MAX_DEPTH,
            ply < PV_TRACK_LENGTH,
        ensures
            final(self).wf(),
            state_restored(final(state), old(state)),
            final(self).iterations == old(self).iterations,
            final(self).time_tracker == old(self).time_tracker,
            final(self).max_time_millis == old(self).max_time_millis,
            old(self).abort ==> *final(self) == *old(self),
            !old(self).abort && old(self).max_time_millis == u128::MAX ==> !final(self).abort,
            final(self).node_count >= old(self).node_count,
            !old(self).abort && final(self).abort ==> passed_a_poll(
                old(self).node_count,
                final(self).node_count,
            ),
            same_sizes(final(self), old(self)),
            !final(self).abort ==> (r, engine_of(final(self))) == spec_null_move(
                engine_of(old(self)),
                game_of(old(state)),
                beta,
                depth,
                ply,
            ),
        decreases PV_TRACK_LENGTH - ply, 3nat,
    {
        let depth_reduction: u8 = if depth > NM_DEPTH {
            NM_R + 1
        } else {
            NM_R
        };
        state.do_null_mov();
        assert(game_of(state) == game_after_pass(game_of(old(state))));
        let scout_score: i32 = -self.ab_search(
            state,
            false,
            false,
            -beta,
            -beta + 1,
            depth - depth_reduction - 1,
            ply + 1,
        );
        state.undo_mov();
        assert(state.history@ =~= old(state).history@);
        scout_score >= beta
    }

    /// Searches the position less deep for no other purpose than to have a
    /// move for it in the transposition table, and returns that move.
    fn deepen_for_mov(
        &mut self,
        state: &mut State,
        in_check: bool,
        on_extend: bool,
        alpha: i32,
        beta: i32,
        depth: u8,
        ply: u8,
    ) -> (r: u32)
        requires
            old(self).wf(),
            old(state).wf(),
            window_ok(alpha, beta),
            depth <= MAX_DEPTH,
            ply <= PV_TRACK_LENGTH,
            depth >= IID_DEPTH,
            ply < PV_TRACK_LENGTH,
        ensures
            final(self).wf(),
            state_restored(final(state), old(state)),
            final(self).iterations == old(self).iterations,
            final(self).time_tracker == old(self).time_tracker,
            final(self).max_time_millis == old(self).max_time_millis,
            old(self).abort ==> *final(self) == *old(self),
            !old(self).abort && old(self).max_time_millis == u128::MAX ==> !final(self).abort,
            final(self).node_count >= old(self).node_count,
            !old(self).abort && final(self).abort ==> passed_a_poll(
                old(self).node_count,
                final(self).node_count,
            ),
            same_sizes(final(self), old(self)),
            !final(self).abort ==> (r, engine_of(final(self))) == spec_deepen(
                engine_of(old(self)),
                game_of(old(state)),
                in_check,
                on_extend,
                alpha,
                beta,
                depth,
                ply,
            ),
        decreases PV_TRACK_LENGTH - ply, (ab_rank(depth) - 1) as nat,
    {
        self.ab_search(state, in_check, on_extend, alpha, beta, depth - IID_R, ply);
        if self.abort {
            return 0;
        }
        match self.get_hash(state, depth) {
            LookupResult::MovOnly(hash_mov) => hash_mov,
            _ => 0,
        }
    }

    /// Stores what a node that has tried all its moves has found: the score
    /// as exact where a move raised `alpha`, else the best score as an upper
    /// bound. Where the best score is a mate against the player to move,
    /// who is not in check and has no legal move, the node is a stalemate:
    /// it scores 0, which is stored as exact at any depth.
    fn finish_node(
        &mut self,
        state: &mut State,
        in_check: bool,
        raised: bool,
        alpha: i32,
        best_score: i32,
        best_mov: u32,
        depth: u8,
    ) -> (r: i32)
        requires
            old(self).wf(),
            old(state).wf(),
            -SCORE_LIMIT <= alpha <= SCORE_LIMIT,
            -SCORE_LIMIT <= best_score <= SCORE_LIMIT,
        ensures
            final(self).wf(),
            state_restored(final(state), old(state)),
            final(self).same_but_tables(old(self)),
            same_sizes(final(self), old(self)),
            r == (if best_score < -eval::TERM_VAL && !in_check && !spec_has_legal_mov(
                old(state).pos,
                old(state).zob_keys@,
                *old(state).bitmask,
            ) {
                0
            } else {
                alpha
            }),
            (r, engine_of(final(self))) == spec_finish(
                engine_of(old(self)),
                game_of(old(state)),
                in_check,
                raised,
                alpha,
                best_score,
                best_mov,
                depth,
            ),
    {
        reveal(spec_finish);
        if raised {
            self.set_hash(state, depth, crate::hash_tbl::HASH_TYPE_EXACT, alpha, best_mov);
        } else {
            self.set_hash(state, depth, crate::hash_tbl::HASH_TYPE_ALPHA, best_score, best_mov);
        }
        if best_score < -eval::TERM_VAL {
            if !in_check && has_no_legal_mov(state) {
                self.set_hash(state, MAX_DEPTH, crate::hash_tbl::HASH_TYPE_EXACT, 0, 0);
                return 0;
            }
        }
        alpha
    }

    /// Searches the moves of `list` from the first on, given what the node
    /// has found before, and closes the node.
    fn search_listed_movs(
        &mut self,
        state: &mut State,
        in_check: bool,
        list: &Vec<(i32, u32)>,
        found: Found,
        alpha: i32,
        beta: i32,
        depth: u8,
        ply: u8,
    ) -> (r: i32)
        requires
            old(self).wf(),
            old(state).wf(),
            window_ok(alpha, beta),
            depth <= MAX_DEPTH,
            ply <= PV_TRACK_LENGTH,
            depth >= 1,
            ply < PV_TRACK_LENGTH,
            !old(self).abort,
            window_ok(found.lower, beta),
            -SCORE_LIMIT <= found.best_score <= SCORE_LIMIT,
        ensures
            final(self).wf(),
            state_restored(final(state), old(state)),
            final(self).iterations == old(self).iterations,
            final(self).time_tracker == old(self).time_tracker,
            final(self).max_time_millis == old(self).max_time_millis,
            old(self).abort ==> *final(self) == *old(self),
            !old(self).abort && old(self).max_time_millis == u128::MAX ==> !final(self).abort,
            final(self).node_count >= old(self).node_count,
            !old(self).abort && final(self).abort ==> passed_a_poll(
                old(self).node_count,
                final(self).node_count,
            ),
            same_sizes(final(self), old(self)),
            -SCORE_LIMIT <= r <= SCORE_LIMIT,
            !final(self).abort ==> (r, engine_of(final(self))) == spec_movs_from(
                engine_of(old(self)),
                game_of(old(state)),
                in_check,
                list@,
                0,
                found,
                alpha,
                beta,
                depth,
                ply,
            ),
            !final(self).abort && beta > spec_mated_score(ply) && found_no_legal(found, alpha, ply)
                && !spec_has_legal_mov(old(state).pos, old(state).zob_keys@, *old(state).bitmask)
                && (forall|i: int|
                0 <= i < list@.len() ==> !spec_mov_is_legal(
                    old(state).pos,
                    old(state).zob_keys@,
                    *old(state).bitmask,
                    (#[trigger] list@[i]).1,
                )) ==> r == (if !in_check {
                0
            } else if list@.len() == 0 {
                found.lower as int
            } else {
                spec_raised(alpha, ply)
            }),
        decreases PV_TRACK_LENGTH - ply, 4nat,
    {
        let ghost total = spec_movs_from(
            engine_of(old(self)),
            game_of(old(state)),
            in_check,
            list@,
            0,
            found,
            alpha,
            beta,
            depth,
            ply,
        );
        let ghost no_moves = beta > spec_mated_score(ply) && found_no_legal(found, alpha, ply)
            && !spec_has_legal_mov(old(state).pos, old(state).zob_keys@, *old(state).bitmask)
            && (forall|i: int|
            0 <= i < list@.len() ==> !spec_mov_is_legal(
                old(state).pos,
                old(state).zob_keys@,
                *old(state).bitmask,
                (#[trigger] list@[i]).1,
            ));
        let mut mov_count: usize = found.mov_count;
        let mut pv_found: bool = found.pv_found;
        let mut lower: i32 = found.lower;
        let mut best_score: i32 = found.best_score;
        let mut best_mov: u32 = found.best_mov;
        let n: usize = list.len();
        let mut k: usize = 0;
        while k < n
            invariant
                k <= n,
                n == list@.len(),
                self.wf(),
                state_restored(state, old(state)),
                self.iterations == old(self).iterations,
                self.time_tracker == old(self).time_tracker,
                self.max_time_millis == old(self).max_time_millis,
                !old(self).abort,
                !self.abort,
                self.node_count >= old(self).node_count,
                same_sizes(self, old(self)),
                window_ok(lower, beta),
                -SCORE_LIMIT <= best_score <= SCORE_LIMIT,
                1 <= depth <= MAX_DEPTH,
                ply < PV_TRACK_LENGTH,
                total == spec_movs_from(
                    engine_of(old(self)),
                    game_of(old(state)),
                    in_check,
                    list@,
                    0,
                    found,
                    alpha,
                    beta,
                    depth,
                    ply,
                ),
                spec_movs_from(
                    engine_of(self),
                    game_of(state),
                    in_check,
                    list@,
                    k as nat,
                    (Found { mov_count, pv_found, lower, best_score, best_mov }),
                    alpha,
                    beta,
                    depth,
                    ply,
                ) == total,
                no_moves ==> beta > spec_mated_score(ply) && !spec_has_legal_mov(
                    state.pos,
                    state.zob_keys@,
                    *state.bitmask,
                ) && forall|i: int|
                    0 <= i < n ==> !spec_mov_is_legal(
                        state.pos,
                        state.zob_keys@,
                        *state.bitmask,
                        (#[trigger] list@[i]).1,
                    ),
                no_moves ==> found_no_legal(found, alpha, ply) && (if k == 0 {
                    best_score == found.best_score && lower == found.lower
                } else {
                    best_score == spec_mated_score(ply) && lower == spec_raised(alpha, ply)
                }),
            decreases n - k,
        {
            let order_score: i32 = list[k].0;
            let mov: u32 = list[k].1;
            let ghost before = engine_of(self);
            let ghost f = Found { mov_count, pv_found, lower, best_score, best_mov };
            if mov_count < usize::MAX {
                mov_count += 1;
            }
            let (score, cut) = self.try_mov(
                state,
                mov,
                false,
                order_score,
                mov_count,
                pv_found,
                lower,
                beta,
                depth,
                ply,
            );
            if self.abort {
                return lower;
            }
            assert(spec_movs_from(before, game_of(state), in_check, list@, k as nat, f, alpha, beta, depth, ply)
                == (if cut {
                (score, engine_of(self))
            } else {
                spec_movs_from(
                    engine_of(self),
                    game_of(state),
                    in_check,
                    list@,
                    (k + 1) as nat,
                    found_with(f, mov_count, score, mov),
                    alpha,
                    beta,
                    depth,
                    ply,
                )
            }));
            if cut {
                return score;
            }
            if score > best_score {
                best_score = score;
                best_mov = mov;
            }
            if score > lower {
                lower = score;
                pv_found = true;
            }
            k += 1;
        }
        self.finish_node(state, in_check, lower > alpha, lower, best_score, best_mov, depth)
    }

    /// Searches the moves of a node: the move that the tables hold for it
    /// first, then the others in their order, each within the window that
    /// the moves before it have left. A move that reaches `beta` ends the
    /// node; what the node has found is stored in the tables.
    fn search_movs(
        &mut self,
        state: &mut State,
        in_check: bool,
        pv_mov: u32,
        alpha: i32,
        beta: i32,
        depth: u8,
        ply: u8,
    ) -> (r: i32)
        requires
            old(self).wf(),
            old(state).wf(),
            window_ok(alpha, beta),
            depth <= MAX_DEPTH,
            ply <= PV_TRACK_LENGTH,
            depth >= 1,
            ply < PV_TRACK_LENGTH,
        ensures
            final(self).wf(),
            state_restored(final(state), old(state)),
            final(self).iterations == old(self).iterations,
            final(self).time_tracker == old(self).time_tracker,
            final(self).max_time_millis == old(self).max_time_millis,
            old(self).abort ==> *final(self) == *old(self),
            !old(self).abort && old(self).max_time_millis == u128::MAX ==> !final(self).abort,
            final(self).node_count >= old(self).node_count,
            !old(self).abort && final(self).abort ==> passed_a_poll(
                old(self).node_count,
                final(self).node_count,
            ),
            same_sizes(final(self), old(self)),
            -SCORE_LIMIT <= r <= SCORE_LIMIT,
            !final(self).abort ==> (r, engine_of(final(self))) == spec_search_movs(
                engine_of(old(self)),
                game_of(old(state)),
                in_check,
                pv_mov,
                alpha,
                beta,
                depth,
                ply,
            ),
            !final(self).abort && beta > spec_mated_score(ply) && !spec_has_legal_mov(
                old(state).pos,
                old(state).zob_keys@,
                *old(state).bitmask,
            ) && (pv_mov == 0 || !spec_mov_is_legal(
                old(state).pos,
                old(state).zob_keys@,
                *old(state).bitmask,
                pv_mov,
            )) ==> r == (if !in_check {
                0
            } else if pv_mov == 0 && spec_move_list(
                engine_of(old(self)),
                game_of(old(state)),
                0,
                ply,
            ).len() == 0 {
                alpha as int
            } else {
                spec_raised(alpha, ply)
            }),
        decreases PV_TRACK_LENGTH - ply, 5nat,
    {
        if self.abort {
            return alpha;
        }
        let mut found = Found {
            mov_count: 0,
            pv_found: false,
            lower: alpha,
            best_score: -eval::MATE_VAL,
            best_mov: pv_mov,
        };
        if pv_mov != 0 {
            let (score, cut) = self.try_mov(state, pv_mov, true, 0, 1, false, alpha, beta, depth, ply);
            if self.abort {
                return alpha;
            }
            if cut {
                return score;
            }
            found = Found {
                mov_count: 1,
                pv_found: score > alpha,
                lower: if score > alpha {
                    score
                } else {
                    alpha
                },
                best_score: if score > -eval::MATE_VAL {
                    score
                } else {
                    -eval::MATE_VAL
                },
                best_mov: pv_mov,
            };
        }
        let list = self.move_list(state, pv_mov, ply);
        self.search_listed_movs(state, in_check, &list, found, alpha, beta, depth, ply)
    }

    /// Searches the captures of `scored_cap_list` in turn and returns the
    /// best score that the player to move can hold on to within the window.
    fn follow_captures(
        &mut self,
        state: &mut State,
        scored_cap_list: &Vec<(i32, u32)>,
        alpha: i32,
        beta: i32,
        ply: u8,
    ) -> (r: i32)
        requires
            old(self).wf(),
            old(state).wf(),
            window_ok(alpha, beta),
            ply < PV_TRACK_LENGTH,
        ensures
            final(self).wf(),
            state_restored(final(state), old(state)),
            final(self).iterations == old(self).iterations,
            final(self).time_tracker == old(self).time_tracker,
            final(self).max_time_millis == old(self).max_time_millis,
            old(self).abort ==> *final(self) == *old(self),
            !old(self).abort && old(self).max_time_millis == u128::MAX ==> !final(self).abort,
            final(self).node_count >= old(self).node_count,
            !old(self).abort && final(self).abort ==> passed_a_poll(
                old(self).node_count,
                final(self).node_count,
            ),
            same_sizes(final(self), old(self)),
            -SCORE_LIMIT <= r <= SCORE_LIMIT,
            old(self).abort ==> r == alpha,
            !old(self).abort && scored_cap_list@.len() == 0 ==> !final(self).abort,
            !final(self).abort ==> (r, engine_of(final(self))) == spec_captures_from(
                engine_of(old(self)),
                game_of(old(state)),
                scored_cap_list@,
                0,
                alpha,
                beta,
                ply,
            ),
        decreases PV_TRACK_LENGTH - ply, 7nat,
    {
        if self.abort {
            return alpha;
        }
        let ghost total = spec_captures_from(
            engine_of(old(self)),
            game_of(old(state)),
            scored_cap_list@,
            0,
            alpha,
            beta,
            ply,
        );
        let mut lower: i32 = alpha;
        let n: usize = scored_cap_list.len();
        let mut k: usize = 0;
        while k < n
            invariant
                k <= n,
                n == scored_cap_list@.len(),
                self.wf(),
                state_restored(state, old(state)),
                self.iterations == old(self).iterations,
                self.time_tracker == old(self).time_tracker,
                self.max_time_millis == old(self).max_time_millis,
                !old(self).abort,
                !self.abort,
                self.node_count >= old(self).node_count,
                same_sizes(self, old(self)),
                window_ok(lower, beta),
                ply < PV_TRACK_LENGTH,
                total == spec_captures_from(
                    engine_of(old(self)),
                    game_of(old(state)),
                    scored_cap_list@,
                    0,
                    alpha,
                    beta,
                    ply,
                ),
                spec_captures_from(
                    engine_of(self),
                    game_of(state),
                    scored_cap_list@,
                    k as nat,
                    lower,
                    beta,
                    ply,
                ) == total,
            decreases n - k,
        {
            let cap: u32 = scored_cap_list[k].1;
            let (from, to, tp, promo) = util::decode_u32_mov(cap);
            let ghost before = engine_of(self);
            let ghost game = game_of(state);
            state.do_mov(from, to, tp, promo);
            assert(game_of(state) == game_after(game, cap));
            let score: i32 = -self.q_search(state, -beta, -lower, ply + 1);
            state.undo_mov();
            assert(state.history@ =~= old(state).history@);
            if self.abort {
                return lower;
            }
            assert(spec_captures_from(before, game, scored_cap_list@, k as nat, lower, beta, ply)
                == (if score >= beta {
                (score, engine_of(self))
            } else {
                spec_captures_from(
                    engine_of(self),
                    game,
                    scored_cap_list@,
                    (k + 1) as nat,
                    if score > lower {
                        score
                    } else {
                        lower
                    },
                    beta,
                    ply,
                )
            }));
            if score >= beta {
                return score;
            }
            if score > lower {
                lower = score;
            }
            k += 1;
        }
        lower
    }

    /// What the quiescence search finds before it follows a capture:
    /// whether the position is illegal, whether the player to move is in
    /// check, the score where the position is settled, and else the lower
    /// bound and the captures to follow. The position is left as it was
    /// found.
    fn stand(state: &mut State, alpha: i32, beta: i32, ply: u8) -> (r: (
        bool,
        bool,
        Option<i32>,
        i32,
        Vec<(i32, u32)>,
    ))
        requires
            old(state).wf(),
            window_ok(alpha, beta),
        ensures
            state_restored(final(state), old(state)),
            r.0 == spec_stand(game_of(old(state)), alpha, beta, ply).illegal,
            r.1 == spec_stand(game_of(old(state)), alpha, beta, ply).in_check,
            r.2 == spec_stand(game_of(old(state)), alpha, beta, ply).settled,
            r.3 == spec_stand(game_of(old(state)), alpha, beta, ply).lower,
            r.4@ == spec_stand(game_of(old(state)), alpha, beta, ply).captures,
            window_ok(r.3, beta),
            match r.2 {
                Some(score) => -SCORE_LIMIT <= score <= SCORE_LIMIT,
                None => r.0 || r.1 || ply < PV_TRACK_LENGTH,
            },
            r.0 == mov_table::spec_in_check(
                old(state).pos,
                *old(state).bitmask,
                def::spec_opposite_player(old(state).pos.player),
            ),
    {
        reveal(spec_stand);
        if mov_table::is_in_check(state, def::get_opposite_player(state.pos.player)) {
            return (true, false, None, alpha, Vec::new());
        }
        if mov_table::is_in_check(state, state.pos.player) {
            return (false, true, None, alpha, Vec::new());
        }
        let (material_score, is_draw) = eval::eval_materials(state);
        if is_draw {
            return (false, false, Some(0), alpha, Vec::new());
        }
        if material_score - DELTA_MARGIN >= beta {
            return (false, false, Some(beta), alpha, Vec::new());
        }
        let score: i32 = eval::eval_state(state, material_score);
        if score >= beta || ply as usize >= PV_TRACK_LENGTH {
            return (false, false, Some(score), alpha, Vec::new());
        }
        let lower: i32 = if score > alpha {
            score
        } else {
            alpha
        };
        let delta: i64 = lower as i64 - score as i64 - DELTA_MARGIN as i64;
        let cap_list = mov_table::gen_capture_list(state);
        let captures = order_captures(state, &cap_list, delta);
        (false, false, None, lower, captures)
    }

    /// Follows captures and promotions until the position is quiet, and
    /// returns the best score that the player to move can hold on to within
    /// the window. A capture that cannot lift the score to within
    /// `DELTA_MARGIN` of `alpha` is left out. In check it searches every move
    /// one ply deep instead. While the engine is told to stop it returns
    /// `alpha` and changes nothing; a search that is not stopped returns
    /// what `spec_q` says.
    pub fn q_search(&mut self, state: &mut State, alpha: i32, beta: i32, ply: u8) -> (r: i32)
        requires
            old(self).wf(),
            old(state).wf(),
            window_ok(alpha, beta),
            ply <= PV_TRACK_LENGTH,
        ensures
            final(self).wf(),
            state_restored(final(state), old(state)),
            final(self).iterations == old(self).iterations,
            final(self).time_tracker == old(self).time_tracker,
            final(self).max_time_millis == old(self).max_time_millis,
            old(self).abort ==> *final(self) == *old(self),
            !old(self).abort && old(self).max_time_millis == u128::MAX ==> !final(self).abort,
            final(self).node_count >= old(self).node_count,
            !old(self).abort && final(self).abort ==> passed_a_poll(
                old(self).node_count,
                final(self).node_count,
            ),
            same_sizes(final(self), old(self)),
            old(self).abort ==> r == alpha,
            -SCORE_LIMIT <= r <= SCORE_LIMIT,
            !old(self).abort ==> counted_more(old(self).node_count, final(self).node_count),
            !old(self).abort && !spec_stand(game_of(old(state)), alpha, beta, ply).in_check
                && spec_stand(game_of(old(state)), alpha, beta, ply).captures.len() == 0
                ==> !final(self).abort,
            !final(self).abort ==> (r, engine_of(final(self))) == spec_q(
                engine_of(old(self)),
                game_of(old(state)),
                alpha,
                beta,
                ply,
            ),
        decreases PV_TRACK_LENGTH - ply, 8nat,
    {
        if self.abort {
            return alpha;
        }
        self.count_node();
        let (illegal, checked, settled, lower, captures) = SearchEngine::stand(
            state,
            alpha,
            beta,
            ply,
        );
        if illegal {
            return eval::MATE_VAL - ply as i32;
        }
        if checked {
            return self.ab_search(state, true, true, alpha, beta, 1, ply);
        }
        if ply > self.sel_depth {
            self.sel_depth = ply;
        }
        match settled {
            Some(score) => score,
            None => self.follow_captures(state, &captures, lower, beta, ply),
        }
    }

    /// Searches the position `depth` plies deep and returns its score for
    /// the player to move, exact where it lies within the window and a bound
    /// where it does not. `in_check` says whether that player is in check,
    /// `on_extend` whether the move that led here was searched deeper than
    /// its turn. While the engine is told to stop it returns `alpha` and
    /// changes nothing; a search that is not stopped returns what `spec_ab`
    /// says and leaves in the engine what it says.
    pub fn ab_search(
        &mut self,
        state: &mut State,
        in_check: bool,
        on_extend: bool,
        alpha: i32,
        beta: i32,
        depth: u8,
        ply: u8,
    ) -> (r: i32)
        requires
            old(self).wf(),
            old(state).wf(),
            window_ok(alpha, beta),
            depth <= MAX_DEPTH,
            ply <= PV_TRACK_LENGTH,
        ensures
            final(self).wf(),
            state_restored(final(state), old(state)),
            final(self).iterations == old(self).iterations,
            final(self).time_tracker == old(self).time_tracker,
            final(self).max_time_millis == old(self).max_time_millis,
            old(self).abort ==> *final(self) == *old(self),
            !old(self).abort && old(self).max_time_millis == u128::MAX ==> !final(self).abort,
            final(self).node_count >= old(self).node_count,
            !old(self).abort && final(self).abort ==> passed_a_poll(
                old(self).node_count,
                final(self).node_count,
            ),
            same_sizes(final(self), old(self)),
            old(self).abort ==> r == alpha,
            -SCORE_LIMIT <= r <= SCORE_LIMIT,
            !old(self).abort ==> counted_more(old(self).node_count, final(self).node_count),
            !old(self).abort && view_count_node(engine_of(old(self))).node_count
                & TIME_CHECK_INTERVAL != 0 && spec_open_node(
                view_count_node(engine_of(old(self))),
                game_of(old(state)),
                in_check,
                on_extend,
                alpha,
                beta,
                depth,
                ply,
            ).settled.is_some() ==> !final(self).abort,
            !old(self).abort && final(self).abort && final(self).node_count == old(
                self,
            ).node_count + 1 && final(self).node_count < u64::MAX ==> r == alpha && engine_of(
                final(self),
            ) == view_count_node(engine_of(old(self))),
            !final(self).abort ==> (r, engine_of(final(self))) == spec_ab(
                engine_of(old(self)),
                game_of(old(state)),
                in_check,
                on_extend,
                alpha,
                beta,
                depth,
                ply,
            ),
            !final(self).abort && mov_table::spec_in_check(
                old(state).pos,
                *old(state).bitmask,
                def::spec_opposite_player(old(state).pos.player),
            ) ==> r == eval::MATE_VAL - ply,
            !final(self).abort && node_finds_no_legal_mov(
                engine_of(old(self)),
                game_of(old(state)),
                in_check,
                on_extend,
                alpha,
                beta,
                depth,
                ply,
            ) ==> r == spec_score_without_legal_mov(
                engine_of(old(self)),
                game_of(old(state)),
                in_check,
                on_extend,
                alpha,
                beta,
                depth,
                ply,
            ),
        decreases PV_TRACK_LENGTH - ply, ab_rank(depth),
    {
        if self.abort {
            return alpha;
        }
        if self.poll_clock() {
            self.abort = true;
            return alpha;
        }
        let o = self.open_node(state, in_check, on_extend, alpha, beta, depth, ply);
        match o.settled {
            Some(score) => {
                return score;
            },
            None => {},
        }
        if depth == 0 {
            return self.q_search(state, o.lower, o.upper, ply);
        }
        if o.try_pass {
            let fails_high: bool = self.null_move_fails_high(state, o.upper, depth, ply);
            if self.abort {
                return o.lower;
            }
            if fails_high {
                return o.upper;
            }
        }
        let mut pv_mov: u32 = o.hash_mov;
        if o.deepen {
            pv_mov = self.deepen_for_mov(state, in_check, on_extend, o.lower, o.upper, depth, ply);
            if self.abort {
                return o.lower;
            }
        }
        self.search_movs(state, in_check, pv_mov, o.lower, o.upper, depth, ply)
    }
}

/// An opening that settles the node.
fn settled_opening(score: Option<i32>, lower: i32, upper: i32, hash_mov: u32) -> (r: Opening)
    ensures
        r == settled_with(score, lower, upper, hash_mov),
{
    Opening {
        settled: score,
        lower,
        upper,
        hash_mov,
        quiesce: false,
        try_pass: false,
        deepen: false,
    }
}

/// The first of the moves from `movs[k]` on that is not the null move and
/// leaves the mover's king unattacked, or 0 where there is none.
pub open spec fn spec_first_legal_from(
    pos: Position,
    zob_keys: Seq<Vec<u64>>,
    m: BitMask,
    movs: Seq<u32>,
    k: nat,
) -> u32
    decreases movs.len() - k,
{
    if k >= movs.len() {
        0
    } else if movs[k as int] != 0 && spec_mov_is_legal(pos, zob_keys, m, movs[k as int]) {
        movs[k as int]
    } else {
        spec_first_legal_from(pos, zob_keys, m, movs, k + 1)
    }
}

/// The first pseudo-legal move of the player to move that leaves its king
/// unattacked, or 0 where there is none.
pub open spec fn spec_first_legal_mov(pos: Position, zob_keys: Seq<Vec<u64>>, m: BitMask) -> u32 {
    spec_first_legal_from(pos, zob_keys, m, mov_table::spec_reg_mov_list(pos, m), 0)
}

/// The first legal move is legal.
pub proof fn lemma_first_legal_is_legal(
    pos: Position,
    zob_keys: Seq<Vec<u64>>,
    m: BitMask,
    movs: Seq<u32>,
    k: nat,
)
    ensures
        spec_first_legal_from(pos, zob_keys, m, movs, k) != 0 ==> spec_mov_is_legal(
            pos,
            zob_keys,
            m,
            spec_first_legal_from(pos, zob_keys, m, movs, k),
        ),
    decreases movs.len() - k,
{
    if k < movs.len() && !(movs[k as int] != 0 && spec_mov_is_legal(
        pos,
        zob_keys,
        m,
        movs[k as int],
    )) {
        lemma_first_legal_is_legal(pos, zob_keys, m, movs, k + 1);
    }
}

/// The first pseudo-legal move of the player to move that leaves its king
/// unattacked, or 0 where there is none. The position is left as it was
/// found.
pub fn first_legal_mov(state: &mut State) -> (r: u32)
    requires
        old(state).wf(),
    ensures
        state_restored(final(state), old(state)),
        r == spec_first_legal_mov(old(state).pos, old(state).zob_keys@, *old(state).bitmask),
        r != 0 ==> spec_mov_is_legal(old(state).pos, old(state).zob_keys@, *old(state).bitmask, r),
{
    let player: u8 = state.pos.player;
    let mov_list = mov_table::gen_reg_mov_list(state);
    let n: usize = mov_list.len();
    let mut k: usize = 0;
    proof {
        lemma_first_legal_is_legal(state.pos, state.zob_keys@, *state.bitmask, mov_list@, 0);
    }
    while k < n
        invariant
            k <= n,
            n == mov_list@.len(),
            state_restored(state, old(state)),
            player == state.pos.player,
            mov_list@ == mov_table::spec_reg_mov_list(state.pos, *state.bitmask),
            spec_first_legal_from(state.pos, state.zob_keys@, *state.bitmask, mov_list@, k as nat)
                == spec_first_legal_mov(state.pos, state.zob_keys@, *state.bitmask),
        decreases n - k,
    {
        let mov: u32 = mov_list[k];
        let (from, to, tp, promo) = util::decode_u32_mov(mov);
        state.do_mov(from, to, tp, promo);
        let checked: bool = mov_table::is_in_check(state, player);
        state.undo_mov();
        assert(state.history@ =~= old(state).history@);
        if !checked && mov != 0 {
            return mov;
        }
        k += 1;
    }
    0
}

/// What an iteration reports, but for the time it took.
pub open spec fn report_of(info: IterationInfo) -> Report {
    Report {
        score: info.score,
        is_mate: info.is_mate,
        mate_in: info.mate_in,
        depth: info.depth,
        sel_depth: info.sel_depth,
        nodes: info.nodes,
        pv: info.pv@,
    }
}

/// What the iterations report, in their order.
pub open spec fn reports_of(iterations: Seq<IterationInfo>) -> Seq<Report> {
    iterations.map_values(|info: IterationInfo| report_of(info))
}

/// What a search of the position reports when nothing hurries it.
pub open spec fn spec_search_reports(v: EngineView, g: GameView, max_depth: u8) -> Seq<Report> {
    spec_reports(
        view_at_start(v),
        g,
        mov_table::spec_in_check(g.pos, g.masks, g.pos.player),
        1,
        (-eval::MATE_VAL) as i32,
        eval::MATE_VAL,
        0,
        false,
        max_depth,
    )
}

/// What a search of the position leaves of the engine when nothing hurries
/// it: the tables as the last search from the root has left them, with its
/// count of nodes.
pub open spec fn spec_engine_after_search(v: EngineView, g: GameView, max_depth: u8) -> EngineView {
    crate::model::spec_search_end(
        view_at_start(v),
        g,
        mov_table::spec_in_check(g.pos, g.masks, g.pos.player),
        1,
        (-eval::MATE_VAL) as i32,
        eval::MATE_VAL,
        0,
        false,
        max_depth,
    )
}

/// What holds of the report of every iteration: it is of a depth that was
/// asked for, its score is within the limit, whether it is a mate goes by
/// the score, no more nodes are counted to the second than were searched,
/// its time is one that the clock can show, and its line is of 1 to 16
/// moves and starts with a legal move.
pub open spec fn iteration_ok(info: IterationInfo, state: &State, max_depth: u8) -> bool {
    &&& 1 <= info.depth <= max_depth
    &&& info.depth <= MAX_DEPTH
    &&& -SCORE_LIMIT <= info.score <= SCORE_LIMIT
    &&& info.is_mate == (info.score > eval::TERM_VAL || info.score < -eval::TERM_VAL)
    &&& info.mate_in == (if info.is_mate {
        spec_mate_in(info.score)
    } else {
        0
    })
    &&& info.nps <= info.nodes
    &&& info.time_millis <= MAX_ELAPSED_MILLIS
    &&& 1 <= info.pv@.len() <= PV_PRINT_LENGTH
    &&& info.pv@[0] != 0
    &&& spec_mov_is_legal(state.pos, state.zob_keys@, *state.bitmask, info.pv@[0])
}

/// The moves to mate that a mate score stands for: positive where the
/// player to move mates, negative where it is mated.
pub open spec fn spec_mate_in(score: i32) -> int {
    if score > 0 {
        eval::spec_div_trunc(eval::MATE_VAL - score + 1, 2)
    } else {
        eval::spec_div_trunc(-eval::MATE_VAL - score - 1, 2)
    }
}

/// The moves to mate that a mate score stands for.
pub fn mate_in(score: i32) -> (r: i32)
    requires
        -SCORE_LIMIT <= score <= SCORE_LIMIT,
    ensures
        r == spec_mate_in(score),
{
    if score > 0 {
        (eval::MATE_VAL - score + 1) / 2
    } else {
        (-eval::MATE_VAL - score - 1) / 2
    }
}

/// Where a search stands between two searches from the root: the depth and
/// the window of the next one, how often this depth was tried, what the
/// clock showed when the last depth was completed, the best move so far,
/// and whether the search has ended.
pub struct Progress {
    pub time_capacity: TimeCapacity,
    pub max_depth: u8,
    pub in_check: bool,
    pub alpha: i32,
    pub beta: i32,
    pub depth: u8,
    pub attempts: u8,
    pub window_extended: bool,
    pub failed_before: bool,
    pub accumulated_time_taken: u128,
    pub best_mov: u32,
    pub done: bool,
    /// What the whole search reports when nothing hurries it.
    pub total: Ghost<Seq<Report>>,
    /// What the whole search leaves of the engine when nothing hurries it.
    pub end: Ghost<EngineView>,
}

/// What holds of a search between two searches from the root: the reports
/// written so far are the first of those that an unhurried search gives;
/// while the search goes on, the rest of them is what the searches from the
/// next depth and window on give; and a search without a limit of time ends
/// with all of them written, and with the engine as an unhurried search
/// leaves it. The best move is that of the last report, or the first legal
/// move where there is none.
pub open spec fn progress_ok(engine: &SearchEngine, state: &State, p: &Progress) -> bool {
    let written = engine.iterations@;
    &&& engine.wf()
    &&& state.wf()
    &&& p.in_check == mov_table::spec_in_check(state.pos, *state.bitmask, state.pos.player)
    &&& window_ok(p.alpha, p.beta)
    &&& 1 <= p.depth <= MAX_DEPTH + 1
    &&& p.attempts <= 3
    &&& written.len() <= p.max_depth
    &&& written.len() <= MAX_DEPTH
    &&& forall|i: int|
        0 <= i < written.len() ==> iteration_ok(#[trigger] written[i], state, p.max_depth)
    &&& written.len() == 0 ==> p.best_mov == spec_first_legal_mov(
        state.pos,
        state.zob_keys@,
        *state.bitmask,
    )
    &&& written.len() > 0 ==> p.best_mov == written.last().pv@[0]
    &&& p.best_mov != 0 ==> spec_mov_is_legal(
        state.pos,
        state.zob_keys@,
        *state.bitmask,
        p.best_mov,
    )
    &&& written.len() <= p.total@.len()
    &&& reports_of(written) == p.total@.take(written.len() as int)
    &&& p.time_capacity.main_time_millis == u128::MAX ==> engine.max_time_millis == u128::MAX
    &&& !p.done ==> written.len() < p.depth && !engine.abort && reports_of(written) + spec_reports(
        engine_of(engine),
        game_of(state),
        p.in_check,
        p.depth,
        p.alpha,
        p.beta,
        p.attempts,
        p.window_extended,
        p.max_depth,
    ) == p.total@
    &&& !p.done ==> crate::model::spec_search_end(
        engine_of(engine),
        game_of(state),
        p.in_check,
        p.depth,
        p.alpha,
        p.beta,
        p.attempts,
        p.window_extended,
        p.max_depth,
    ) == p.end@
    &&& p.done && p.time_capacity.main_time_millis == u128::MAX ==> !engine.abort && reports_of(
        written,
    ) == p.total@ && engine_of(engine) == p.end@
    &&& engine.abort ==> engine.node_count >= 4096
}

/// Whether a step has brought the search on: to a deeper depth, to another
/// try at the same depth, or to its end.
pub open spec fn went_on(after: &Progress, before: &Progress) -> bool {
    ||| after.depth > before.depth
    ||| after.depth == before.depth && after.attempts > before.attempts
    ||| after.depth == before.depth && after.attempts == before.attempts && after.done
        && !before.done
}

impl SearchEngine {
    /// Begins a search of the position: starts the clock, sets the time,
    /// empties the killer tables, the history table and the reports, and
    /// gives the first depth with the full window. The best move is the first
    /// legal move for now, or 0 where there is none.
    pub fn start_search(
        &mut self,
        state: &mut State,
        time_capacity: TimeCapacity,
        max_depth: u8,
    ) -> (p: Progress)
        requires
            old(self).wf(),
            old(state).wf(),
        ensures
            progress_ok(final(self), final(state), &p),
            !p.done,
            p.depth == 1,
            p.attempts == 0,
            p.max_depth == max_depth,
            p.time_capacity == time_capacity,
            p.total@ == spec_search_reports(engine_of(old(self)), game_of(old(state)), max_depth),
            p.end@ == spec_engine_after_search(
                engine_of(old(self)),
                game_of(old(state)),
                max_depth,
            ),
            final(self).iterations@.len() == 0,
            state_restored(final(state), old(state)),
            same_sizes(final(self), old(self)),
    {
        self.time_tracker = clock_now();
        self.max_time_millis = time_capacity.main_time_millis;
        self.primary_killer_table = [KillerSlot { score: 0, mov: 0 };128];
        self.secondary_killer_table = [KillerSlot { score: 0, mov: 0 };128];
        self.index_history_table = [0i32;4096];
        self.abort = false;
        self.iterations = Vec::new();
        let in_check: bool = mov_table::is_in_check(state, state.pos.player);
        let best_mov: u32 = first_legal_mov(state);
        let ghost total = spec_search_reports(
            engine_of(old(self)),
            game_of(old(state)),
            max_depth,
        );
        proof {
            assert(engine_of(self).primary_killers =~= view_at_start(
                engine_of(old(self)),
            ).primary_killers);
            assert(engine_of(self).secondary_killers =~= view_at_start(
                engine_of(old(self)),
            ).secondary_killers);
            assert(engine_of(self).history =~= view_at_start(engine_of(old(self))).history);
            assert(engine_of(self) == view_at_start(engine_of(old(self))));
            assert(reports_of(self.iterations@) =~= Seq::<Report>::empty());
            assert(reports_of(self.iterations@) + total =~= total);
            assert(reports_of(self.iterations@) =~= total.take(0));
        }
        let ghost end = spec_engine_after_search(
            engine_of(old(self)),
            game_of(old(state)),
            max_depth,
        );
        Progress {
            time_capacity,
            max_depth,
            in_check,
            alpha: -eval::MATE_VAL,
            beta: eval::MATE_VAL,
            depth: 1,
            attempts: 0,
            window_extended: false,
            failed_before: false,
            accumulated_time_taken: 0,
            best_mov,
            done: false,
            total: Ghost(total),
            end: Ghost(end),
        }
    }

    /// Brings a search one search from the root further. Where no depth is
    /// left, the search ends. Else the depth is searched with the window: a
    /// score outside the window has the same depth tried again with that side
    /// of the window widened, then opened; a score within it, or the fourth
    /// try, completes the depth, which writes one entry of `iterations` where
    /// a line was found, and goes on to the next depth with a narrow window
    /// around the score. The search ends when a mate is found, when the depth
    /// completed took more than half the time that is left, or when the time
    /// runs out, which gives up the depth under way. The time is extended
    /// once, by the extra time, if the first window of the search to fail
    /// does so after more than half the time has gone.
    #[verifier::rlimit(60)]
    pub fn search_step(&mut self, state: &mut State, p: &mut Progress)
        requires
            progress_ok(old(self), old(state), old(p)),
            !old(p).done,
        ensures
            progress_ok(final(self), final(state), final(p)),
            went_on(final(p), old(p)),
            final(p).total == old(p).total,
            final(p).end == old(p).end,
            final(p).max_depth == old(p).max_depth,
            final(p).time_capacity == old(p).time_capacity,
            state_restored(final(state), old(state)),
            same_sizes(final(self), old(self)),
            old(self).iterations@.len() <= final(self).iterations@.len() <= old(
                self,
            ).iterations@.len() + 1,
            final(self).iterations@.take(old(self).iterations@.len() as int) == old(
                self,
            ).iterations@,
    {
        let max_depth: u8 = p.max_depth;
        let depth: u8 = p.depth;
        let ghost written = self.iterations@;
        if depth > max_depth || depth > MAX_DEPTH {
            proof {
                assert(reports_of(written) + Seq::<Report>::empty() =~= reports_of(written));
                assert(written.take(written.len() as int) =~= written);
            }
            p.done = true;
            return ;
        }
        self.node_count = 0;
        self.sel_depth = 0;
        let score: i32 = self.ab_search(state, p.in_check, false, p.alpha, p.beta, depth, 0);
        proof {
            assert(self.iterations@ == written);
            assert(written.take(written.len() as int) =~= written);
            assert forall|i: int| 0 <= i < written.len() implies iteration_ok(
                #[trigger] written[i],
                state,
                max_depth,
            ) by {
                assert(iteration_ok(written[i], old(state), max_depth));
            }
        }
        if self.abort {
            p.done = true;
            return ;
        }
        if (score <= p.alpha || score >= p.beta) && p.attempts < 3 {
            if !p.failed_before {
                p.failed_before = true;
                if over_budget(clock_elapsed_millis(&self.time_tracker), self.max_time_millis / 2) {
                    self.max_time_millis = extended_budget(
                        self.max_time_millis,
                        p.time_capacity.extra_time_millis,
                    );
                }
            }
            if score <= p.alpha {
                p.alpha = if p.window_extended {
                    -eval::MATE_VAL
                } else if score - EXTENDED_WINDOW_SIZE < -SCORE_LIMIT {
                    -SCORE_LIMIT
                } else {
                    score - EXTENDED_WINDOW_SIZE
                };
            } else {
                p.beta = if p.window_extended {
                    eval::MATE_VAL
                } else if score + EXTENDED_WINDOW_SIZE > SCORE_LIMIT {
                    SCORE_LIMIT
                } else {
                    score + EXTENDED_WINDOW_SIZE
                };
            }
            p.window_extended = true;
            p.attempts = p.attempts + 1;
            return ;
        }
        let mut pv: Vec<u32> = Vec::new();
        self.retrieve_pv(state, &mut pv, 0);
        let checkmate: bool = score > eval::TERM_VAL || score < -eval::TERM_VAL;
        let total_time_taken: u128 = clock_elapsed_millis(&self.time_tracker);
        let iter_time_taken: u128 = time_between(p.accumulated_time_taken, total_time_taken);
        if pv.len() > 0 {
            assert(pv@ =~= spec_pv(engine_of(self), game_of(state), PV_PRINT_LENGTH as nat));
            p.best_mov = pv[0];
            proof {
                lemma_pv_len(engine_of(self), game_of(state), PV_PRINT_LENGTH as nat);
            }
            let nps: u128 = nodes_per_second(self.node_count, iter_time_taken);
            let info = IterationInfo {
                score,
                is_mate: checkmate,
                mate_in: if checkmate {
                    mate_in(score)
                } else {
                    0
                },
                depth,
                sel_depth: self.sel_depth,
                nodes: self.node_count,
                nps,
                time_millis: total_time_taken,
                pv,
            };
            assert(iteration_ok(info, state, max_depth));
            self.iterations.push(info);
            proof {
                assert(self.iterations@.take(written.len() as int) =~= written);
                assert(reports_of(self.iterations@) =~= reports_of(written).push(report_of(info)));
                assert(reports_of(self.iterations@) =~= p.total@.take(
                    self.iterations@.len() as int,
                ));
                assert forall|i: int| 0 <= i < self.iterations@.len() implies iteration_ok(
                    #[trigger] self.iterations@[i],
                    state,
                    max_depth,
                ) by {
                    if i < written.len() {
                        assert(self.iterations@[i] == written[i]);
                    }
                }
            }
            if checkmate {
                proof {
                    assert(reports_of(written).push(report_of(info)) + Seq::<Report>::empty()
                        =~= reports_of(self.iterations@));
                    assert(reports_of(self.iterations@) =~= p.total@);
                }
                p.done = true;
                return ;
            }
            if next_depth_is_too_long(iter_time_taken, total_time_taken, self.max_time_millis) {
                p.done = true;
                return ;
            }
        }
        proof {
            let rest = spec_reports(
                engine_of(self),
                game_of(state),
                p.in_check,
                (depth + 1) as u8,
                crate::model::next_alpha(score),
                crate::model::next_beta(score),
                0,
                false,
                max_depth,
            );
            assert(reports_of(self.iterations@) + rest =~= p.total@);
        }
        p.depth = depth + 1;
        p.accumulated_time_taken = total_time_taken;
        p.attempts = 0;
        p.alpha = if score - WINDOW_SIZE < -SCORE_LIMIT {
            -SCORE_LIMIT
        } else {
            score - WINDOW_SIZE
        };
        p.beta = if score + WINDOW_SIZE > SCORE_LIMIT {
            SCORE_LIMIT
        } else {
            score + WINDOW_SIZE
        };
        p.window_extended = false;
    }

    /// Searches the position one ply deeper at a time, up to `max_depth`
    /// plies and `MAX_DEPTH`, and returns the best move found, or 0 where
    /// the player to move has no legal move: `start_search`, then
    /// `search_step` until the search has ended. One entry of `iterations`
    /// is written for each depth completed. The position is left as it was
    /// found.
    pub fn search(&mut self, state: &mut State, time_capacity: TimeCapacity, max_depth: u8) -> (r:
        u32)
        requires
            old(self).wf(),
            old(state).wf(),
        ensures
            final(self).wf(),
            state_restored(final(state), old(state)),
            final(self).iterations@.len() <= max_depth,
            final(self).iterations@.len() <= MAX_DEPTH,
            forall|i: int|
                0 <= i < final(self).iterations@.len() ==> iteration_ok(
                    #[trigger] final(self).iterations@[i],
                    old(state),
                    max_depth,
                ),
            final(self).iterations@.len() == 0 ==> r == spec_first_legal_mov(
                old(state).pos,
                old(state).zob_keys@,
                *old(state).bitmask,
            ),
            final(self).iterations@.len() > 0 ==> r == final(self).iterations@.last().pv@[0],
            final(self).iterations@.len() <= spec_search_reports(
                engine_of(old(self)),
                game_of(old(state)),
                max_depth,
            ).len(),
            reports_of(final(self).iterations@) == spec_search_reports(
                engine_of(old(self)),
                game_of(old(state)),
                max_depth,
            ).take(final(self).iterations@.len() as int),
            r != 0 ==> spec_mov_is_legal(
                old(state).pos,
                old(state).zob_keys@,
                *old(state).bitmask,
                r,
            ),
            time_capacity.main_time_millis == u128::MAX ==> !final(self).abort && reports_of(
                final(self).iterations@,
            ) == spec_search_reports(engine_of(old(self)), game_of(old(state)), max_depth),
            time_capacity.main_time_millis == u128::MAX ==> engine_of(final(self))
                == spec_engine_after_search(engine_of(old(self)), game_of(old(state)), max_depth),
            final(self).abort ==> final(self).node_count >= 4096,
            same_sizes(final(self), old(self)),
    {
        let mut p: Progress = self.start_search(state, time_capacity, max_depth);
        while !p.done
            invariant
                progress_ok(self, state, &p),
                state_restored(state, old(state)),
                same_sizes(self, old(self)),
                p.max_depth == max_depth,
                p.time_capacity == time_capacity,
                p.total@ == spec_search_reports(
                    engine_of(old(self)),
                    game_of(old(state)),
                    max_depth,
                ),
                p.end@ == spec_engine_after_search(
                    engine_of(old(self)),
                    game_of(old(state)),
                    max_depth,
                ),
            decreases MAX_DEPTH + 1 - p.depth, 3 - p.attempts, (if p.done {
                0int
            } else {
                1int
            }),
        {
            self.search_step(state, &mut p);
        }
        proof {
            assert forall|i: int| 0 <= i < self.iterations@.len() implies iteration_ok(
                #[trigger] self.iterations@[i],
                old(state),
                max_depth,
            ) by {
                assert(iteration_ok(self.iterations@[i], state, max_depth));
            }
        }
        p.best_mov
    }
}

} // verus!
