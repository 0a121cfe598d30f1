use corvid::bitboard::BitMask;
use corvid::def;
use corvid::eval;
use corvid::hash_tbl::{HashTable, LookupResult, HASH_TYPE_ALPHA, HASH_TYPE_BETA, HASH_TYPE_EXACT};
use corvid::mov_table;
use corvid::prng::XorshiftPrng;
use corvid::search::{
    insert_scored, isqrt, mate_in, see, see_exchange, static_eval, SearchEngine, TimeCapacity,
};
use corvid::state::{State, FEN_START_POS};
use corvid::util;

fn sq(name: &str) -> usize {
    util::map_sqr_notation_to_index(name)
}

#[test]
fn xorshift_sequence_from_the_seed() {
    let mut prng = XorshiftPrng::new();
    let table = prng.create_prn_table(1, 5);
    assert_eq!(
        vec![
            2025808131445u64,
            2115961644997813663,
            8752924098041536212,
            7534665034626464617,
            12343185756002745503
        ],
        table[0]
    );
}

#[test]
fn prn_table_has_the_dimensions_asked_for() {
    let table = XorshiftPrng::new().create_prn_table(def::BOARD_SIZE, def::PIECE_CODE_RANGE);
    assert_eq!(def::BOARD_SIZE, table.len());
    for row in &table {
        assert_eq!(def::PIECE_CODE_RANGE, row.len());
    }
    let empty = XorshiftPrng::new().create_prn_table(0, 7);
    assert!(empty.is_empty());
    let no_columns = XorshiftPrng::new().create_prn_table(3, 0);
    assert_eq!(3, no_columns.len());
    assert!(no_columns[2].is_empty());
}

#[test]
fn prn_table_is_filled_row_by_row() {
    let table = XorshiftPrng::new().create_prn_table(2, 2);
    assert_eq!(2025808131445u64, table[0][0]);
    assert_eq!(2115961644997813663u64, table[0][1]);
    assert_eq!(8752924098041536212u64, table[1][0]);
    assert_eq!(7534665034626464617u64, table[1][1]);
}

#[test]
fn move_encoding_round_trip() {
    let mov = util::encode_u32_mov(sq("e2"), sq("e4"), def::MOV_CR_ENP, 0);
    assert_ne!(0, mov);
    assert_eq!((sq("e2"), sq("e4"), def::MOV_CR_ENP, 0), util::decode_u32_mov(mov));
    let promo = util::encode_u32_mov(sq("a7"), sq("b8"), def::MOV_PROMO, def::WQ);
    assert_eq!((sq("a7"), sq("b8"), def::MOV_PROMO, def::WQ), util::decode_u32_mov(promo));
    assert_eq!((0, 0, 0, 0), util::decode_u32_mov(0));
}

#[test]
fn moves_are_written_as_the_protocol_writes_them() {
    assert_eq!("e2e4", util::format_mov(util::encode_u32_mov(sq("e2"), sq("e4"), def::MOV_CR_ENP, 0)));
    assert_eq!("a7b8q", util::format_mov(util::encode_u32_mov(sq("a7"), sq("b8"), def::MOV_PROMO, def::WQ)));
    assert_eq!("h2h1n", util::format_mov(util::encode_u32_mov(sq("h2"), sq("h1"), def::MOV_PROMO, def::BN)));
    assert_eq!("c7c8r", util::format_mov(util::encode_u32_mov(sq("c7"), sq("c8"), def::MOV_PROMO, def::WR)));
    assert_eq!("c2c1b", util::format_mov(util::encode_u32_mov(sq("c2"), sq("c1"), def::MOV_PROMO, def::BB)));
    assert_eq!("e1g1", util::format_mov(util::encode_u32_mov(sq("e1"), sq("g1"), def::MOV_CAS, 0)));
    assert_eq!("a1a1", util::format_mov(0));
    assert_eq!(
        "e2e4 e7e5",
        util::format_pv(&vec![
            util::encode_u32_mov(sq("e2"), sq("e4"), def::MOV_CR_ENP, 0),
            util::encode_u32_mov(sq("e7"), sq("e5"), def::MOV_CR_ENP, 0)
        ])
    );
    assert_eq!("", util::format_pv(&Vec::new()));
}

#[test]
fn square_notation() {
    assert_eq!(0, sq("a1"));
    assert_eq!(7, sq("h1"));
    assert_eq!(28, sq("e4"));
    assert_eq!(63, sq("h8"));
}

#[test]
fn bit_scans() {
    assert_eq!(3, util::get_lowest_index(0b1011000));
    assert_eq!(6, util::get_highest_index(0b1011000));
    assert_eq!(63, util::get_highest_index(1u64 << 63));
    assert_eq!(0, util::get_lowest_index(1));
}

#[test]
fn board_geometry() {
    assert_eq!(def::PLAYER_B, def::get_opposite_player(def::PLAYER_W));
    assert_eq!(def::PLAYER_W, def::get_opposite_player(def::PLAYER_B));
    assert_eq!(3, def::get_rank(def::PLAYER_W, sq("e4")));
    assert_eq!(4, def::get_rank(def::PLAYER_B, sq("e4")));
    assert_eq!(5, def::get_file_distance(sq("b4"), sq("g7")));
    assert_eq!(0, def::get_file_distance(sq("c1"), sq("c8")));
    assert!(def::is_k(def::WK) && def::is_k(def::BK) && !def::is_k(def::WQ));
    assert!(def::is_p(def::WP) && def::is_p(def::BP) && !def::is_p(0));
    assert!(def::is_w(def::WN) && !def::is_w(def::BN) && !def::is_w(0));
    assert!(def::is_b(def::BQ) && !def::is_b(def::WQ) && !def::is_b(0));
}

#[test]
fn mask_tables() {
    let m = BitMask::new();
    assert_eq!((1u64 << sq("b3")) | (1u64 << sq("c2")), m.n_attack_masks[sq("a1")]);
    assert_eq!(
        (1u64 << sq("a2")) | (1u64 << sq("b2")) | (1u64 << sq("b1")),
        m.k_attack_masks[sq("a1")]
    );
    assert_eq!(0x0101010101010101u64, m.file_masks[sq("a5")]);
    assert_eq!(0xffu64 << 24, m.rank_masks[sq("c4")]);
    assert_eq!((1u64 << sq("d5")) | (1u64 << sq("f5")), m.wp_attack_masks[sq("e4")]);
    assert_eq!((1u64 << sq("d3")) | (1u64 << sq("f3")), m.bp_attack_masks[sq("e4")]);
    assert_eq!(1u64 << sq("b5"), m.wp_attack_masks[sq("a4")]);
    assert_eq!(0, m.wp_attack_masks[sq("e8")]);
    assert_eq!(0, m.up_attack_masks[sq("e8")]);
    assert_eq!(
        (1u64 << sq("e5")) | (1u64 << sq("e6")) | (1u64 << sq("e7")) | (1u64 << sq("e8")),
        m.up_attack_masks[sq("e4")]
    );
    assert_eq!(
        (1u64 << sq("f3")) | (1u64 << sq("g2")) | (1u64 << sq("h1")),
        m.down_right_attack_masks[sq("e4")]
    );
    assert_eq!(
        (1u64 << sq("c6")) | (1u64 << sq("d6")) | (1u64 << sq("e6")),
        m.wp_front_control_sqr_masks[sq("d4")]
    );
    assert_eq!(0, m.wp_front_control_sqr_masks[sq("d7")]);
    assert_eq!(
        (1u64 << sq("e4")) | (1u64 << sq("f4")) | (1u64 << sq("g4")),
        m.bp_front_control_sqr_masks[sq("f6")]
    );
}

#[test]
fn start_position_is_read() {
    let zob_keys = XorshiftPrng::new().create_prn_table(def::BOARD_SIZE, def::PIECE_CODE_RANGE);
    let bitmask = BitMask::new();
    let state = State::new(FEN_START_POS, &zob_keys, &bitmask);
    assert_eq!(def::PLAYER_W, state.pos.player);
    assert_eq!(0b1111, state.pos.cas_rights);
    assert_eq!(0, state.pos.enp_square);
    assert_eq!(def::WK, state.pos.squares[sq("e1")]);
    assert_eq!(def::BQ, state.pos.squares[sq("d8")]);
    assert_eq!(def::WP, state.pos.squares[sq("h2")]);
    assert_eq!(0, state.pos.squares[sq("e4")]);
    assert_eq!(sq("e1"), state.pos.wk_index);
    assert_eq!(sq("e8"), state.pos.bk_index);
    assert_eq!(0xffu64 << 8, state.pos.bitboard.w_pawn);
    assert_eq!(0xffffu64, state.pos.bitboard.w_all);
    assert_eq!(0xffffu64 << 48, state.pos.bitboard.b_all);
    assert_eq!(20, mov_table::gen_reg_mov_list(&state).len());
    assert_eq!(0, mov_table::gen_capture_list(&state).len());
}

#[test]
fn fen_fields_are_read() {
    let zob_keys = XorshiftPrng::new().create_prn_table(def::BOARD_SIZE, def::PIECE_CODE_RANGE);
    let bitmask = BitMask::new();
    let state = State::new(
        "rnbqkbnr/pppp1ppp/8/4p3/4P3/8/PPPP1PPP/RNBQKBNR b Kq e3 17 9",
        &zob_keys,
        &bitmask,
    );
    assert_eq!(def::PLAYER_B, state.pos.player);
    assert_eq!(def::CAS_WK | def::CAS_BQ, state.pos.cas_rights);
    assert_eq!(sq("e3"), state.pos.enp_square);
    assert_eq!(17, state.pos.non_cap_mov_count);
    assert_eq!(def::WP, state.pos.squares[sq("e4")]);
    assert_eq!(def::BP, state.pos.squares[sq("e5")]);
}

#[test]
fn a_move_is_taken_back() {
    let zob_keys = XorshiftPrng::new().create_prn_table(def::BOARD_SIZE, def::PIECE_CODE_RANGE);
    let bitmask = BitMask::new();
    let mut state = State::new(FEN_START_POS, &zob_keys, &bitmask);
    let key = state.pos.hash_key;
    let boards = state.pos.bitboard;
    state.do_mov(sq("e2"), sq("e4"), def::MOV_CR_ENP, 0);
    assert_eq!(def::PLAYER_B, state.pos.player);
    assert_eq!(sq("e3"), state.pos.enp_square);
    assert_eq!(def::WP, state.pos.squares[sq("e4")]);
    assert_eq!(0, state.pos.squares[sq("e2")]);
    assert_ne!(key, state.pos.hash_key);
    state.undo_mov();
    assert_eq!(def::PLAYER_W, state.pos.player);
    assert_eq!(0, state.pos.enp_square);
    assert_eq!(def::WP, state.pos.squares[sq("e2")]);
    assert_eq!(0, state.pos.squares[sq("e4")]);
    assert_eq!(key, state.pos.hash_key);
    assert_eq!(boards.w_pawn, state.pos.bitboard.w_pawn);
    assert_eq!(boards.w_all, state.pos.bitboard.w_all);
    assert!(state.history.is_empty());
}

#[test]
fn castling_moves_the_rook() {
    let zob_keys = XorshiftPrng::new().create_prn_table(def::BOARD_SIZE, def::PIECE_CODE_RANGE);
    let bitmask = BitMask::new();
    let mut state = State::new("r3k2r/8/8/8/8/8/8/R3K2R w KQkq - 0 1", &zob_keys, &bitmask);
    let movs = mov_table::gen_reg_mov_list(&state);
    assert!(movs.contains(&util::encode_u32_mov(sq("e1"), sq("g1"), def::MOV_CAS, 0)));
    assert!(movs.contains(&util::encode_u32_mov(sq("e1"), sq("c1"), def::MOV_CAS, 0)));
    state.do_mov(sq("e1"), sq("g1"), def::MOV_CAS, 0);
    assert_eq!(def::WK, state.pos.squares[sq("g1")]);
    assert_eq!(def::WR, state.pos.squares[sq("f1")]);
    assert_eq!(0, state.pos.squares[sq("h1")]);
    assert_eq!(0, state.pos.squares[sq("e1")]);
    assert_eq!(sq("g1"), state.pos.wk_index);
    assert_eq!(def::CAS_B_ALL, state.pos.cas_rights);
    assert_eq!(def::CAS_W_ALL, state.pos.cas_history);
    state.do_mov(sq("e8"), sq("c8"), def::MOV_CAS, 0);
    assert_eq!(def::BK, state.pos.squares[sq("c8")]);
    assert_eq!(def::BR, state.pos.squares[sq("d8")]);
    assert_eq!(0, state.pos.squares[sq("a8")]);
    assert_eq!(0, state.pos.cas_rights);
    state.undo_mov();
    state.undo_mov();
    assert_eq!(0b1111, state.pos.cas_rights);
    assert_eq!(def::WR, state.pos.squares[sq("h1")]);
}

#[test]
fn no_castling_through_an_attacked_square() {
    let zob_keys = XorshiftPrng::new().create_prn_table(def::BOARD_SIZE, def::PIECE_CODE_RANGE);
    let bitmask = BitMask::new();
    let state = State::new("4k3/8/8/8/8/8/5r2/R3K2R w KQ - 0 1", &zob_keys, &bitmask);
    let movs = mov_table::gen_reg_mov_list(&state);
    assert!(!movs.contains(&util::encode_u32_mov(sq("e1"), sq("g1"), def::MOV_CAS, 0)));
    assert!(movs.contains(&util::encode_u32_mov(sq("e1"), sq("c1"), def::MOV_CAS, 0)));
}

#[test]
fn en_passant_takes_the_pawn_passed() {
    let zob_keys = XorshiftPrng::new().create_prn_table(def::BOARD_SIZE, def::PIECE_CODE_RANGE);
    let bitmask = BitMask::new();
    let mut state = State::new("4k3/8/8/3pP3/8/8/8/4K3 w - d6 0 1", &zob_keys, &bitmask);
    let movs = mov_table::gen_reg_mov_list(&state);
    assert!(movs.contains(&util::encode_u32_mov(sq("e5"), sq("d6"), def::MOV_ENP, 0)));
    state.do_mov(sq("e5"), sq("d6"), def::MOV_ENP, 0);
    assert_eq!(def::WP, state.pos.squares[sq("d6")]);
    assert_eq!(0, state.pos.squares[sq("d5")]);
    assert_eq!(0, state.pos.squares[sq("e5")]);
    assert_eq!(0, state.pos.bitboard.b_pawn);
    state.undo_mov();
    assert_eq!(def::BP, state.pos.squares[sq("d5")]);
}

#[test]
fn promotion_puts_the_new_piece() {
    let zob_keys = XorshiftPrng::new().create_prn_table(def::BOARD_SIZE, def::PIECE_CODE_RANGE);
    let bitmask = BitMask::new();
    let mut state = State::new("1n2k3/P7/8/8/8/8/8/4K3 w - - 0 1", &zob_keys, &bitmask);
    let movs = mov_table::gen_reg_mov_list(&state);
    assert!(movs.contains(&util::encode_u32_mov(sq("a7"), sq("a8"), def::MOV_PROMO, def::WQ)));
    assert!(movs.contains(&util::encode_u32_mov(sq("a7"), sq("b8"), def::MOV_PROMO, def::WN)));
    assert_eq!(8, mov_table::gen_capture_list(&state).len());
    state.do_mov(sq("a7"), sq("b8"), def::MOV_PROMO, def::WR);
    assert_eq!(def::WR, state.pos.squares[sq("b8")]);
    assert_eq!(0, state.pos.bitboard.w_pawn);
    assert_eq!(1u64 << sq("b8"), state.pos.bitboard.w_rook);
    assert_eq!(0, state.pos.bitboard.b_knight);
    assert!(mov_table::is_in_check(&state, def::PLAYER_B));
}

#[test]
fn a_promotion_to_no_piece_makes_a_queen() {
    let zob_keys = XorshiftPrng::new().create_prn_table(def::BOARD_SIZE, def::PIECE_CODE_RANGE);
    let bitmask = BitMask::new();
    let mut state = State::new("4k3/P7/8/8/8/8/8/4K3 w - - 0 1", &zob_keys, &bitmask);
    state.do_mov(sq("a7"), sq("a8"), def::MOV_PROMO, 77);
    assert_eq!(def::WQ, state.pos.squares[sq("a8")]);
}

#[test]
fn draw_by_repetition_and_by_fifty_moves() {
    let zob_keys = XorshiftPrng::new().create_prn_table(def::BOARD_SIZE, def::PIECE_CODE_RANGE);
    let bitmask = BitMask::new();
    let mut state = State::new("4k3/8/8/8/8/8/8/R3K3 w - - 0 1", &zob_keys, &bitmask);
    assert!(!state.is_draw());
    state.do_mov(sq("a1"), sq("a2"), def::MOV_REG, 0);
    state.do_mov(sq("e8"), sq("d8"), def::MOV_REG, 0);
    state.do_mov(sq("a2"), sq("a1"), def::MOV_REG, 0);
    assert!(!state.is_draw());
    state.do_mov(sq("d8"), sq("e8"), def::MOV_REG, 0);
    assert!(state.is_draw());
    let late = State::new("4k3/8/8/8/8/8/8/R3K3 w - - 100 80", &zob_keys, &bitmask);
    assert!(late.is_draw());
    let not_yet = State::new("4k3/8/8/8/8/8/8/R3K3 w - - 99 80", &zob_keys, &bitmask);
    assert!(!not_yet.is_draw());
}

#[test]
fn check_detection() {
    let zob_keys = XorshiftPrng::new().create_prn_table(def::BOARD_SIZE, def::PIECE_CODE_RANGE);
    let bitmask = BitMask::new();
    let state = State::new("4k3/8/8/8/8/8/4r3/4K3 w - - 0 1", &zob_keys, &bitmask);
    assert!(mov_table::is_in_check(&state, def::PLAYER_W));
    assert!(!mov_table::is_in_check(&state, def::PLAYER_B));
    let blocked = State::new("4k3/8/8/8/8/4r3/4N3/4K3 w - - 0 1", &zob_keys, &bitmask);
    assert!(!mov_table::is_in_check(&blocked, def::PLAYER_W));
    let by_pawn = State::new("4k3/8/8/8/8/8/3p4/4K3 w - - 0 1", &zob_keys, &bitmask);
    assert!(mov_table::is_in_check(&by_pawn, def::PLAYER_W));
    let by_knight = State::new("4k3/8/8/8/8/3n4/8/4K3 w - - 0 1", &zob_keys, &bitmask);
    assert!(mov_table::is_in_check(&by_knight, def::PLAYER_W));
}

#[test]
fn smallest_attacker_comes_first() {
    let zob_keys = XorshiftPrng::new().create_prn_table(def::BOARD_SIZE, def::PIECE_CODE_RANGE);
    let bitmask = BitMask::new();
    let state = State::new("4k3/8/8/3p4/4P3/8/3Q4/3RK3 w - - 0 1", &zob_keys, &bitmask);
    assert_eq!(
        (def::WP, def::MOV_REG, 0, sq("e4")),
        mov_table::get_smallest_attacker_index(&state, sq("d5"))
    );
    let state = State::new("4k3/8/8/3p4/8/8/3Q4/3RK3 w - - 0 1", &zob_keys, &bitmask);
    assert_eq!(
        (def::WQ, def::MOV_REG, 0, sq("d2")),
        mov_table::get_smallest_attacker_index(&state, sq("d5"))
    );
    assert_eq!((0, 0, 0, 0), mov_table::get_smallest_attacker_index(&state, sq("h8")));
}

#[test]
fn piece_values() {
    assert_eq!(0, eval::val_of(0));
    assert_eq!(100, eval::val_of(def::WP));
    assert_eq!(100, eval::val_of(def::BP));
    assert_eq!(340, eval::val_of(def::BN));
    assert_eq!(350, eval::val_of(def::WB));
    assert_eq!(525, eval::val_of(def::BR));
    assert_eq!(1000, eval::val_of(def::WQ));
    assert_eq!(eval::MATE_VAL, eval::val_of(def::WK));
    assert_eq!(0, eval::val_of(77));
}

#[test]
fn material_and_phase_of_the_start_position() {
    let zob_keys = XorshiftPrng::new().create_prn_table(def::BOARD_SIZE, def::PIECE_CODE_RANGE);
    let bitmask = BitMask::new();
    let state = State::new(FEN_START_POS, &zob_keys, &bitmask);
    assert_eq!((0, false), eval::eval_materials(&state));
    assert_eq!(eval::TOTAL_PHASE, eval::get_phase(&state));
    assert_eq!(eval::TEMPO_VAL, eval::eval_state(&state, 0));
}

#[test]
fn material_is_counted_for_the_player_to_move() {
    let zob_keys = XorshiftPrng::new().create_prn_table(def::BOARD_SIZE, def::PIECE_CODE_RANGE);
    let bitmask = BitMask::new();
    let white = State::new("4k3/8/8/8/8/8/PP6/RN2K3 w - - 0 1", &zob_keys, &bitmask);
    assert_eq!((525 + 340 + 200, false), eval::eval_materials(&white));
    let black = State::new("4k3/8/8/8/8/8/PP6/RN2K3 b - - 0 1", &zob_keys, &bitmask);
    assert_eq!((-(525 + 340 + 200), false), eval::eval_materials(&black));
    assert_eq!(8 + 4, eval::get_phase(&white));
}

#[test]
fn two_knights_against_a_bare_king_are_a_draw_but_three_are_not() {
    let zob_keys = XorshiftPrng::new().create_prn_table(def::BOARD_SIZE, def::PIECE_CODE_RANGE);
    let bitmask = BitMask::new();
    let two = State::new("4k3/8/8/8/8/8/8/NN2K3 w - - 0 1", &zob_keys, &bitmask);
    assert_eq!((0, true), eval::eval_materials(&two));
    let three = State::new("4k3/8/8/8/8/8/8/NNN1K3 w - - 0 1", &zob_keys, &bitmask);
    assert_eq!((3 * 340, false), eval::eval_materials(&three));
    let bishops = State::new("4k3/8/8/8/8/8/8/BB2K3 b - - 0 1", &zob_keys, &bitmask);
    assert_eq!((-700, false), eval::eval_materials(&bishops));
}

fn evaluate(state: &State) -> i32 {
    let (material, _) = eval::eval_materials(state);
    eval::eval_state(state, material)
}

#[test]
fn evaluation_changes_sign_with_the_player_but_for_the_tempo() {
    let zob_keys = XorshiftPrng::new().create_prn_table(def::BOARD_SIZE, def::PIECE_CODE_RANGE);
    let bitmask = BitMask::new();
    let boards = [
        "r1b2rk1/pp2ppbp/1qnp2p1/2nP4/P2QPP2/N1P2N2/2B3PP/1RB2RK1",
        "1kr3r1/pp3p1p/P1pn4/2Bpb3/4p2q/3PP3/PPP1NPPP/R2Q1RK1",
        "rnbqkbnr/pppppppp/8/8/8/8/PPPPPPPP/RNBQKBNR",
        "8/2k5/4p3/1nb2p2/2K5/8/6B1/8",
    ];
    for board in boards {
        let white = State::new(&format!("{} w - - 0 1", board), &zob_keys, &bitmask);
        let black = State::new(&format!("{} b - - 0 1", board), &zob_keys, &bitmask);
        assert_eq!(
            evaluate(&white) - eval::TEMPO_VAL,
            -(evaluate(&black) - eval::TEMPO_VAL)
        );
    }
}

#[test]
fn among_pawns_and_kings_the_move_decides_who_outruns_whom() {
    let zob_keys = XorshiftPrng::new().create_prn_table(def::BOARD_SIZE, def::PIECE_CODE_RANGE);
    let bitmask = BitMask::new();
    let white = State::new("8/6k1/8/6p1/1P6/8/1K6/8 w - - 0 1", &zob_keys, &bitmask);
    let black = State::new("8/6k1/8/6p1/1P6/8/1K6/8 b - - 0 1", &zob_keys, &bitmask);
    assert_ne!(
        evaluate(&white) - eval::TEMPO_VAL,
        -(evaluate(&black) - eval::TEMPO_VAL)
    );
}

#[test]
fn feature_maps_add_up() {
    let mut a = eval::FeatureMap::empty();
    a.mobility = 3;
    a.king_exposed = 1;
    let mut b = eval::FeatureMap::empty();
    b.mobility = 4;
    b.pawn_count = 8;
    let sum = a.add(&b);
    assert_eq!(7, sum.mobility);
    assert_eq!(1, sum.king_exposed);
    assert_eq!(8, sum.pawn_count);
    assert_eq!(eval::FeatureMap::empty(), eval::FeatureMap::empty().add(&eval::FeatureMap::empty()));
}

#[test]
fn positional_score_blends_by_phase() {
    let mut w = eval::FeatureMap::empty();
    let b = eval::FeatureMap::empty();
    w.passed_pawn_count = 1;
    assert_eq!(30, eval::positional_score(&w, &b));
    assert_eq!(-30, eval::positional_score(&b, &w));
    w.queen_count = 3;
    assert_eq!((30 + 90) * (96 - 48) / 96, eval::positional_score(&w, &b));
    w.queen_count = 6;
    assert_eq!(0, eval::positional_score(&w, &b));
    let mut t = eval::FeatureMap::empty();
    t.trapped_queen_count = 1;
    t.defended_pawn_count = 2;
    assert_eq!(-90 + 20, eval::positional_score(&t, &b));
    let mut m = eval::FeatureMap::empty();
    m.knight_count = 24;
    m.king_exposed = 1;
    assert_eq!(-50, eval::positional_score(&m, &b));
    m.knight_count = 1;
    assert_eq!(-2, eval::positional_score(&m, &b));
}

#[test]
fn an_unguarded_capture_wins_all_it_takes() {
    let zob_keys = XorshiftPrng::new().create_prn_table(def::BOARD_SIZE, def::PIECE_CODE_RANGE);
    let bitmask = BitMask::new();
    let mut state = State::new("4k3/8/8/3r4/8/8/3Q4/4K3 w - - 0 1", &zob_keys, &bitmask);
    assert_eq!(525, see(&mut state, sq("d2"), sq("d5"), def::MOV_REG, 0));
    assert_eq!(def::WQ, state.pos.squares[sq("d2")]);
    assert_eq!(def::BR, state.pos.squares[sq("d5")]);
    assert!(state.history.is_empty());
}

#[test]
fn a_capture_of_a_pawn_that_a_pawn_guards_loses_the_queen() {
    let zob_keys = XorshiftPrng::new().create_prn_table(def::BOARD_SIZE, def::PIECE_CODE_RANGE);
    let bitmask = BitMask::new();
    let mut state = State::new("4k3/8/4p3/3p4/8/8/3Q4/4K3 w - - 0 1", &zob_keys, &bitmask);
    assert_eq!(100 - 1000, see(&mut state, sq("d2"), sq("d5"), def::MOV_REG, 0));
}

#[test]
fn an_exchange_is_played_out_with_the_cheapest_piece_first() {
    let zob_keys = XorshiftPrng::new().create_prn_table(def::BOARD_SIZE, def::PIECE_CODE_RANGE);
    let bitmask = BitMask::new();
    // Pawn takes pawn, pawn takes back, rook takes: 100 - (100 - 100).
    let mut state = State::new("4k3/8/4p3/3p4/4P3/8/8/3RK3 w - - 0 1", &zob_keys, &bitmask);
    assert_eq!(100, see(&mut state, sq("e4"), sq("d5"), def::MOV_REG, 0));
    // Rook takes a pawn that a pawn guards, with a rook behind it.
    assert_eq!(100 - 525 + 100, see(&mut state, sq("d1"), sq("d5"), def::MOV_REG, 0));
    // After the first capture the exchange goes on from the other side.
    state.do_mov(sq("e4"), sq("d5"), def::MOV_REG, 0);
    assert_eq!(0, see_exchange(&mut state, sq("d5"), def::WP, 64));
    assert_eq!(100, see_exchange(&mut state, sq("d5"), def::WP, 1));
    assert_eq!(0, see_exchange(&mut state, sq("d5"), def::WP, 0));
    assert_eq!(0, see_exchange(&mut state, sq("a1"), def::WP, 64));
}

#[test]
fn a_promotion_counts_for_the_exchange() {
    let zob_keys = XorshiftPrng::new().create_prn_table(def::BOARD_SIZE, def::PIECE_CODE_RANGE);
    let bitmask = BitMask::new();
    let mut state = State::new("1n2k3/P7/8/8/8/8/8/4K3 w - - 0 1", &zob_keys, &bitmask);
    assert_eq!(340 + 1000, see(&mut state, sq("a7"), sq("b8"), def::MOV_PROMO, def::WQ));
}

#[test]
fn integer_square_root() {
    let expected = [0u32, 1, 1, 1, 2, 2, 2, 2, 2, 3];
    for (n, r) in expected.iter().enumerate() {
        assert_eq!(*r, isqrt(n as u32));
    }
    assert_eq!(9, isqrt(99));
    assert_eq!(10, isqrt(100));
    assert_eq!(31, isqrt(1000));
}

#[test]
fn scored_moves_are_kept_best_first_and_stable() {
    let mut list: Vec<(i32, u32)> = Vec::new();
    insert_scored(&mut list, (5, 1));
    insert_scored(&mut list, (9, 2));
    insert_scored(&mut list, (5, 3));
    insert_scored(&mut list, (-2, 4));
    insert_scored(&mut list, (9, 5));
    insert_scored(&mut list, (7, 6));
    assert_eq!(vec![(9, 2), (9, 5), (7, 6), (5, 1), (5, 3), (-2, 4)], list);
}

#[test]
fn mate_scores_are_counted_in_moves() {
    assert_eq!(1, mate_in(eval::MATE_VAL - 1));
    assert_eq!(2, mate_in(eval::MATE_VAL - 3));
    assert_eq!(-1, mate_in(-eval::MATE_VAL + 2));
    assert_eq!(0, mate_in(-eval::MATE_VAL));
}

#[test]
fn the_table_stores_and_finds() {
    let mut table = HashTable::new(16);
    assert_eq!(16, table.size());
    assert_eq!(LookupResult::NoMatch, table.get(0, 0, 0, 0, 0));
    assert!(table.set(35, 1, 4, 3, 20, HASH_TYPE_BETA, 77, 9));
    assert_eq!(LookupResult::Match(HASH_TYPE_BETA, 77, 9), table.get(35, 1, 4, 3, 20));
    assert_eq!(LookupResult::Match(HASH_TYPE_BETA, 77, 9), table.get(35, 1, 0, 3, 20));
    assert_eq!(LookupResult::MovOnly(9), table.get(35, 1, 5, 3, 20));
    // The same slot, another position.
    assert_eq!(LookupResult::NoMatch, table.get(35 + 16, 1, 4, 3, 20));
    assert_eq!(LookupResult::NoMatch, table.get(35, 2, 4, 3, 20));
    // Another slot is left alone.
    assert!(table.set(36, 1, 1, 3, 20, HASH_TYPE_ALPHA, -5, 8));
    assert_eq!(LookupResult::Match(HASH_TYPE_BETA, 77, 9), table.get(35, 1, 4, 3, 20));
    // A collision evicts, whatever the depth.
    assert!(table.set(35 + 16, 1, 1, 3, 20, HASH_TYPE_EXACT, 1, 2));
    assert_eq!(LookupResult::NoMatch, table.get(35, 1, 4, 3, 20));
    assert_eq!(LookupResult::Match(HASH_TYPE_EXACT, 1, 2), table.get(35 + 16, 1, 1, 3, 20));
    table.clear();
    assert_eq!(LookupResult::NoMatch, table.get(35 + 16, 1, 1, 3, 20));
    assert_eq!(16, table.size());
}

#[test]
fn the_depth_preferred_table_keeps_the_deeper_result() {
    let mut table = HashTable::new_depth_preferred(8);
    assert!(table.set(3, 2, 6, 0, 0, HASH_TYPE_EXACT, 50, 11));
    assert!(!table.set(3, 2, 5, 0, 0, HASH_TYPE_EXACT, 60, 12));
    assert!(!table.set(11, 1, 2, 0, 0, HASH_TYPE_EXACT, 60, 12));
    assert_eq!(LookupResult::Match(HASH_TYPE_EXACT, 50, 11), table.get(3, 2, 6, 0, 0));
    assert!(table.set(3, 2, 6, 0, 0, HASH_TYPE_EXACT, 70, 13));
    assert_eq!(LookupResult::Match(HASH_TYPE_EXACT, 70, 13), table.get(3, 2, 6, 0, 0));
    assert!(table.set(11, 1, 9, 0, 0, HASH_TYPE_BETA, 80, 14));
    assert_eq!(LookupResult::NoMatch, table.get(3, 2, 6, 0, 0));
}

#[test]
fn the_engine_falls_back_on_the_always_replace_table() {
    let zob_keys = XorshiftPrng::new().create_prn_table(def::BOARD_SIZE, def::PIECE_CODE_RANGE);
    let bitmask = BitMask::new();
    let state = State::new(FEN_START_POS, &zob_keys, &bitmask);
    let mut engine = SearchEngine::new(64);
    assert_eq!(LookupResult::NoMatch, engine.get_hash(&state, 0));
    engine.set_hash(&state, 5, HASH_TYPE_EXACT, 33, 7);
    assert_eq!(LookupResult::Match(HASH_TYPE_EXACT, 33, 7), engine.get_hash(&state, 5));
    assert_eq!(LookupResult::MovOnly(7), engine.get_hash(&state, 6));
    // A shallower result goes to the second table; the first is asked first.
    engine.set_hash(&state, 3, HASH_TYPE_BETA, 44, 8);
    assert_eq!(LookupResult::Match(HASH_TYPE_EXACT, 33, 7), engine.get_hash(&state, 3));
    assert_eq!(
        LookupResult::Match(HASH_TYPE_BETA, 44, 8),
        engine.always_replace_hash_table.get(
            state.pos.hash_key,
            state.pos.player,
            3,
            state.pos.cas_rights,
            state.pos.enp_square
        )
    );
    engine.reset();
    assert_eq!(LookupResult::NoMatch, engine.get_hash(&state, 0));
    engine.set_hash(&state, 5, HASH_TYPE_EXACT, 33, 7);
    engine.set_hash_size(128);
    assert_eq!(LookupResult::NoMatch, engine.get_hash(&state, 0));
    assert_eq!(64, engine.depth_preferred_hash_table.size());
    assert_eq!(64, engine.always_replace_hash_table.size());
}

#[test]
fn killer_moves() {
    let mut engine = SearchEngine::new(64);
    assert_eq!((0, 0), engine.get_killer_mov(5));
    engine.update_killer_table(10, 5, 100);
    assert_eq!((100, 0), engine.get_killer_mov(5));
    engine.update_killer_table(20, 5, 200);
    assert_eq!((200, 100), engine.get_killer_mov(5));
    engine.update_killer_table(15, 5, 300);
    assert_eq!((200, 300), engine.get_killer_mov(5));
    engine.update_killer_table(1, 5, 400);
    assert_eq!((200, 300), engine.get_killer_mov(5));
    // Two plies on nothing is recorded yet: the pair of this ply stands in.
    assert_eq!((200, 300), engine.get_killer_mov(7));
    engine.update_killer_table(3, 7, 500);
    assert_eq!((500, 200), engine.get_killer_mov(7));
    // Up to ply 2 nothing stands in.
    engine.update_killer_table(3, 0, 600);
    assert_eq!((0, 0), engine.get_killer_mov(2));
    assert_eq!((600, 0), engine.get_killer_mov(0));
    // Beyond the plies kept nothing is recorded.
    engine.update_killer_table(3, 200, 700);
    assert_eq!((0, 0), engine.get_killer_mov(200));
}

#[test]
fn history_scores_grow_by_the_square_of_the_depth_up_to_the_cap() {
    let mut engine = SearchEngine::new(64);
    engine.update_history_table(3, 12, 28);
    assert_eq!(9, engine.index_history_table[12 * 64 + 28]);
    engine.update_history_table(4, 12, 28);
    assert_eq!(25, engine.index_history_table[12 * 64 + 28]);
    assert_eq!(0, engine.index_history_table[28 * 64 + 12]);
    for _ in 0..10 {
        engine.update_history_table(255, 1, 2);
    }
    assert_eq!(65025, engine.index_history_table[64 + 2]);
    engine.update_history_table(100, 1, 2);
    assert_eq!(75025, engine.index_history_table[64 + 2]);
}

#[test]
fn endgame_and_passed_pawn_tests() {
    let zob_keys = XorshiftPrng::new().create_prn_table(def::BOARD_SIZE, def::PIECE_CODE_RANGE);
    let bitmask = BitMask::new();
    let start = State::new(FEN_START_POS, &zob_keys, &bitmask);
    assert!(!corvid::search::in_endgame(&start));
    let rooks = State::new("4k3/pppp4/8/8/8/8/PPPP4/R3K3 w - - 0 1", &zob_keys, &bitmask);
    assert!(corvid::search::in_endgame(&rooks));
    let no_pawn = State::new("rnbqkbnr/8/8/8/8/8/PPPPPPPP/RNBQKBNR w - - 0 1", &zob_keys, &bitmask);
    assert!(corvid::search::in_endgame(&no_pawn));
    // A white pawn has just gone to e5; black is to move.
    let passer = State::new("7k/8/8/4P3/8/8/8/4K3 b - - 0 1", &zob_keys, &bitmask);
    assert!(corvid::search::is_passed_pawn(&passer, def::WP, sq("e5")));
    assert!(!corvid::search::is_passed_pawn(&passer, def::WN, sq("e5")));
    let held = State::new("7k/3p4/8/4P3/8/8/8/4K3 b - - 0 1", &zob_keys, &bitmask);
    assert!(!corvid::search::is_passed_pawn(&held, def::WP, sq("e5")));
    let early = State::new("7k/8/8/8/8/4P3/8/4K3 b - - 0 1", &zob_keys, &bitmask);
    assert!(!corvid::search::is_passed_pawn(&early, def::WP, sq("e3")));
}

#[test]
fn stalemate_scores_nothing_and_mate_scores_a_mate() {
    let zob_keys = XorshiftPrng::new().create_prn_table(def::BOARD_SIZE, def::PIECE_CODE_RANGE);
    let bitmask = BitMask::new();
    let mut engine = SearchEngine::new(131072);
    let budget = TimeCapacity { main_time_millis: 2000, extra_time_millis: 0 };
    let mut stale = State::new("1k6/1P6/1K6/8/8/8/8/8 b - - 0 1", &zob_keys, &bitmask);
    assert_eq!(0, engine.search(&mut stale, budget, 3));
    for depth in 1..6 {
        engine.reset();
        assert_eq!(
            0,
            engine.ab_search(&mut stale, false, false, -eval::MATE_VAL, eval::MATE_VAL, depth, 0)
        );
    }
    let mut mated = State::new("7k/5Q2/6K1/8/8/8/8/8 w - - 0 1", &zob_keys, &bitmask);
    mated.do_mov(sq("f7"), sq("g7"), def::MOV_REG, 0);
    assert!(mov_table::is_in_check(&mated, def::PLAYER_B));
    assert!(engine.in_stale_mate(&mut mated));
    for depth in 1..6 {
        engine.reset();
        let score =
            engine.ab_search(&mut mated, true, false, -eval::MATE_VAL, eval::MATE_VAL, depth, 0);
        assert_eq!(-eval::MATE_VAL + 1, score);
        assert!(score < -eval::TERM_VAL);
    }
    assert_eq!(0, engine.search(&mut mated, budget, 3));
}

#[test]
fn a_position_after_an_illegal_move_scores_a_mate_for_the_mover() {
    let zob_keys = XorshiftPrng::new().create_prn_table(def::BOARD_SIZE, def::PIECE_CODE_RANGE);
    let bitmask = BitMask::new();
    let mut engine = SearchEngine::new(64);
    // Black is in check and white is to move.
    let mut state = State::new("4k3/8/8/8/8/8/8/4RK2 w - - 0 1", &zob_keys, &bitmask);
    assert_eq!(eval::MATE_VAL - 3, engine.ab_search(&mut state, false, false, -50, 50, 2, 3));
    assert_eq!(eval::MATE_VAL - 3, engine.q_search(&mut state, -50, 50, 3));
}

#[test]
fn a_stopped_engine_searches_nothing() {
    let zob_keys = XorshiftPrng::new().create_prn_table(def::BOARD_SIZE, def::PIECE_CODE_RANGE);
    let bitmask = BitMask::new();
    let mut engine = SearchEngine::new(64);
    let mut state = State::new(FEN_START_POS, &zob_keys, &bitmask);
    engine.stop();
    assert_eq!(-17, engine.ab_search(&mut state, false, false, -17, 40, 4, 0));
    assert_eq!(-17, engine.q_search(&mut state, -17, 40, 0));
    assert_eq!(0, engine.node_count);
    assert_eq!(LookupResult::NoMatch, engine.get_hash(&state, 0));
}

#[test]
fn search_to_a_depth_completes_no_more_iterations_than_that() {
    let zob_keys = XorshiftPrng::new().create_prn_table(def::BOARD_SIZE, def::PIECE_CODE_RANGE);
    let bitmask = BitMask::new();
    let mut engine = SearchEngine::new(131072);
    let mut state = State::new(FEN_START_POS, &zob_keys, &bitmask);
    let key = state.pos.hash_key;
    let budget = TimeCapacity { main_time_millis: 1000000, extra_time_millis: 0 };
    for depth in 0..5u8 {
        engine.reset();
        let best = engine.search(&mut state, budget, depth);
        assert!(engine.iterations.len() <= depth as usize);
        assert_eq!(key, state.pos.hash_key);
        assert!(state.history.is_empty());
        assert!(mov_table::gen_reg_mov_list(&state).contains(&best));
        for (i, info) in engine.iterations.iter().enumerate() {
            assert_eq!(i + 1, info.depth as usize);
            assert_eq!(best, engine.iterations.last().unwrap().pv[0]);
            assert!(!info.is_mate);
            assert!(info.pv.len() <= 16);
        }
    }
    engine.reset();
    engine.search(&mut state, budget, 4);
    assert_eq!(4, engine.iterations.len());
}

#[test]
fn search_finds_a_mate_in_one_and_stops() {
    let zob_keys = XorshiftPrng::new().create_prn_table(def::BOARD_SIZE, def::PIECE_CODE_RANGE);
    let bitmask = BitMask::new();
    let mut engine = SearchEngine::new(131072);
    let mut state = State::new("7k/5Q2/6K1/8/8/8/8/8 w - - 0 1", &zob_keys, &bitmask);
    let budget = TimeCapacity { main_time_millis: 5000, extra_time_millis: 0 };
    let best = engine.search(&mut state, budget, 64);
    let (from, to, _, _) = util::decode_u32_mov(best);
    state.do_mov(from, to, def::MOV_REG, 0);
    assert!(mov_table::is_in_check(&state, def::PLAYER_B));
    assert!(engine.in_stale_mate(&mut state));
    let last = engine.iterations.last().unwrap();
    assert!(last.is_mate);
    assert_eq!(1, last.mate_in);
    assert_eq!(eval::MATE_VAL - 2, last.score);
}

#[test]
fn the_static_score_of_a_dead_draw_is_nothing() {
    let zob_keys = XorshiftPrng::new().create_prn_table(def::BOARD_SIZE, def::PIECE_CODE_RANGE);
    let bitmask = BitMask::new();
    let draw = State::new("8/2k5/8/8/8/4N3/5K2/8 w - - 0 1", &zob_keys, &bitmask);
    assert_eq!(0, static_eval(&draw));
    let start = State::new(FEN_START_POS, &zob_keys, &bitmask);
    assert_eq!(eval::TEMPO_VAL, static_eval(&start));
}

#[test]
fn perft_counts_nothing_after_an_illegal_move() {
    let zob_keys = XorshiftPrng::new().create_prn_table(def::BOARD_SIZE, def::PIECE_CODE_RANGE);
    let bitmask = BitMask::new();
    let engine = SearchEngine::new(64);
    let mut state = State::new("4k3/8/8/8/8/8/8/4RK2 w - - 0 1", &zob_keys, &bitmask);
    assert_eq!(0, engine.perft(&mut state, 0));
    assert_eq!(0, engine.perft(&mut state, 2));
    let mut start = State::new(FEN_START_POS, &zob_keys, &bitmask);
    assert_eq!(1, engine.perft(&mut start, 0));
    assert_eq!(197281, engine.perft(&mut start, 4));
}

#[test]
fn the_stored_line_is_read_back() {
    let zob_keys = XorshiftPrng::new().create_prn_table(def::BOARD_SIZE, def::PIECE_CODE_RANGE);
    let bitmask = BitMask::new();
    let mut engine = SearchEngine::new(131072);
    let mut state = State::new(FEN_START_POS, &zob_keys, &bitmask);
    let e4 = util::encode_u32_mov(sq("e2"), sq("e4"), def::MOV_CR_ENP, 0);
    let e5 = util::encode_u32_mov(sq("e7"), sq("e5"), def::MOV_CR_ENP, 0);
    engine.set_hash(&state, 2, HASH_TYPE_EXACT, 0, e4);
    state.do_mov(sq("e2"), sq("e4"), def::MOV_CR_ENP, 0);
    engine.set_hash(&state, 1, HASH_TYPE_EXACT, 0, e5);
    state.undo_mov();
    let mut pv = Vec::new();
    engine.retrieve_pv(&mut state, &mut pv, 0);
    assert_eq!(vec![e4, e5], pv);
    let mut short = Vec::new();
    engine.retrieve_pv(&mut state, &mut short, 15);
    assert_eq!(vec![e4], short);
    let mut none = Vec::new();
    engine.retrieve_pv(&mut state, &mut none, 16);
    assert!(none.is_empty());
    assert!(state.history.is_empty());
}

#[test]
fn a_quiet_position_scores_what_it_is_worth() {
    let zob_keys = XorshiftPrng::new().create_prn_table(def::BOARD_SIZE, def::PIECE_CODE_RANGE);
    let bitmask = BitMask::new();
    let mut engine = SearchEngine::new(64);
    let mut start = State::new(FEN_START_POS, &zob_keys, &bitmask);
    assert_eq!(
        eval::TEMPO_VAL,
        engine.q_search(&mut start, -eval::MATE_VAL, eval::MATE_VAL, 0)
    );
    assert_eq!(1, engine.node_count);
    // The evaluation is below the window: alpha stands.
    assert_eq!(50, engine.q_search(&mut start, 50, 90, 0));
    // The evaluation reaches beta.
    assert_eq!(eval::TEMPO_VAL, engine.q_search(&mut start, -90, 5, 0));
    // At depth 0 the search is the quiescence search.
    assert_eq!(
        eval::TEMPO_VAL,
        engine.ab_search(&mut start, false, false, -eval::MATE_VAL, eval::MATE_VAL, 0, 0)
    );
    // A queen up with nothing to take: the material alone is beyond beta.
    let mut ahead = State::new("4k3/8/8/8/8/8/8/3QK3 w - - 0 1", &zob_keys, &bitmask);
    assert_eq!(500, engine.q_search(&mut ahead, -500, 500, 0));
    assert_eq!(static_eval(&ahead), engine.q_search(&mut ahead, -500, 5000, 0));
    // Dead material.
    let mut dead = State::new("8/2k5/8/8/8/4N3/5K2/8 w - - 0 1", &zob_keys, &bitmask);
    assert_eq!(0, engine.q_search(&mut dead, -500, 500, 0));
}

#[test]
fn the_tables_settle_a_node_beyond_the_first_ply() {
    let zob_keys = XorshiftPrng::new().create_prn_table(def::BOARD_SIZE, def::PIECE_CODE_RANGE);
    let bitmask = BitMask::new();
    let mut engine = SearchEngine::new(64);
    let mut state = State::new(FEN_START_POS, &zob_keys, &bitmask);
    let e4 = util::encode_u32_mov(sq("e2"), sq("e4"), def::MOV_CR_ENP, 0);
    engine.set_hash(&state, 5, HASH_TYPE_EXACT, 42, e4);
    assert_eq!(42, engine.ab_search(&mut state, false, false, -100, 100, 3, 2));
    assert_eq!(42, engine.ab_search(&mut state, false, false, -100, 100, 5, 9));
    engine.reset();
    engine.set_hash(&state, 5, HASH_TYPE_BETA, 150, e4);
    assert_eq!(100, engine.ab_search(&mut state, false, false, -100, 100, 3, 2));
    engine.reset();
    engine.set_hash(&state, 5, HASH_TYPE_ALPHA, -150, e4);
    assert_eq!(-100, engine.ab_search(&mut state, false, false, -100, 100, 3, 2));
}

#[test]
fn a_repeated_position_scores_nothing_after_the_root() {
    let zob_keys = XorshiftPrng::new().create_prn_table(def::BOARD_SIZE, def::PIECE_CODE_RANGE);
    let bitmask = BitMask::new();
    let mut engine = SearchEngine::new(64);
    let mut state = State::new("4k3/8/8/8/8/8/8/R3K3 w - - 0 1", &zob_keys, &bitmask);
    state.do_mov(sq("a1"), sq("a2"), def::MOV_REG, 0);
    state.do_mov(sq("e8"), sq("d8"), def::MOV_REG, 0);
    state.do_mov(sq("a2"), sq("a1"), def::MOV_REG, 0);
    state.do_mov(sq("d8"), sq("e8"), def::MOV_REG, 0);
    assert_eq!(0, engine.ab_search(&mut state, false, false, -5000, 5000, 3, 1));
    assert_eq!(0, engine.ab_search(&mut state, false, false, 200, 5000, 3, 1));
}

#[test]
fn a_window_beyond_the_nearest_mate_is_cut_short() {
    let zob_keys = XorshiftPrng::new().create_prn_table(def::BOARD_SIZE, def::PIECE_CODE_RANGE);
    let bitmask = BitMask::new();
    let mut engine = SearchEngine::new(64);
    let mut state = State::new(FEN_START_POS, &zob_keys, &bitmask);
    assert_eq!(
        eval::MATE_VAL - 4,
        engine.ab_search(&mut state, false, false, eval::MATE_VAL - 2, eval::MATE_VAL, 3, 4)
    );
    assert_eq!(
        -eval::MATE_VAL + 4,
        engine.ab_search(&mut state, false, false, -eval::MATE_VAL, -eval::MATE_VAL + 3, 3, 4)
    );
}

#[test]
fn stalemate_and_mate_away_from_the_root() {
    let zob_keys = XorshiftPrng::new().create_prn_table(def::BOARD_SIZE, def::PIECE_CODE_RANGE);
    let bitmask = BitMask::new();
    let mut engine = SearchEngine::new(131072);
    let mut stale = State::new("1k6/1P6/1K6/8/8/8/8/8 b - - 0 1", &zob_keys, &bitmask);
    assert_eq!(
        0,
        engine.ab_search(&mut stale, false, false, -eval::MATE_VAL, eval::MATE_VAL, 2, 3)
    );
    engine.reset();
    let mut mated = State::new("7k/6Q1/6K1/8/8/8/8/8 b - - 0 1", &zob_keys, &bitmask);
    let score = engine.ab_search(&mut mated, true, false, -eval::MATE_VAL, eval::MATE_VAL, 2, 3);
    assert_eq!(-eval::MATE_VAL + 3 + 1, score);
    assert!(score < -eval::TERM_VAL);
}

#[test]
fn a_lead_in_material_gives_a_shallow_node_up() {
    let zob_keys = XorshiftPrng::new().create_prn_table(def::BOARD_SIZE, def::PIECE_CODE_RANGE);
    let bitmask = BitMask::new();
    let mut engine = SearchEngine::new(64);
    // Far ahead, with pawns and pieces enough on both sides to be no endgame.
    let mut ahead = State::new(
        "r1b1kb1r/pppppppp/8/8/8/8/PPPPPPPP/RNBQKBNR w KQkq - 0 1",
        &zob_keys,
        &bitmask,
    );
    assert!(!corvid::search::in_endgame(&ahead));
    assert_eq!(100, engine.ab_search(&mut ahead, false, false, -100, 100, 2, 1));
    assert_eq!(1, engine.node_count);
}

#[test]
fn an_unhurried_search_reports_the_same_every_time() {
    let zob_keys = XorshiftPrng::new().create_prn_table(def::BOARD_SIZE, def::PIECE_CODE_RANGE);
    let bitmask = BitMask::new();
    let budget = TimeCapacity { main_time_millis: 1000000, extra_time_millis: 0 };
    let fen = "r1bqk2r/pppp1ppp/2n2n2/2b1p3/2B1P3/5N2/PPPP1PPP/RNBQK2R w KQkq - 0 1";
    let mut first = SearchEngine::new(131072);
    let mut state = State::new(fen, &zob_keys, &bitmask);
    let best = first.search(&mut state, budget, 5);
    let mut second = SearchEngine::new(131072);
    let mut again = State::new(fen, &zob_keys, &bitmask);
    assert_eq!(best, second.search(&mut again, budget, 5));
    assert_eq!(5, first.iterations.len());
    assert_eq!(first.iterations.len(), second.iterations.len());
    for (a, b) in first.iterations.iter().zip(second.iterations.iter()) {
        assert_eq!(a.score, b.score);
        assert_eq!(a.depth, b.depth);
        assert_eq!(a.sel_depth, b.sel_depth);
        assert_eq!(a.nodes, b.nodes);
        assert_eq!(a.pv, b.pv);
        assert_eq!(a.is_mate, b.is_mate);
    }
    // A shallower search reports what the deeper one reported up to its depth.
    let mut third = SearchEngine::new(131072);
    third.search(&mut again, budget, 3);
    assert_eq!(3, third.iterations.len());
    for (a, b) in first.iterations.iter().zip(third.iterations.iter()) {
        assert_eq!(a.score, b.score);
        assert_eq!(a.nodes, b.nodes);
        assert_eq!(a.pv, b.pv);
    }
}

#[test]
fn the_phase_is_capped_at_the_full_phase() {
    let zob_keys = XorshiftPrng::new().create_prn_table(def::BOARD_SIZE, def::PIECE_CODE_RANGE);
    let bitmask = BitMask::new();
    let third_queen = State::new(
        "rnbqkbnr/pppppppp/8/8/8/4Q3/PPPPPPPP/RNBQKBNR w KQkq - 0 1",
        &zob_keys,
        &bitmask,
    );
    assert_eq!(eval::TOTAL_PHASE, eval::get_phase(&third_queen));
    let bare = State::new("4k3/pppp4/8/8/8/8/PPPP4/4K3 w - - 0 1", &zob_keys, &bitmask);
    assert_eq!(0, eval::get_phase(&bare));
    let one_rook = State::new("4k3/8/8/8/8/8/8/R3K3 w - - 0 1", &zob_keys, &bitmask);
    assert_eq!(8, eval::get_phase(&one_rook));
    // Beyond the full phase the endgame part counts for nothing, not for less.
    let mut w = eval::FeatureMap::empty();
    let b = eval::FeatureMap::empty();
    w.queen_count = 7;
    w.passed_pawn_count = 1;
    w.king_exposed = 1;
    assert_eq!(-50, eval::positional_score(&w, &b));
}

#[test]
fn without_a_race_pawn_endings_are_zero_sum_too() {
    let zob_keys = XorshiftPrng::new().create_prn_table(def::BOARD_SIZE, def::PIECE_CODE_RANGE);
    let bitmask = BitMask::new();
    for board in ["4k3/8/8/8/8/8/8/4K3", "4k3/4p3/8/8/8/8/4P3/4K3", "8/8/2K1kp2/8/3P4/8/8/8"] {
        let white = State::new(&format!("{} w - - 0 1", board), &zob_keys, &bitmask);
        let black = State::new(&format!("{} b - - 0 1", board), &zob_keys, &bitmask);
        assert_eq!(
            evaluate(&white) - eval::TEMPO_VAL,
            -(evaluate(&black) - eval::TEMPO_VAL)
        );
    }
}

#[test]
fn square_roots_of_large_numbers() {
    assert_eq!(31, isqrt(1023));
    assert_eq!(32, isqrt(1024));
    assert_eq!(65535, isqrt(u32::MAX));
    assert_eq!(46340, isqrt(2147483647));
}

#[test]
fn a_back_rank_mate_scores_a_mate_at_the_root() {
    let zob_keys = XorshiftPrng::new().create_prn_table(def::BOARD_SIZE, def::PIECE_CODE_RANGE);
    let bitmask = BitMask::new();
    let mut engine = SearchEngine::new(131072);
    assert_eq!(u128::MAX, engine.max_time_millis);
    let mut mated = State::new("R5k1/5ppp/8/8/8/8/8/4K3 b - - 0 1", &zob_keys, &bitmask);
    assert_eq!(
        -19999,
        engine.ab_search(&mut mated, true, false, -20000, 20000, 1, 0)
    );
    assert!(!engine.abort);
    // A lower bound above the mate stands.
    engine.reset();
    assert_eq!(-50, engine.ab_search(&mut mated, true, false, -50, 50, 1, 0));
    let mut stale = State::new("1k6/1P6/1K6/8/8/8/8/8 b - - 0 1", &zob_keys, &bitmask);
    engine.reset();
    assert_eq!(0, engine.ab_search(&mut stale, false, false, -20000, 20000, 1, 0));
    // With a stored move that is not legal either the node is still a stalemate.
    engine.reset();
    engine.set_hash(&stale, 0, HASH_TYPE_EXACT, 0, util::encode_u32_mov(sq("b8"), sq("a8"), def::MOV_REG, 0));
    assert_eq!(0, engine.ab_search(&mut stale, false, false, -20000, 20000, 2, 0));
}

#[test]
fn killer_moves_come_behind_captures_and_before_other_quiet_moves() {
    let zob_keys = XorshiftPrng::new().create_prn_table(def::BOARD_SIZE, def::PIECE_CODE_RANGE);
    let bitmask = BitMask::new();
    let mut engine = SearchEngine::new(64);
    // The queen can take a pawn that a pawn guards.
    let mut state = State::new("4k3/8/4p3/3p4/8/8/3Q4/4K3 w - - 0 1", &zob_keys, &bitmask);
    let killer = util::encode_u32_mov(sq("e1"), sq("f1"), def::MOV_REG, 0);
    let second = util::encode_u32_mov(sq("e1"), sq("f2"), def::MOV_REG, 0);
    let quiet = util::encode_u32_mov(sq("d2"), sq("d3"), def::MOV_REG, 0);
    let capture = util::encode_u32_mov(sq("d2"), sq("d5"), def::MOV_REG, 0);
    engine.update_killer_table(30, 4, second);
    engine.update_killer_table(50, 4, killer);
    engine.update_history_table(9, sq("d2"), sq("d3"));
    let movs = mov_table::gen_reg_mov_list(&state);
    let ordered = engine.order_movs(&mut state, &movs, 0, 4);
    assert_eq!(movs.len(), ordered.len());
    assert_eq!((200000 + 100 - 1000, capture), ordered[0]);
    assert_eq!((150001, killer), ordered[1]);
    assert_eq!((149000, second), ordered[2]);
    assert_eq!((81, quiet), ordered[3]);
    assert_eq!(0, ordered[4].0);
    let without = engine.order_movs(&mut state, &movs, capture, 4);
    assert_eq!(movs.len() - 1, without.len());
    assert_eq!((150001, killer), without[0]);
}

#[test]
fn the_quiescence_search_follows_no_losing_capture() {
    let zob_keys = XorshiftPrng::new().create_prn_table(def::BOARD_SIZE, def::PIECE_CODE_RANGE);
    let bitmask = BitMask::new();
    let mut state = State::new("4k3/8/4p3/3p4/4P3/8/3Q4/4K3 w - - 0 1", &zob_keys, &bitmask);
    let caps = mov_table::gen_capture_list(&state);
    assert_eq!(2, caps.len());
    let ordered = corvid::search::order_captures(&mut state, &caps, -1000);
    assert_eq!(
        vec![(100, util::encode_u32_mov(sq("e4"), sq("d5"), def::MOV_REG, 0))],
        ordered
    );
    assert!(corvid::search::order_captures(&mut state, &caps, 101).is_empty());
}

#[test]
fn with_no_limit_of_time_every_depth_is_reported() {
    let zob_keys = XorshiftPrng::new().create_prn_table(def::BOARD_SIZE, def::PIECE_CODE_RANGE);
    let bitmask = BitMask::new();
    let mut engine = SearchEngine::new(131072);
    let mut state = State::new(FEN_START_POS, &zob_keys, &bitmask);
    let budget = TimeCapacity { main_time_millis: u128::MAX, extra_time_millis: u128::MAX };
    engine.search(&mut state, budget, 4);
    assert!(!engine.abort);
    assert_eq!(4, engine.iterations.len());
    assert_eq!(65536, engine.depth_preferred_hash_table.size());
    assert_eq!(65536, engine.always_replace_hash_table.size());
    for info in &engine.iterations {
        assert!(info.nps <= info.nodes as u128);
    }
}

#[test]
fn a_search_taken_step_by_step_is_the_same_search() {
    let zob_keys = XorshiftPrng::new().create_prn_table(def::BOARD_SIZE, def::PIECE_CODE_RANGE);
    let bitmask = BitMask::new();
    let fen = "r1bqkbnr/pppp1ppp/2n5/4p3/2B1P3/5Q2/PPPP1PPP/RNB1K1NR w KQkq - 0 1";
    let budget = TimeCapacity { main_time_millis: u128::MAX, extra_time_millis: 0 };

    let mut whole = SearchEngine::new(131072);
    let mut state = State::new(fen, &zob_keys, &bitmask);
    let best = whole.search(&mut state, budget, 5);

    let mut stepped = SearchEngine::new(131072);
    let mut progress = stepped.start_search(&mut state, budget, 5);
    assert!(!progress.done);
    assert_eq!(1, progress.depth);
    assert_eq!(0, stepped.iterations.len());
    assert!(progress.best_mov != 0);
    let mut steps = 0;
    while !progress.done {
        let written = stepped.iterations.len();
        let depth = progress.depth;
        stepped.search_step(&mut state, &mut progress);
        assert!(stepped.iterations.len() <= written + 1);
        assert!(progress.done || progress.depth > depth || progress.attempts > 0);
        steps += 1;
        assert!(steps <= 4 * 5 + 1);
    }
    assert_eq!(best, progress.best_mov);
    assert_eq!(util::encode_u32_mov(sq("f3"), sq("f7"), def::MOV_REG, 0), best);
    assert_eq!(whole.iterations.len(), stepped.iterations.len());
    for (a, b) in whole.iterations.iter().zip(stepped.iterations.iter()) {
        assert_eq!((a.depth, a.score, a.is_mate, a.mate_in, a.nodes, a.sel_depth), (b.depth, b.score, b.is_mate, b.mate_in, b.nodes, b.sel_depth));
        assert_eq!(a.pv, b.pv);
    }
    assert!(stepped.iterations.last().unwrap().is_mate);
    assert_eq!(1, stepped.iterations.last().unwrap().mate_in);
}

#[test]
fn the_clock_stops_no_search_of_few_nodes() {
    let zob_keys = XorshiftPrng::new().create_prn_table(def::BOARD_SIZE, def::PIECE_CODE_RANGE);
    let bitmask = BitMask::new();
    let mut engine = SearchEngine::new(131072);
    let mut state = State::new(FEN_START_POS, &zob_keys, &bitmask);
    let budget = TimeCapacity { main_time_millis: 0, extra_time_millis: 0 };
    let best = engine.search(&mut state, budget, 64);
    // The first depth takes fewer nodes than lie between two readings of
    // the clock, so it is completed though no time is given.
    assert!(engine.iterations.len() >= 1);
    assert_eq!(1, engine.iterations[0].depth);
    assert!(engine.iterations[0].nodes < 4096);
    assert_eq!(best, engine.iterations.last().unwrap().pv[0]);
    assert!(!engine.abort || engine.node_count >= 4096);
    assert!(engine.iterations.len() < 64);
}

#[test]
fn the_king_goes_for_the_opposition_in_a_pawn_ending() {
    let zob_keys = XorshiftPrng::new().create_prn_table(def::BOARD_SIZE, def::PIECE_CODE_RANGE);
    let bitmask = BitMask::new();
    let mut state = State::new("8/8/8/5p1p/3k1P1P/5K2/8/8 b - - 1 59", &zob_keys, &bitmask);
    let mut engine = SearchEngine::new(def::DEFAULT_HASH_SIZE_UNIT);
    let budget = TimeCapacity { main_time_millis: 3000, extra_time_millis: 1000 };
    let best = engine.search(&mut state, budget, 64);
    assert_eq!(util::encode_u32_mov(sq("d4"), sq("d3"), def::MOV_REG, 0), best);
}

#[test]
fn the_king_leaves_the_rank_of_its_queen() {
    let zob_keys = XorshiftPrng::new().create_prn_table(def::BOARD_SIZE, def::PIECE_CODE_RANGE);
    let bitmask = BitMask::new();
    let mut state = State::new("1q1k4/2Rr4/8/2Q3K1/8/8/8/8 w - - 0 1", &zob_keys, &bitmask);
    let mut engine = SearchEngine::new(131072);
    let budget = TimeCapacity { main_time_millis: 3000, extra_time_millis: 1000 };
    let best = engine.search(&mut state, budget, 64);
    assert_eq!(util::encode_u32_mov(sq("g5"), sq("h6"), def::MOV_REG, 0), best);
}
