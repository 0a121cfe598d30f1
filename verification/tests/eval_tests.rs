use corvid::bitboard::BitMask;
use corvid::def;
use corvid::prng::XorshiftPrng;
use corvid::state::State;
use corvid::util;
use corvid::eval::{eval_materials, extract_features};

#[test]
fn test_extract_features_1() {
    let zob_keys = XorshiftPrng::new().create_prn_table(def::BOARD_SIZE, def::PIECE_CODE_RANGE);
    let bitmask = BitMask::new();

    let state = State::new("r1b2rk1/pp2ppbp/1qnp2p1/2nP4/P2QPP2/N1P2N2/2B3PP/1RB2RK1 b - - 0 1", &zob_keys, &bitmask);
    let (w_features, b_features) = extract_features(&state);

    assert_eq!(5, w_features.defended_piece_count);
    assert_eq!(1, w_features.threatened_piece_count);
    assert_eq!(3, b_features.defended_piece_count);
    assert_eq!(2, b_features.threatened_piece_count);
}

#[test]
fn test_extract_features_2() {
    let zob_keys = XorshiftPrng::new().create_prn_table(def::BOARD_SIZE, def::PIECE_CODE_RANGE);
    let bitmask = BitMask::new();

    let state = State::new("1q4kn/3r1p1p/1pbN1Pp1/r1ppP1P1/P4R2/2B1P3/2Q4P/3R2K1 b - - 2 29", &zob_keys, &bitmask);
    let (w_features, b_features) = extract_features(&state);

    assert_eq!(9, w_features.mobility);
    assert_eq!(4, b_features.mobility);
}

#[test]
fn test_extract_features_3() {
    let zob_keys = XorshiftPrng::new().create_prn_table(def::BOARD_SIZE, def::PIECE_CODE_RANGE);
    let bitmask = BitMask::new();

    let state = State::new("1kr3r1/pp3p1p/P1pn4/2Bpb3/4p2q/3PP3/PPP1NPPP/R2Q1RK1 b - - 0 1", &zob_keys, &bitmask);
    let (w_features, b_features) = extract_features(&state);

    assert_eq!(1, w_features.king_exposed);
    assert_eq!(3, w_features.king_threat_count);

    assert_eq!(0, b_features.king_exposed);
    assert_eq!(1, b_features.king_threat_count);
}

#[test]
fn test_extract_features_4() {
    let zob_keys = XorshiftPrng::new().create_prn_table(def::BOARD_SIZE, def::PIECE_CODE_RANGE);
    let bitmask = BitMask::new();

    let state = State::new("8/p1p2pp1/5pp1/8/7P/5PPP/1P3P2/8 w - - 0 1", &zob_keys, &bitmask);
    let (w_features, b_features) = extract_features(&state);

    assert_eq!(4, w_features.dup_pawn_count);
    assert_eq!(1, w_features.isolate_pawn_count);
    assert_eq!(1, w_features.behind_pawn_count);

    assert_eq!(4, b_features.dup_pawn_count);
    assert_eq!(2, b_features.isolate_pawn_count);
    assert_eq!(0, b_features.behind_pawn_count);
}

#[test]
fn test_extract_features_5() {
    let zob_keys = XorshiftPrng::new().create_prn_table(def::BOARD_SIZE, def::PIECE_CODE_RANGE);
    let bitmask = BitMask::new();

    let state = State::new("8/p7/1p6/2p5/4P3/4P3/4P3/8 w - - 0 1", &zob_keys, &bitmask);
    let (w_features, b_features) = extract_features(&state);

    assert_eq!(3, w_features.dup_pawn_count);
    assert_eq!(3, w_features.isolate_pawn_count);

    assert_eq!(0, b_features.dup_pawn_count);
    assert_eq!(0, b_features.isolate_pawn_count);
}

#[test]
fn test_extract_features_6() {
    let zob_keys = XorshiftPrng::new().create_prn_table(def::BOARD_SIZE, def::PIECE_CODE_RANGE);
    let bitmask = BitMask::new();

    let state = State::new("rnbqkbnr/3p4/6P1/3P4/1pp5/1N6/3P4/R1BQKBNR w KQkq - 0 1", &zob_keys, &bitmask);
    let (w_features, b_features) = extract_features(&state);

    assert_eq!(1, w_features.passed_pawn_count);
    assert_eq!(5, w_features.passed_pawn_rank_count);

    assert_eq!(1, b_features.passed_pawn_count);
    assert_eq!(5, b_features.passed_pawn_rank_count);
}

#[test]
fn test_extract_features_7() {
    let zob_keys = XorshiftPrng::new().create_prn_table(def::BOARD_SIZE, def::PIECE_CODE_RANGE);
    let bitmask = BitMask::new();

    let state = State::new("8/8/2K1kp2/8/3P4/8/8/8 w - - 0 1", &zob_keys, &bitmask);
    let (w_features, b_features) = extract_features(&state);

    assert_eq!(1, w_features.passed_pawn_count);
    assert_eq!(1, w_features.controlled_passed_pawn_count);

    assert_eq!(1, b_features.passed_pawn_count);
    assert_eq!(0, b_features.controlled_passed_pawn_count);
}

#[test]
fn test_extract_features_8() {
    let zob_keys = XorshiftPrng::new().create_prn_table(def::BOARD_SIZE, def::PIECE_CODE_RANGE);
    let bitmask = BitMask::new();

    let state = State::new("rnbqkbnr/ppp3p1/3p1p1p/4p3/2P1P3/P2P4/1P3PPP/RNBQKBNR w KQkq - 0 1", &zob_keys, &bitmask);
    let (w_features, b_features) = extract_features(&state);

    assert_eq!(2, w_features.behind_pawn_count);
    assert_eq!(1, b_features.behind_pawn_count);
}

#[test]
fn test_extract_features_9() {
    let zob_keys = XorshiftPrng::new().create_prn_table(def::BOARD_SIZE, def::PIECE_CODE_RANGE);
    let bitmask = BitMask::new();

    let state = State::new("1krq1bnr/p1p1ppp1/2P5/8/1P3P2/6pP/2PPP1P1/RNBQR1K1 w Qk - 0 1", &zob_keys, &bitmask);
    let (w_features, b_features) = extract_features(&state);

    assert_eq!(0, w_features.king_exposed);
    assert_eq!(2, w_features.king_pawn_threat_count);

    assert_eq!(2, b_features.king_exposed);
    assert_eq!(1, b_features.king_pawn_threat_count);
}

#[test]
fn test_extract_features_x() {
    let zob_keys = XorshiftPrng::new().create_prn_table(def::BOARD_SIZE, def::PIECE_CODE_RANGE);
    let bitmask = BitMask::new();

    let mut state = State::new("r1bqk2r/pppp1ppp/2n2n2/2b1p3/2B1P3/5N2/PPPP1PPP/RNBQK2R w KQkq - 0 1", &zob_keys, &bitmask);
    let (w_features, b_features) = extract_features(&state);

    assert_eq!(0, w_features.king_lost_cas_rights);
    assert_eq!(0, b_features.king_lost_cas_rights);

    state.do_mov(util::map_sqr_notation_to_index("e1"), util::map_sqr_notation_to_index("e2"), def::MOV_REG, 0);
    let (w_features, b_features) = extract_features(&state);

    assert_eq!(1, w_features.king_lost_cas_rights);
    assert_eq!(0, b_features.king_lost_cas_rights);

    state.do_mov(util::map_sqr_notation_to_index("h8"), util::map_sqr_notation_to_index("f8"), def::MOV_REG, 0);
    let (w_features, b_features) = extract_features(&state);

    assert_eq!(1, w_features.king_lost_cas_rights);
    assert_eq!(0, b_features.king_lost_cas_rights);

    state.do_mov(util::map_sqr_notation_to_index("e2"), util::map_sqr_notation_to_index("e1"), def::MOV_REG, 0);
    state.do_mov(util::map_sqr_notation_to_index("a8"), util::map_sqr_notation_to_index("b8"), def::MOV_REG, 0);
    let (w_features, b_features) = extract_features(&state);

    assert_eq!(1, w_features.king_lost_cas_rights);
    assert_eq!(1, b_features.king_lost_cas_rights);
}

#[test]
fn test_extract_features_x1() {
    let zob_keys = XorshiftPrng::new().create_prn_table(def::BOARD_SIZE, def::PIECE_CODE_RANGE);
    let bitmask = BitMask::new();

    let state = State::new("1nbqkbrr/p1ppppp1/1p6/8/8/8/RPPPPPPP/RNBQKBN1 w Qk - 0 1", &zob_keys, &bitmask);
    let (w_features, b_features) = extract_features(&state);

    assert_eq!(1, w_features.semi_open_rook_count);
    assert_eq!(1, b_features.semi_open_rook_count);
}

#[test]
fn test_extract_features_pawn_promo() {
    let zob_keys = XorshiftPrng::new().create_prn_table(def::BOARD_SIZE, def::PIECE_CODE_RANGE);
    let bitmask = BitMask::new();

    let state = State::new("8/6k1/8/6p1/1P6/8/1K6/8 w - - 0 1", &zob_keys, &bitmask);
    let (w_features, b_features) = extract_features(&state);

    assert_eq!(1, w_features.passed_pawn_count);
    assert_eq!(1, w_features.unstoppable_passed_pawn_count);
    assert_eq!(1, b_features.passed_pawn_count);
    assert_eq!(0, b_features.unstoppable_passed_pawn_count);

    let state = State::new("8/6k1/8/6p1/1P6/8/1K6/8 b - - 0 1", &zob_keys, &bitmask);
    let (w_features, b_features) = extract_features(&state);

    assert_eq!(1, w_features.passed_pawn_count);
    assert_eq!(0, w_features.unstoppable_passed_pawn_count);
    assert_eq!(1, b_features.passed_pawn_count);
    assert_eq!(1, b_features.unstoppable_passed_pawn_count);

    let state = State::new("8/3k4/8/8/8/8/3K1p2/8 b - - 0 1", &zob_keys, &bitmask);
    let (_w_features, b_features) = extract_features(&state);

    assert_eq!(1, b_features.passed_pawn_count);
    assert_eq!(1, b_features.unstoppable_passed_pawn_count);

    let state = State::new("8/1P1k4/8/8/8/2K5/8/8 b - - 0 1", &zob_keys, &bitmask);
    let (w_features, _b_features) = extract_features(&state);

    assert_eq!(1, w_features.passed_pawn_count);
    assert_eq!(0, w_features.unstoppable_passed_pawn_count);
}

#[test]
fn test_draw_endgame_1() {
    let zob_keys = XorshiftPrng::new().create_prn_table(def::BOARD_SIZE, def::PIECE_CODE_RANGE);
    let bitmask = BitMask::new();

    let state = State::new("8/2k5/8/8/8/4N3/5K2/8 w - - 0 1", &zob_keys, &bitmask);
    let (score, is_draw) = eval_materials(&state);
    assert_eq!(0, score);
    assert!(is_draw);
}

#[test]
fn test_draw_endgame_2() {
    let zob_keys = XorshiftPrng::new().create_prn_table(def::BOARD_SIZE, def::PIECE_CODE_RANGE);
    let bitmask = BitMask::new();

    let state = State::new("8/2k5/8/4N3/8/4N3/5K2/8 w - - 0 1", &zob_keys, &bitmask);
    let (score, is_draw) = eval_materials(&state);
    assert_eq!(0, score);
    assert!(is_draw);
}

#[test]
fn test_draw_endgame_3() {
    let zob_keys = XorshiftPrng::new().create_prn_table(def::BOARD_SIZE, def::PIECE_CODE_RANGE);
    let bitmask = BitMask::new();

    let state = State::new("4b3/2k5/8/5N2/4K3/8/8/8 b - - 0 1", &zob_keys, &bitmask);
    let (score, is_draw) = eval_materials(&state);
    assert_eq!(0, score);
    assert!(is_draw);
}

