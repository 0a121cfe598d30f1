use corvid::bitboard::BitMask;
use corvid::def;
use corvid::prng::XorshiftPrng;
use corvid::state::State;
use corvid::util;
use corvid::search::{SearchEngine, TimeCapacity};

#[test]
fn test_in_stale_mate_1() {
    let zob_keys = XorshiftPrng::new().create_prn_table(def::BOARD_SIZE, def::PIECE_CODE_RANGE);
    let bitmask = BitMask::new();
    let mut state = State::new("1k6/1P6/1K6/8/8/8/8/8 b - - 0 1", &zob_keys, &bitmask);
    let search_engine = SearchEngine::new(131072);

    assert!(search_engine.in_stale_mate(&mut state));
}

#[test]
fn test_in_stale_mate_2() {
    let zob_keys = XorshiftPrng::new().create_prn_table(def::BOARD_SIZE, def::PIECE_CODE_RANGE);
    let bitmask = BitMask::new();
    let mut state = State::new("8/8/8/2r5/8/k7/1p6/1K6 w - - 0 1", &zob_keys, &bitmask);
    let search_engine = SearchEngine::new(131072);

    assert!(search_engine.in_stale_mate(&mut state));
}

#[test]
fn test_search_1() {
    let zob_keys = XorshiftPrng::new().create_prn_table(def::BOARD_SIZE, def::PIECE_CODE_RANGE);
    let bitmask = BitMask::new();
    let mut state = State::new("2k2r2/pp2br2/1np1p2q/2NpP2p/2PP2p1/1P1N4/P3Q1PP/3R1R1K b - - 8 27", &zob_keys, &bitmask);
    let mut search_engine = SearchEngine::new(131072);

    let time_capacity = TimeCapacity {
        main_time_millis: 5500,
        extra_time_millis: 5500,
    };

    let best_mov = search_engine.search(&mut state, time_capacity, 64);

    let (from, to, _, _) = util::decode_u32_mov(best_mov);
    assert_eq!(from, util::map_sqr_notation_to_index("h6"));
    assert_eq!(to, util::map_sqr_notation_to_index("d2"));
}

#[test]
fn test_search_2() {
    let zob_keys = XorshiftPrng::new().create_prn_table(def::BOARD_SIZE, def::PIECE_CODE_RANGE);
    let bitmask = BitMask::new();
    let mut state = State::new("r3r1k1/ppqb1ppp/8/4p1NQ/8/2P5/PP3PPP/R3R1K1 b - - 0 1", &zob_keys, &bitmask);
    let mut search_engine = SearchEngine::new(131072);

    let time_capacity = TimeCapacity {
        main_time_millis: 5500,
        extra_time_millis: 5500,
    };

    let best_mov = search_engine.search(&mut state, time_capacity, 64);

    let (from, to, _, _) = util::decode_u32_mov(best_mov);
    assert_eq!(from, util::map_sqr_notation_to_index("d7"));
    assert_eq!(to, util::map_sqr_notation_to_index("f5"));
}

#[test]
fn test_search_3() {
    let zob_keys = XorshiftPrng::new().create_prn_table(def::BOARD_SIZE, def::PIECE_CODE_RANGE);
    let bitmask = BitMask::new();
    let mut state = State::new("8/1k3ppp/8/5PPP/8/8/1K6/8 w - - 9 83", &zob_keys, &bitmask);
    let mut search_engine = SearchEngine::new(131072);

    let time_capacity = TimeCapacity {
        main_time_millis: 5500,
        extra_time_millis: 5500,
    };

    let best_mov = search_engine.search(&mut state, time_capacity, 64);

    let (from, to, _, _) = util::decode_u32_mov(best_mov);
    assert_eq!(from, util::map_sqr_notation_to_index("g5"));
    assert_eq!(to, util::map_sqr_notation_to_index("g6"));
}

#[test]
fn test_search_4() {
    let zob_keys = XorshiftPrng::new().create_prn_table(def::BOARD_SIZE, def::PIECE_CODE_RANGE);
    let bitmask = BitMask::new();
    let mut state = State::new("8/8/1r2b3/8/8/2p5/2kR4/K7 b - - 3 56", &zob_keys, &bitmask);
    let mut search_engine = SearchEngine::new(131072);

    let time_capacity = TimeCapacity {
        main_time_millis: 5500,
        extra_time_millis: 5500,
    };

    let best_mov = search_engine.search(&mut state, time_capacity, 64);

    let (from, to, _, _) = util::decode_u32_mov(best_mov);
    assert_eq!(from, util::map_sqr_notation_to_index("c2"));
    assert_eq!(to, util::map_sqr_notation_to_index("b3"));
}

#[test]
fn test_search_5() {
    let zob_keys = XorshiftPrng::new().create_prn_table(def::BOARD_SIZE, def::PIECE_CODE_RANGE);
    let bitmask = BitMask::new();
    let mut state = State::new("4r1k1/pp1Q1ppp/3B4/q2p4/5P1P/P3PbPK/1P1r4/2R5 b - - 3 5", &zob_keys, &bitmask);
    let mut search_engine = SearchEngine::new(131072);

    let time_capacity = TimeCapacity {
        main_time_millis: 5500,
        extra_time_millis: 5500,
    };

    let best_mov = search_engine.search(&mut state, time_capacity, 64);

    let (from, to, _, _) = util::decode_u32_mov(best_mov);
    assert_eq!(from, util::map_sqr_notation_to_index("d2"));
    assert_eq!(to, util::map_sqr_notation_to_index("h2"));
}

#[test]
fn test_search_6() {
    let zob_keys = XorshiftPrng::new().create_prn_table(def::BOARD_SIZE, def::PIECE_CODE_RANGE);
    let bitmask = BitMask::new();
    let mut state = State::new("r5rk/2p1Nppp/3p3P/pp2p1P1/4P3/2qnPQK1/8/R6R w - - 1 0", &zob_keys, &bitmask);
    let mut search_engine = SearchEngine::new(131072);

    let time_capacity = TimeCapacity {
        main_time_millis: 5500,
        extra_time_millis: 5500,
    };

    let best_mov = search_engine.search(&mut state, time_capacity, 64);

    let (from, to, _, _) = util::decode_u32_mov(best_mov);
    assert_eq!(from, util::map_sqr_notation_to_index("h6"));
    assert_eq!(to, util::map_sqr_notation_to_index("g7"));
}

#[test]
fn test_search_7() {
    let zob_keys = XorshiftPrng::new().create_prn_table(def::BOARD_SIZE, def::PIECE_CODE_RANGE);
    let bitmask = BitMask::new();
    let mut state = State::new("3r2k1/ppq2pp1/4p2p/3n3P/3N2P1/2P5/PP2QP2/K2R4 b - - 0 1", &zob_keys, &bitmask);
    let mut search_engine = SearchEngine::new(131072);

    let time_capacity = TimeCapacity {
        main_time_millis: 5500,
        extra_time_millis: 5500,
    };

    let best_mov = search_engine.search(&mut state, time_capacity, 64);

    let (from, to, _, _) = util::decode_u32_mov(best_mov);
    assert_eq!(from, util::map_sqr_notation_to_index("d5"));
    assert_eq!(to, util::map_sqr_notation_to_index("c3"));
}

#[test]
fn test_search_8() {
    let zob_keys = XorshiftPrng::new().create_prn_table(def::BOARD_SIZE, def::PIECE_CODE_RANGE);
    let bitmask = BitMask::new();
    let mut state = State::new("1r2k1r1/pbppnp1p/1b3P2/8/Q7/B1PB1q2/P4PPP/3R2K1 w - - 1 0", &zob_keys, &bitmask);
    let mut search_engine = SearchEngine::new(131072);

    let time_capacity = TimeCapacity {
        main_time_millis: 500,
        extra_time_millis: 500,
    };

    let best_mov = search_engine.search(&mut state, time_capacity, 64);

    let (from, to, _, _) = util::decode_u32_mov(best_mov);
    assert_eq!(from, util::map_sqr_notation_to_index("a4"));
    assert_eq!(to, util::map_sqr_notation_to_index("d7"));
}

#[test]
fn test_search_x() {
    let zob_keys = XorshiftPrng::new().create_prn_table(def::BOARD_SIZE, def::PIECE_CODE_RANGE);
    let bitmask = BitMask::new();
    let mut state = State::new("1r4k1/7p/5np1/3p3n/8/2NB4/7P/3N1RK1 w - - 0 1", &zob_keys, &bitmask);
    let mut search_engine = SearchEngine::new(131072);

    let time_capacity = TimeCapacity {
        main_time_millis: 7500,
        extra_time_millis: 5500,
    };

    let best_mov = search_engine.search(&mut state, time_capacity, 64);

    let (from, to, _, _) = util::decode_u32_mov(best_mov);
    assert_eq!(from, util::map_sqr_notation_to_index("c3"));
    assert_eq!(to, util::map_sqr_notation_to_index("d5"));
}

#[test]
fn test_search_x1() {
    let zob_keys = XorshiftPrng::new().create_prn_table(def::BOARD_SIZE, def::PIECE_CODE_RANGE);
    let bitmask = BitMask::new();
    let mut state = State::new("8/8/p1p5/1p5p/1P5p/8/PPP2K1p/4R1rk w - - 0 1", &zob_keys, &bitmask);
    let mut search_engine = SearchEngine::new(131072);

    let time_capacity = TimeCapacity {
        main_time_millis: 15500,
        extra_time_millis: 15500,
    };

    let best_mov = search_engine.search(&mut state, time_capacity, 64);

    let (from, to, _, _) = util::decode_u32_mov(best_mov);
    assert_eq!(from, util::map_sqr_notation_to_index("e1"));
    assert_eq!(to, util::map_sqr_notation_to_index("f1"));
}

#[test]
fn test_search_x2() {
    let zob_keys = XorshiftPrng::new().create_prn_table(def::BOARD_SIZE, def::PIECE_CODE_RANGE);
    let bitmask = BitMask::new();
    let mut state = State::new("3r2k1/p2r1p1p/1p2p1p1/q4n2/3P4/PQ5P/1P1RNPP1/3R2K1 b - - 0 1", &zob_keys, &bitmask);
    let mut search_engine = SearchEngine::new(131072);

    let time_capacity = TimeCapacity {
        main_time_millis: 15500,
        extra_time_millis: 15500,
    };

    let best_mov = search_engine.search(&mut state, time_capacity, 64);

    let (from, to, _, _) = util::decode_u32_mov(best_mov);
    assert_eq!(from, util::map_sqr_notation_to_index("f5"));
    assert_eq!(to, util::map_sqr_notation_to_index("d4"));
}

#[test]
fn test_search_x3() {
    let zob_keys = XorshiftPrng::new().create_prn_table(def::BOARD_SIZE, def::PIECE_CODE_RANGE);
    let bitmask = BitMask::new();
    let mut state = State::new("6k1/p3q2p/1nr3pB/8/3Q1P2/6P1/PP5P/3R2K1 b - - 0 1", &zob_keys, &bitmask);
    let mut search_engine = SearchEngine::new(131072);

    let time_capacity = TimeCapacity {
        main_time_millis: 15500,
        extra_time_millis: 15500,
    };

    let best_mov = search_engine.search(&mut state, time_capacity, 64);

    let (from, to, _, _) = util::decode_u32_mov(best_mov);
    assert_eq!(from, util::map_sqr_notation_to_index("c6"));
    assert_eq!(to, util::map_sqr_notation_to_index("d6"));
}

#[test]
fn test_search_x4() {
    let zob_keys = XorshiftPrng::new().create_prn_table(def::BOARD_SIZE, def::PIECE_CODE_RANGE);
    let bitmask = BitMask::new();
    let mut state = State::new("5nk1/nbb2pr1/p3p1p1/1p1r3q/2P5/PP1PP1P1/N3RP1P/BQN1RBK1 b - - 0 1", &zob_keys, &bitmask);
    let mut search_engine = SearchEngine::new(131072);

    let time_capacity = TimeCapacity {
        main_time_millis: 15500,
        extra_time_millis: 15500,
    };

    let best_mov = search_engine.search(&mut state, time_capacity, 64);

    let (from, to, _, _) = util::decode_u32_mov(best_mov);
    assert_eq!(from, util::map_sqr_notation_to_index("h5"));
    assert_eq!(to, util::map_sqr_notation_to_index("h2"));
}

#[test]
fn test_search_x5() {
    let zob_keys = XorshiftPrng::new().create_prn_table(def::BOARD_SIZE, def::PIECE_CODE_RANGE);
    let bitmask = BitMask::new();
    let mut state = State::new("3rr1k1/pp3pp1/1qn2np1/8/3p4/PP1R1P2/2P1NQPP/R1B3K1 b - - 0 1", &zob_keys, &bitmask);
    let mut search_engine = SearchEngine::new(131072);

    let time_capacity = TimeCapacity {
        main_time_millis: 15500,
        extra_time_millis: 5500,
    };

    let best_mov = search_engine.search(&mut state, time_capacity, 64);

    let (from, to, _, _) = util::decode_u32_mov(best_mov);
    assert_eq!(from, util::map_sqr_notation_to_index("c6"));
    assert_eq!(to, util::map_sqr_notation_to_index("e5"));
}

#[test]
fn test_search_x6() {
    let zob_keys = XorshiftPrng::new().create_prn_table(def::BOARD_SIZE, def::PIECE_CODE_RANGE);
    let bitmask = BitMask::new();
    let mut state = State::new("q4rk1/1n1Qbppp/2p5/1p2p3/1P2P3/2P4P/6P1/2B1NRK1 b - - 0 1", &zob_keys, &bitmask);
    let mut search_engine = SearchEngine::new(131072);

    let time_capacity = TimeCapacity {
        main_time_millis: 15500,
        extra_time_millis: 5500,
    };

    let best_mov = search_engine.search(&mut state, time_capacity, 64);

    let (from, to, _, _) = util::decode_u32_mov(best_mov);
    assert_eq!(from, util::map_sqr_notation_to_index("a8"));
    assert_eq!(to, util::map_sqr_notation_to_index("c8"));
}

#[test]
fn test_search_x7() {
    let zob_keys = XorshiftPrng::new().create_prn_table(def::BOARD_SIZE, def::PIECE_CODE_RANGE);
    let bitmask = BitMask::new();
    let mut state = State::new("r2q1rk1/p3bppp/b1n1p3/2Nn4/8/5NP1/PPQBPPBP/R3K2R b KQ - 0 12", &zob_keys, &bitmask);
    let mut search_engine = SearchEngine::new(131072);

    let time_capacity = TimeCapacity {
        main_time_millis: 15500,
        extra_time_millis: 5500,
    };

    let best_mov = search_engine.search(&mut state, time_capacity, 64);

    let (from, to, _, _) = util::decode_u32_mov(best_mov);
    assert_eq!(from, util::map_sqr_notation_to_index("c6"));
    assert_eq!(to, util::map_sqr_notation_to_index("b4"));
}

#[test]
fn test_search_x9() {
    let zob_keys = XorshiftPrng::new().create_prn_table(def::BOARD_SIZE, def::PIECE_CODE_RANGE);
    let bitmask = BitMask::new();
    let mut state = State::new("8/8/1p1r1k2/p1pRN1p1/P3K1P1/1P6/8/8 b - - 0 2", &zob_keys, &bitmask);
    let mut search_engine = SearchEngine::new(131072);

    let time_capacity = TimeCapacity {
        main_time_millis: 5500,
        extra_time_millis: 5500,
    };

    let best_mov = search_engine.search(&mut state, time_capacity, 64);

    let (from, to, _, _) = util::decode_u32_mov(best_mov);
    assert_eq!(from, util::map_sqr_notation_to_index("d6"));
    assert_eq!(to, util::map_sqr_notation_to_index("e6"));
}

#[test]
fn test_search_xx() {
    let zob_keys = XorshiftPrng::new().create_prn_table(def::BOARD_SIZE, def::PIECE_CODE_RANGE);
    let bitmask = BitMask::new();
    let mut state = State::new("8/8/8/3bk3/4p3/8/5N2/4K3 w - - 0 1", &zob_keys, &bitmask);
    let mut search_engine = SearchEngine::new(131072);

    let time_capacity = TimeCapacity {
        main_time_millis: 5500,
        extra_time_millis: 5500,
    };

    let best_mov = search_engine.search(&mut state, time_capacity, 64);

    let (from, to, _, _) = util::decode_u32_mov(best_mov);
    assert_eq!(from, util::map_sqr_notation_to_index("f2"));
    assert_eq!(to, util::map_sqr_notation_to_index("e4"));
}

#[test]
fn test_search_xx2() {
    let zob_keys = XorshiftPrng::new().create_prn_table(def::BOARD_SIZE, def::PIECE_CODE_RANGE);
    let bitmask = BitMask::new();
    let mut state = State::new("4r2k/1q3pp1/5n1p/1pr2P2/p2R3P/P2B4/1P2QP2/4R1K1 w - - 2 51", &zob_keys, &bitmask);
    let mut search_engine = SearchEngine::new(131072);

    let time_capacity = TimeCapacity {
        main_time_millis: 15500,
        extra_time_millis: 15500,
    };

    let best_mov = search_engine.search(&mut state, time_capacity, 64);

    let (from, to, _, _) = util::decode_u32_mov(best_mov);
    assert_eq!(from, util::map_sqr_notation_to_index("e2"));
    assert_eq!(to, util::map_sqr_notation_to_index("e8"));
}

#[test]
fn test_search_perft_1() {
    let zob_keys = XorshiftPrng::new().create_prn_table(def::BOARD_SIZE, def::PIECE_CODE_RANGE);
    let bitmask = BitMask::new();
    let mut state = State::new("rnbqkbnr/pppppppp/8/8/8/8/PPPPPPPP/RNBQKBNR w KQkq - 0 1", &zob_keys, &bitmask);
    let search_engine = SearchEngine::new(131072);

    assert_eq!(20, search_engine.perft(&mut state, 1));
    assert_eq!(400, search_engine.perft(&mut state, 2));
    assert_eq!(8902, search_engine.perft(&mut state, 3));
}

#[test]
fn test_search_perft_2() {
    let zob_keys = XorshiftPrng::new().create_prn_table(def::BOARD_SIZE, def::PIECE_CODE_RANGE);
    let bitmask = BitMask::new();
    let mut state = State::new("8/2p5/3p4/KP5r/1R3p1k/8/4P1P1/8 w - - 0 1", &zob_keys, &bitmask);
    let search_engine = SearchEngine::new(131072);

    assert_eq!(14, search_engine.perft(&mut state, 1));
    assert_eq!(191, search_engine.perft(&mut state, 2));
    assert_eq!(2812, search_engine.perft(&mut state, 3));
    assert_eq!(43238, search_engine.perft(&mut state, 4));
    assert_eq!(674624, search_engine.perft(&mut state, 5));
    assert_eq!(11030083, search_engine.perft(&mut state, 6));
    assert_eq!(178633661, search_engine.perft(&mut state, 7));
}

#[test]
fn test_search_perft_3() {
    let zob_keys = XorshiftPrng::new().create_prn_table(def::BOARD_SIZE, def::PIECE_CODE_RANGE);
    let bitmask = BitMask::new();
    let mut state = State::new("rnbq1k1r/pp1Pbppp/2p5/8/2B5/8/PPP1NnPP/RNBQK2R w KQ - 1 8", &zob_keys, &bitmask);
    let search_engine = SearchEngine::new(131072);

    assert_eq!(44, search_engine.perft(&mut state, 1));
    assert_eq!(1486, search_engine.perft(&mut state, 2));
    assert_eq!(62379, search_engine.perft(&mut state, 3));
    assert_eq!(2103487, search_engine.perft(&mut state, 4));
    assert_eq!(89941194, search_engine.perft(&mut state, 5));
}

#[test]
fn test_search_perft_4() {
    let zob_keys = XorshiftPrng::new().create_prn_table(def::BOARD_SIZE, def::PIECE_CODE_RANGE);
    let bitmask = BitMask::new();
    let mut state = State::new("r4rk1/1pp1qppp/p1np1n2/2b1p1B1/2B1P1b1/P1NP1N2/1PP1QPPP/R4RK1 w - - 0 10", &zob_keys, &bitmask);
    let search_engine = SearchEngine::new(131072);

    assert_eq!(46, search_engine.perft(&mut state, 1));
    assert_eq!(2079, search_engine.perft(&mut state, 2));
    assert_eq!(89890, search_engine.perft(&mut state, 3));
    assert_eq!(3894594, search_engine.perft(&mut state, 4));
    assert_eq!(164075551, search_engine.perft(&mut state, 5));
}

#[test]
fn test_search_perft_5() {
    let zob_keys = XorshiftPrng::new().create_prn_table(def::BOARD_SIZE, def::PIECE_CODE_RANGE);
    let bitmask = BitMask::new();
    let mut state = State::new("r2q1rk1/pP1p2pp/Q4n2/bbp1p3/Np6/1B3NBn/pPPP1PPP/R3K2R b KQ - 0 1", &zob_keys, &bitmask);
    let search_engine = SearchEngine::new(131072);

    assert_eq!(6, search_engine.perft(&mut state, 1));
    assert_eq!(264, search_engine.perft(&mut state, 2));
    assert_eq!(9467, search_engine.perft(&mut state, 3));
    assert_eq!(422333, search_engine.perft(&mut state, 4));
    assert_eq!(15833292, search_engine.perft(&mut state, 5));
}

#[test]
fn test_search_perft_6() {
    let zob_keys = XorshiftPrng::new().create_prn_table(def::BOARD_SIZE, def::PIECE_CODE_RANGE);
    let bitmask = BitMask::new();
    let mut state = State::new("8/P1k5/K7/8/8/8/8/8 w - - 0 1", &zob_keys, &bitmask);
    let search_engine = SearchEngine::new(131072);

    assert_eq!(92683, search_engine.perft(&mut state, 6));
}

