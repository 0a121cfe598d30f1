use corvid::bitboard::BitMask;
use corvid::def;
use corvid::prng::XorshiftPrng;
use corvid::state::{State, FEN_START_POS};
use corvid::uci::{
    classify_mov, parse_u128, process_uci_cmd, split_words, time_share, TimeInfo,
    UciProcessResult,
};
use corvid::util;

fn words(line: &str) -> Vec<String> {
    split_words(line.as_bytes()).0.into_iter().map(|w| String::from_utf8(w).unwrap()).collect()
}

#[test]
fn a_line_is_split_at_every_space() {
    assert_eq!(vec!["go", "depth", "5"], words("go depth 5"));
    assert_eq!(vec![""], words(""));
    assert_eq!(vec!["", "a", "", "b", ""], words(" a  b "));
    assert_eq!(vec![0usize, 3, 9], split_words(b"go depth 5").1);
}

#[test]
fn numbers_are_read() {
    assert_eq!(Some(0), parse_u128(&b"0".to_vec()));
    assert_eq!(Some(1500), parse_u128(&b"1500".to_vec()));
    assert_eq!(Some(7), parse_u128(&b"007".to_vec()));
    assert_eq!(Some(u128::MAX), parse_u128(&b"340282366920938463463374607431768211455".to_vec()));
    assert_eq!(None, parse_u128(&b"340282366920938463463374607431768211456".to_vec()));
    assert_eq!(None, parse_u128(&b"3402823669209384634633746074317682114550".to_vec()));
    assert_eq!(None, parse_u128(&b"".to_vec()));
    assert_eq!(None, parse_u128(&b"12a".to_vec()));
    assert_eq!(None, parse_u128(&b"-5".to_vec()));
}

#[test]
fn time_for_a_move() {
    assert_eq!(2400, time_share(60000, 1000, 40));
    assert_eq!(2900, time_share(60000, 0, 20));
    assert_eq!(900, time_share(1000, 5000, 20));
    assert_eq!(100, time_share(100, 0, 1));
    assert_eq!(50, time_share(1000, 0, 20));
    assert_eq!(0, time_share(0, 0, 20));
    assert_eq!(u128::MAX - 100, time_share(u128::MAX, u128::MAX, 3));
}

#[test]
fn engine_commands() {
    assert!(matches!(process_uci_cmd("uci"), UciProcessResult::Ready));
    assert!(matches!(process_uci_cmd("isready"), UciProcessResult::ReadyOk));
    assert!(matches!(process_uci_cmd("ucinewgame"), UciProcessResult::Reset));
    assert!(matches!(process_uci_cmd("stop"), UciProcessResult::Stop));
    assert!(matches!(process_uci_cmd("quit"), UciProcessResult::Quit));
    assert!(matches!(process_uci_cmd("debug on"), UciProcessResult::Noop));
    assert!(matches!(process_uci_cmd("register later"), UciProcessResult::Noop));
    assert!(matches!(process_uci_cmd("ponderhit"), UciProcessResult::Noop));
    assert!(matches!(process_uci_cmd("xyzzy"), UciProcessResult::Noop));
    assert!(matches!(process_uci_cmd(""), UciProcessResult::Noop));
    assert!(matches!(process_uci_cmd("ucí"), UciProcessResult::Noop));
    assert!(matches!(process_uci_cmd(" uci"), UciProcessResult::Noop));
}

#[test]
fn hash_option() {
    assert!(matches!(
        process_uci_cmd("setoption name Hash value 4"),
        UciProcessResult::SetHashSize(131072)
    ));
    assert!(matches!(
        process_uci_cmd("setoption name Hash value 128"),
        UciProcessResult::SetHashSize(4194304)
    ));
    assert!(matches!(
        process_uci_cmd("setoption name Hash value 512"),
        UciProcessResult::SetHashSize(16777216)
    ));
    assert!(matches!(
        process_uci_cmd("setoption name Hash value 1"),
        UciProcessResult::UnsupportedHashSize(1)
    ));
    assert!(matches!(
        process_uci_cmd("setoption name Hash value 2"),
        UciProcessResult::UnsupportedHashSize(2)
    ));
    assert!(matches!(
        process_uci_cmd("setoption name Hash value 6"),
        UciProcessResult::UnsupportedHashSize(6)
    ));
    assert!(matches!(
        process_uci_cmd("setoption name Hash value 1024"),
        UciProcessResult::UnsupportedHashSize(usize::MAX)
    ));
    assert!(matches!(process_uci_cmd("setoption name Hash value"), UciProcessResult::Noop));
    assert!(matches!(process_uci_cmd("setoption name Hash value x"), UciProcessResult::Noop));
    assert!(matches!(process_uci_cmd("setoption name Ponder value true"), UciProcessResult::Noop));
    assert!(matches!(process_uci_cmd("setoption"), UciProcessResult::Noop));
}

#[test]
fn go_commands() {
    assert!(matches!(
        process_uci_cmd("go movetime 1500"),
        UciProcessResult::StartSearchWithTime(1500)
    ));
    assert!(matches!(process_uci_cmd("go depth 7"), UciProcessResult::StartSearchToDepth(7)));
    assert!(matches!(process_uci_cmd("go depth 255"), UciProcessResult::StartSearchToDepth(255)));
    assert!(matches!(process_uci_cmd("go depth 256"), UciProcessResult::Noop));
    assert!(matches!(process_uci_cmd("go infinite"), UciProcessResult::StartSearchInfinite));
    assert!(matches!(process_uci_cmd("go perft 5"), UciProcessResult::Perft(5)));
    assert!(matches!(process_uci_cmd("go ponder"), UciProcessResult::Noop));
    assert!(matches!(process_uci_cmd("go movetime"), UciProcessResult::Noop));
    assert!(matches!(process_uci_cmd("go movetime soon"), UciProcessResult::Noop));
    assert!(matches!(process_uci_cmd("go nodes 100"), UciProcessResult::Noop));
    assert!(matches!(process_uci_cmd("go"), UciProcessResult::Noop));
}

fn clock(line: &str) -> Option<TimeInfo> {
    match process_uci_cmd(line) {
        UciProcessResult::StartSearchWithComplextTimeControl(t) => Some(t),
        UciProcessResult::Noop => None,
        _ => panic!("neither a time nor nothing"),
    }
}

#[test]
fn clock_commands() {
    assert_eq!(
        Some(TimeInfo { white_millis: 2900, black_millis: 1400 }),
        clock("go wtime 60000 btime 30000")
    );
    assert_eq!(
        Some(TimeInfo { white_millis: 5900, black_millis: 2900 }),
        clock("go wtime 60000 btime 30000 movestogo 10")
    );
    assert_eq!(
        Some(TimeInfo { white_millis: 3900, black_millis: 1900 }),
        clock("go wtime 60000 btime 30000 winc 1000 binc 500")
    );
    assert_eq!(
        Some(TimeInfo { white_millis: 2400, black_millis: 1150 }),
        clock("go wtime 60000 btime 30000 winc 1000 binc 500 movestogo 40")
    );
    assert_eq!(
        Some(TimeInfo { white_millis: 900, black_millis: 50 }),
        clock("go wtime 1000 btime 50 winc 9000 binc 9000")
    );
    assert_eq!(None, clock("go wtime 60000"));
    assert_eq!(None, clock("go wtime 60000 btime"));
    assert_eq!(None, clock("go wtime x btime 30000"));
    assert_eq!(None, clock("go wtime 60000 wtime 30000"));
    assert_eq!(None, clock("go wtime 60000 btime 30000 movestogo 0"));
    assert_eq!(None, clock("go wtime 60000 btime 30000 movestogo"));
    assert_eq!(None, clock("go wtime 60000 btime 30000 winc 1000"));
    assert_eq!(None, clock("go wtime 60000 btime 30000 winc 1000 binc"));
    assert_eq!(None, clock("go wtime 60000 btime 30000 winc 1000 binc 500 movestogo"));
}

#[test]
fn position_commands() {
    match process_uci_cmd("position startpos") {
        UciProcessResult::Position(fen, movs) => {
            assert_eq!(FEN_START_POS, fen);
            assert!(movs.is_empty());
        },
        _ => panic!("no position"),
    }
    match process_uci_cmd("position startpos moves e2e4 e7e5 a7a8q") {
        UciProcessResult::Position(fen, movs) => {
            assert_eq!(FEN_START_POS, fen);
            assert_eq!(3, movs.len());
            assert_eq!(util::map_sqr_notation_to_index("e2"), movs[0].from);
            assert_eq!(util::map_sqr_notation_to_index("e4"), movs[0].to);
            assert_eq!("", movs[0].promo);
            assert_eq!("e2e4", movs[0].origin_mov_str);
            assert_eq!(util::map_sqr_notation_to_index("e5"), movs[1].to);
            assert_eq!("q", movs[2].promo);
            assert_eq!("a7a8q", movs[2].origin_mov_str);
        },
        _ => panic!("no position"),
    }
    assert!(matches!(process_uci_cmd("position startpos moves"), UciProcessResult::Position(_, _)));
    assert!(matches!(process_uci_cmd("position startpos moves e2e9"), UciProcessResult::Noop));
    assert!(matches!(process_uci_cmd("position startpos moves e2"), UciProcessResult::Noop));
    assert!(matches!(process_uci_cmd("position startpos moves e2e4  e7e5"), UciProcessResult::Noop));
    assert!(matches!(process_uci_cmd("position fen 8/8/8/8/8/8/8/8 w - - 0 1"), UciProcessResult::Noop));
    assert!(matches!(process_uci_cmd("position"), UciProcessResult::Noop));
}

#[test]
fn moves_of_the_protocol_are_told_apart() {
    let zob_keys = XorshiftPrng::new().create_prn_table(def::BOARD_SIZE, def::PIECE_CODE_RANGE);
    let bitmask = BitMask::new();
    let sq = util::map_sqr_notation_to_index;
    let state = State::new("r3k2r/1P6/8/3pP3/8/8/P7/R3K2R w KQkq d6 0 1", &zob_keys, &bitmask);
    let pos = &state.pos;
    assert_eq!(Some((def::MOV_PROMO, def::WQ)), classify_mov(pos, sq("b7"), sq("b8"), "q", "b7b8q"));
    assert_eq!(Some((def::MOV_PROMO, def::WN)), classify_mov(pos, sq("b7"), sq("a8"), "n", "b7a8n"));
    assert_eq!(None, classify_mov(pos, sq("b7"), sq("b8"), "k", "b7b8k"));
    assert_eq!(Some((def::MOV_CAS, 0)), classify_mov(pos, sq("e1"), sq("g1"), "", "e1g1"));
    assert_eq!(Some((def::MOV_CAS, 0)), classify_mov(pos, sq("e1"), sq("c1"), "", "e1c1"));
    assert_eq!(Some((def::MOV_REG, 0)), classify_mov(pos, sq("e1"), sq("e2"), "", "e1e2"));
    assert_eq!(Some((def::MOV_ENP, 0)), classify_mov(pos, sq("e5"), sq("d6"), "", "e5d6"));
    assert_eq!(Some((def::MOV_REG, 0)), classify_mov(pos, sq("e5"), sq("e6"), "", "e5e6"));
    assert_eq!(Some((def::MOV_CR_ENP, 0)), classify_mov(pos, sq("a2"), sq("a4"), "", "a2a4"));
    assert_eq!(Some((def::MOV_REG, 0)), classify_mov(pos, sq("a2"), sq("a3"), "", "a2a3"));
    assert_eq!(Some((def::MOV_REG, 0)), classify_mov(pos, sq("h1"), sq("g1"), "", "h1g1"));
    let black = State::new("r3k2r/8/8/8/8/8/1p6/R3K2R b KQkq - 0 1", &zob_keys, &bitmask);
    assert_eq!(
        Some((def::MOV_PROMO, def::BR)),
        classify_mov(&black.pos, sq("b2"), sq("a1"), "r", "b2a1r")
    );
    assert_eq!(Some((def::MOV_CAS, 0)), classify_mov(&black.pos, sq("e8"), sq("c8"), "", "e8c8"));
}
