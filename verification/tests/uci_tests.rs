use corvid::uci::parse_mov_str;
use corvid::util;

#[test]
fn test_parse_mov_str() {
    let raw_mov = parse_mov_str("e1g1");
    assert_eq!(util::map_sqr_notation_to_index("e1"), raw_mov.from);
    assert_eq!(util::map_sqr_notation_to_index("g1"), raw_mov.to);
    assert_eq!("".to_owned(), raw_mov.promo);

    let raw_mov = parse_mov_str("a7b8q");
    assert_eq!(util::map_sqr_notation_to_index("a7"), raw_mov.from);
    assert_eq!(util::map_sqr_notation_to_index("b8"), raw_mov.to);
    assert_eq!("q".to_owned(), raw_mov.promo);
}

