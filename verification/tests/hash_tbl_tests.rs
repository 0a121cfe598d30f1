use corvid::hash_tbl::{HashTable, LookupResult};

#[test]
fn test_get_set_entries() {
    let mut table = HashTable::new(32786);
    table.set(32789, 2, 5, 0b1100, 0, 0, -100, 123);

    assert_eq!(LookupResult::Match(0, -100, 123), table.get(32789, 2, 5, 0b1100, 0));
    assert_eq!(LookupResult::Match(0, -100, 123), table.get(32789, 2, 3, 0b1100, 0));
    assert_eq!(LookupResult::MovOnly(123), table.get(32789, 2, 6, 0b1100, 0));
    assert_eq!(LookupResult::NoMatch, table.get(32789, 2, 5, 0b1110, 0));
    assert_eq!(LookupResult::NoMatch, table.get(32789, 2, 5, 0b1100, 1));
    assert_eq!(LookupResult::NoMatch, table.get(32789, 1, 5, 0b1100, 0));
    assert_eq!(LookupResult::NoMatch, table.get(3, 2, 5, 0b1110, 0));
}

