use protolaunch::text::{format_u32, parse_u32, push_decimal, str_equal};
use protolaunch::text_map::TextMap;

#[test]
fn equal_texts_are_told_from_unequal_ones() {
    assert!(str_equal("", ""));
    assert!(str_equal("viewsvn", "viewsvn"));
    assert!(str_equal("größe", "größe"));
    assert!(!str_equal("viewsvn", "Viewsvn"));
    assert!(!str_equal("viewsvn", "viewsv"));
    assert!(!str_equal("viewsv", "viewsvn"));
    assert!(!str_equal("", " "));
    assert!(!str_equal("é", "e\u{301}"));
}

#[test]
fn numerals_are_read() {
    assert_eq!(parse_u32("0"), Some(0));
    assert_eq!(parse_u32("7"), Some(7));
    assert_eq!(parse_u32("4821"), Some(4821));
    assert_eq!(parse_u32("4294967295"), Some(u32::MAX));
    assert_eq!(parse_u32("0000000000000000004294967295"), Some(u32::MAX));
    assert_eq!(parse_u32("000"), Some(0));
}

#[test]
fn what_is_no_numeral_is_not_read() {
    let texts =
        ["", " ", "-1", "+1", "-0", " 1", "1 ", "1a", "a1", "1.5", "1e3", "0x1f", "١٢٣", "１２"];
    for text in texts {
        assert_eq!(parse_u32(text), None);
    }
}

#[test]
fn numerals_above_the_range_are_not_read() {
    for text in ["4294967296", "4294967305", "5000000000", "42949672950", "18446744073709551616"] {
        assert_eq!(parse_u32(text), None);
    }
}

#[test]
fn numbers_are_written_in_decimal() {
    assert_eq!(format_u32(0), "0");
    assert_eq!(format_u32(9), "9");
    assert_eq!(format_u32(10), "10");
    assert_eq!(format_u32(4821), "4821");
    assert_eq!(format_u32(1000000), "1000000");
    assert_eq!(format_u32(u32::MAX), "4294967295");
}

#[test]
fn decimal_is_appended_to_what_is_there() {
    let mut text = String::from("/startrev:");
    push_decimal(&mut text, 305);
    assert_eq!(text, "/startrev:305");
    push_decimal(&mut text, 0);
    assert_eq!(text, "/startrev:3050");
}

#[test]
fn written_numbers_read_back() {
    let samples = [
        0u32,
        1,
        9,
        10,
        11,
        99,
        100,
        101,
        65535,
        65536,
        999999999,
        1000000000,
        u32::MAX - 1,
        u32::MAX,
    ];
    for n in samples {
        assert_eq!(parse_u32(&format_u32(n)), Some(n));
        assert_eq!(format_u32(n), n.to_string());
    }
}

#[test]
fn empty_map_has_no_entries() {
    let map = TextMap::new();
    assert_eq!(map.get("revision"), None);
    assert!(!map.contains_key(""));
}

#[test]
fn insert_overwrites() {
    let mut map = TextMap::new();
    map.insert("revision".to_string(), "1".to_string());
    map.insert("server_url".to_string(), "https://h/".to_string());
    assert_eq!(map.get("revision"), Some(&"1".to_string()));
    map.insert("revision".to_string(), "2".to_string());
    assert_eq!(map.get("revision"), Some(&"2".to_string()));
    assert_eq!(map.get("server_url"), Some(&"https://h/".to_string()));
    assert_eq!(map.get("Revision"), None);
    assert!(map.contains_key("server_url"));
    assert!(!map.contains_key("server_ur"));
}

#[test]
fn overwriting_keeps_one_entry_for_a_key() {
    let mut once = TextMap::new();
    once.insert("a".to_string(), "2".to_string());
    once.insert("b".to_string(), "3".to_string());
    let mut twice = TextMap::new();
    twice.insert("a".to_string(), "1".to_string());
    twice.insert("b".to_string(), "3".to_string());
    twice.insert("a".to_string(), "2".to_string());
    assert_eq!(once, twice);
}
