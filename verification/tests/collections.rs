use browser_search::ordered_map::OrderedMap;
use browser_search::text::{decimal_text, joined, parse_u32, precedes, same_text, trim};
use browser_search::web_address::{room_for_pairs, room_for_slash, Address};

fn map(entries: &[(&str, &str)]) -> OrderedMap<String> {
    let mut map = OrderedMap::new();
    for (key, value) in entries {
        map.insert((*key).to_owned(), (*value).to_owned());
    }
    map
}

fn entries(map: &OrderedMap<String>) -> Vec<(&str, &str)> {
    (0..map.len())
        .map(|i| (map.key_at(i).as_str(), map.value_at(i).as_str()))
        .collect()
}

#[test]
fn entries_are_kept_in_the_order_of_their_keys() {
    let map = map(&[("b", "1"), ("a", "2"), ("é", "3"), ("aa", "4"), ("b", "5"), ("", "6")]);
    assert_eq!(
        entries(&map),
        [("", "6"), ("a", "2"), ("aa", "4"), ("b", "5"), ("é", "3")]
    );
    assert_eq!(map.get("b").map(String::as_str), Some("5"));
    assert!(map.get("c").is_none());
    assert!(map.contains_key("aa"));
    assert!(!map.is_empty());
    assert_eq!(entries(&map.clone()), entries(&map));
}

#[test]
fn later_entries_take_the_place_of_earlier_ones() {
    let mut base = map(&[("a", "1"), ("b", "2")]);
    base.extend(map(&[("b", "3"), ("c", "4")]));
    assert_eq!(entries(&base), [("a", "1"), ("b", "3"), ("c", "4")]);
}

#[test]
fn texts_are_joined() {
    assert_eq!(joined("über", "数"), "über数");
}

#[test]
fn numbers_are_written_in_decimal() {
    for number in [0, 7, 10, 99, 100, 12_345, u64::MAX] {
        assert_eq!(decimal_text(number), number.to_string());
    }
}

#[test]
fn addresses_know_how_much_they_can_take() {
    let address = |fragment: Option<&str>| Address {
        text: "http://a.test/".to_owned(),
        scheme: "http".to_owned(),
        path: "/".to_owned(),
        query: None,
        fragment: fragment.map(str::to_owned),
        opaque: false,
    };
    let pairs = vec![("q".to_owned(), "a b+é".to_owned())];
    assert!(address(None).can_take_slash());
    assert!(address(None).can_take(&pairs));
    assert!(address(Some("x")).can_take(&pairs));
    assert!(address(Some("x")).can_take(&Vec::new()));
}

#[test]
fn addresses_are_bounded_by_the_places_of_their_parts() {
    let limit: u64 = u32::MAX.into();
    assert!(room_for_slash(limit - 1, false));
    assert!(!room_for_slash(limit, false));
    assert!(room_for_slash(limit - 3, true));
    assert!(!room_for_slash(limit - 2, true));

    assert!(room_for_pairs(limit, None, 1_000, false));
    assert!(!room_for_pairs(limit + 1, None, 0, false));
    assert!(room_for_pairs(limit + 1, None, 1_000, true));
    assert!(room_for_pairs(limit + 6, Some(5), 0, false));
    assert!(!room_for_pairs(limit + 6, Some(5), 1, false));
    assert!(!room_for_pairs(limit + 6, Some(5), 1, true));
    assert!(room_for_pairs(10 * limit, Some(10 * limit - 20), 100, false));
    assert!(!room_for_pairs(100, Some(5), u128::MAX, true));
}

#[test]
fn texts_are_trimmed_compared_and_ordered() {
    assert_eq!(trim("  a b\u{3000}\n"), "a b");
    assert_eq!(trim(" \t "), "");
    assert_eq!(trim(""), "");
    assert_eq!(trim("é"), "é");
    assert!(same_text("é", "é"));
    assert!(!same_text("é", "e"));
    assert!(!same_text("a", "ab"));
    for (left, right) in [("", "a"), ("a", "ab"), ("ab", "b"), ("z", "é"), ("é", "数"), ("数", "😀")] {
        assert!(precedes(left, right));
        assert!(!precedes(right, left));
        assert!(!precedes(left, left));
    }
    assert_eq!(parse_u32("4294967295"), Some(u32::MAX));
    assert_eq!(parse_u32("4294967296"), None);
    assert_eq!(parse_u32("99999999999999999999999"), None);
    assert_eq!(parse_u32("+00012"), Some(12));
    for text in ["", "+", "++1", "-1", "1 ", "１"] {
        assert_eq!(parse_u32(text), None);
    }
}
