use tenzik_core::hexcode::{hex_decode, hex_encode};
use tenzik_core::clock::{current_millis, to_millis};
use tenzik_core::json::json_of_list;
use tenzik_core::text::{
    clone_texts, decimal_string, digit_of, push_decimal, push_decimal_padded, push_fraction, rounded_div,
    skip_chars, starts_with, str_eq, str_le,
};
use tenzik_core::textmap::TextMap;

#[test]
fn decimal_rendering_matches_the_standard_library() {
    for n in [0u64, 1, 9, 10, 11, 99, 100, 12345, 1_000_000, u64::MAX] {
        assert_eq!(decimal_string(n), n.to_string());
    }
    let mut out = String::from("x=");
    push_decimal(&mut out, u128::MAX);
    assert_eq!(out, format!("x={}", u128::MAX));
    assert_eq!(digit_of(7), '7');
}

#[test]
fn padded_and_fraction_digits() {
    let mut out = String::new();
    push_decimal_padded(&mut out, 7, 3);
    assert_eq!(out, "007");
    let mut out = String::new();
    push_decimal_padded(&mut out, 12345, 3);
    assert_eq!(out, "345");
    let mut out = String::new();
    push_decimal_padded(&mut out, 5, 0);
    assert_eq!(out, "");
    let mut out = String::new();
    push_fraction(&mut out, 500, 3);
    assert_eq!(out, "5");
    let mut out = String::new();
    push_fraction(&mut out, 0, 3);
    assert_eq!(out, "0");
    let mut out = String::new();
    push_fraction(&mut out, 125, 3);
    assert_eq!(out, "125");
    let mut out = String::new();
    push_fraction(&mut out, 50, 3);
    assert_eq!(out, "05");
}

#[test]
fn string_comparisons_match_the_standard_library() {
    let samples = ["", "a", "ab", "b", "2024-01-01T00:00:00Z", "2024-01-01T00:00:00+00:00", "é", "z", "Z"];
    for a in samples {
        for b in samples {
            assert_eq!(str_eq(a, b), a == b, "{a:?} == {b:?}");
            assert_eq!(str_le(a, b), a <= b, "{a:?} <= {b:?}");
            assert_eq!(starts_with(a, b), a.starts_with(b), "{a:?} starts with {b:?}");
        }
    }
    assert_eq!(skip_chars("env::memory", 5), "memory");
    assert_eq!(skip_chars("éa", 1), "a");
    assert_eq!(skip_chars("abc", 3), "");
}

#[test]
fn cloned_lists_are_equal() {
    let items = vec!["a".to_string(), String::new(), "long text".to_string()];
    assert_eq!(clone_texts(&items), items);
    assert!(clone_texts(&Vec::new()).is_empty());
}

#[test]
fn hex_round_trip_and_rejections() {
    assert_eq!(hex_encode(&[0x00, 0x0f, 0xa5, 0xff]), "000fa5ff");
    assert_eq!(hex_encode(&[]), "");
    assert_eq!(hex_decode("000FA5ff").unwrap(), vec![0x00, 0x0f, 0xa5, 0xff]);
    assert_eq!(hex_decode("").unwrap(), Vec::<u8>::new());
    assert!(hex_decode("abc").is_none());
    assert!(hex_decode("zz").is_none());
    assert!(hex_decode("é0").is_none());
    let bytes: Vec<u8> = (0..=255).collect();
    assert_eq!(hex_decode(&hex_encode(&bytes)).unwrap(), bytes);
}

#[test]
fn text_map_keeps_one_value_per_key_in_order() {
    let mut map: TextMap<u64> = TextMap::new();
    assert_eq!(map.len(), 0);
    assert!(map.get("a").is_none());
    map.insert("a".to_string(), 1);
    map.insert("b".to_string(), 2);
    map.insert("a".to_string(), 3);
    assert_eq!(map.len(), 2);
    assert_eq!(map.get("a"), Some(&3));
    assert_eq!(map.get("b"), Some(&2));
    assert_eq!(map.key_at(0), "a");
    assert_eq!(map.key_at(1), "b");
    assert_eq!(*map.value_at(1), 2);
    assert_eq!(map.position("b"), Some(1));
    assert!(map.contains_key("a"));
    assert_eq!(map.remove("a"), Some(3));
    assert_eq!(map.remove("a"), None);
    assert!(!map.contains_key("a"));
    assert_eq!(map.len(), 1);
    assert_eq!(map.key_at(0), "b");
}

#[test]
fn quotients_round_to_the_nearest_with_ties_to_even() {
    assert_eq!(rounded_div(0, 7), 0);
    assert_eq!(rounded_div(7, 2), 4);
    assert_eq!(rounded_div(5, 2), 2);
    assert_eq!(rounded_div(3, 2), 2);
    assert_eq!(rounded_div(1, 2), 0);
    assert_eq!(rounded_div(10, 4), 2);
    assert_eq!(rounded_div(14, 4), 4);
    assert_eq!(rounded_div(11, 4), 3);
    assert_eq!(rounded_div(9, 4), 2);
    assert_eq!(rounded_div(1_000_000, 3), 333_333);
    assert_eq!(rounded_div(2_000_000, 3), 666_667);
}

#[test]
fn milliseconds_of_an_instant() {
    assert_eq!(to_millis(0, 0), 0);
    assert_eq!(to_millis(1, 999_999), 1000);
    assert_eq!(to_millis(1, 1_000_000), 1001);
    assert_eq!(to_millis(1714564800, 123_456_789), 1714564800123);
    assert_eq!(to_millis(-1, 5), 0);
    assert_eq!(to_millis(i64::MAX, 0), u64::MAX);
    // the clock is somewhere after the year 2020
    assert!(current_millis() > 1_577_836_800_000);
}

#[test]
fn lists_of_strings_are_written_as_compact_json() {
    let samples: Vec<Vec<String>> = vec![
        vec![],
        vec![String::new()],
        vec!["a".to_string()],
        vec!["a".to_string(), "b\"c\\d".to_string(), "\n\t\u{1}\u{1f}\u{7f}é\u{2028}".to_string()],
    ];
    for items in samples {
        assert_eq!(json_of_list(&items), serde_json::to_string(&items).unwrap());
    }
    assert_eq!(json_of_list(&vec!["x".to_string(), "y".to_string()]), "[\"x\",\"y\"]");
}
