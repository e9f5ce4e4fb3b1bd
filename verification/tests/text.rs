//! Taking text apart, and maps from texts.

use unwasm_core::ops::render;
use unwasm_core::text::order::is_before;
use unwasm_core::text::pieces::{
    chars_of, decimal_text, join, same_text, text_begins, text_ends, text_holds, text_of,
};
use unwasm_core::text::table::TextMap;

#[test]
fn a_map_from_texts_keeps_its_keys_in_order() {
    let mut map: TextMap<u32> = TextMap::new();
    assert!(map.is_empty());
    for (at, key) in ["b", "a", "abc", "ab", "\u{e9}", "B"].into_iter().enumerate() {
        map.insert(key.to_string(), at as u32);
    }
    let keys: Vec<&str> = (0..map.len()).map(|at| map.key_at(at).as_str()).collect();
    assert_eq!(keys, vec!["B", "a", "ab", "abc", "b", "\u{e9}"]);
    assert_eq!(map.get("abc"), Some(&2));
    map.insert("abc".to_string(), 9);
    assert_eq!(map.get("abc"), Some(&9));
    assert_eq!(map.len(), 6);
    assert_eq!(map.position("ab"), Some(2));
    assert_eq!(map.position("zz"), None);
    assert_eq!(map.remove("a"), Some(1));
    assert_eq!(map.remove("a"), None);
    assert!(!map.contains_key("a"));
    assert_eq!(*map.value_at(0), 5);
}

#[test]
fn texts_are_ordered_as_their_bytes_are() {
    let list = ["", "a", "aa", "ab", "b", "\u{7f}", "\u{80}", "\u{ffff}", "\u{10000}"];
    for (i, left) in list.iter().enumerate() {
        for (j, right) in list.iter().enumerate() {
            assert_eq!(is_before(left, right), i < j);
            assert_eq!(left.as_bytes() < right.as_bytes(), i < j);
        }
    }
}

#[test]
fn pieces_of_text_are_found_and_joined() {
    assert!(text_begins("invoke_vi", "invoke_"));
    assert!(!text_begins("inv", "invoke_"));
    assert!(text_ends("class_constructor", "constructor"));
    assert!(text_holds("__assert_fail", "assert_fail"));
    assert!(!text_holds("assert", "assert_fail"));
    assert!(same_text("\u{2026}", "\u{2026}"));
    assert_eq!(text_of(&chars_of("h\u{e9}llo"), 1, 3), "\u{e9}l");
    assert_eq!(decimal_text(0), "0");
    assert_eq!(decimal_text(u64::MAX), u64::MAX.to_string());
    let list = vec!["a".to_string(), "b".to_string(), "c".to_string()];
    assert_eq!(join(&list, ", "), "a, b, c");
    assert_eq!(join(&Vec::new(), ", "), "");
}

#[test]
fn a_template_is_filled_in_operand_by_operand() {
    let operands = ["x".to_string(), "y".to_string()];
    assert_eq!(render("({0} - {1}) * {0}", &operands), "(x - y) * x");
}
