use shocs_lc::order::{sorted_unique, stable_order};
use shocs_lc::text::{
    chars_of, contains_control, format_hex16, format_shown_id, is_control, is_whitespace,
    push_signed, same_optional, same_text, split_commas, strip_hex_prefix, to_ascii_lowercase, trim,
};

fn key(text: &str) -> Vec<char> {
    chars_of(text)
}

#[test]
fn trimming_takes_white_space_off_both_ends() {
    assert_eq!(trim("  a b \t\n"), "a b");
    assert_eq!(trim("\u{3000}x\u{a0}"), "x");
    assert_eq!(trim(" \u{2003} "), "");
    assert_eq!(trim(""), "");
    for text in ["  a b \t\n", "x", " \r\n", "\u{85}é\u{2028}", "\u{200b}z"] {
        assert_eq!(trim(text), text.trim());
        assert_eq!(trim(trim(text)), trim(text));
    }
}

#[test]
fn character_classes_agree_with_the_standard_library() {
    for n in 0..0x11000u32 {
        if let Some(c) = char::from_u32(n) {
            assert_eq!(is_whitespace(c), c.is_whitespace(), "{n:#x}");
            assert_eq!(is_control(c), c.is_control(), "{n:#x}");
        }
    }
}

#[test]
fn control_characters_are_found_anywhere() {
    assert!(contains_control("a\u{7}b"));
    assert!(contains_control("\u{9f}"));
    assert!(!contains_control("plain é"));
    assert!(!contains_control(""));
}

#[test]
fn hex_prefixes_come_off_once() {
    assert_eq!(strip_hex_prefix("0xd0"), "d0");
    assert_eq!(strip_hex_prefix("0Xd0"), "d0");
    assert_eq!(strip_hex_prefix("0x0xd0"), "0xd0");
    assert_eq!(strip_hex_prefix("d0"), "d0");
    assert_eq!(strip_hex_prefix("0"), "0");
}

#[test]
fn identifiers_are_written_with_sixteen_digits() {
    assert_eq!(format_hex16(0xd073_d5ab_cdef), "0000d073d5abcdef");
    assert_eq!(format_hex16(u64::MAX), "ffffffffffffffff");
    assert_eq!(format_shown_id(0xd073_d5ab_cdef), format!("{:#018x}", 0xd073_d5ab_cdefu64));
    assert_eq!(format_shown_id(0), "0x0000000000000000");
}

#[test]
fn signed_numbers_are_written_in_full() {
    for n in [0, 7, -7, i64::MAX, i64::MIN] {
        let mut out = String::from("=");
        push_signed(&mut out, n);
        assert_eq!(out, format!("={n}"));
    }
}

#[test]
fn commas_part_a_text_into_pieces() {
    assert_eq!(split_commas("a,b,,c"), vec!["a", "b", "", "c"]);
    assert_eq!(split_commas(""), vec![""]);
    assert_eq!(split_commas(","), vec!["", ""]);
}

#[test]
fn lower_case_touches_ascii_only() {
    let lowered: String = to_ascii_lowercase("LAMPE Ä").into_iter().collect();
    assert_eq!(lowered, "lampe Ä");
}

#[test]
fn texts_are_compared_by_their_characters() {
    assert!(same_text("lamp", "lamp"));
    assert!(!same_text("lamp", "Lamp"));
    assert!(same_optional(&None, &None));
    assert!(!same_optional(&Some("a".to_string()), &None));
    assert!(same_optional(&Some("a".to_string()), &Some("a".to_string())));
}

#[test]
fn ordering_is_stable_and_by_code_point() {
    let keys = vec![key("b"), key("a"), key("ab"), key("a"), key("Z"), key("é")];
    assert_eq!(stable_order(&keys), vec![4, 1, 3, 2, 0, 5]);
    assert_eq!(stable_order(&Vec::new()), Vec::<usize>::new());
}

#[test]
fn membership_is_sorted_without_repetition() {
    assert_eq!(sorted_unique(&vec![5, 1, 5, 3, 1]), vec![1, 3, 5]);
    assert_eq!(sorted_unique(&sorted_unique(&vec![5, 1, 5])), vec![1, 5]);
    assert_eq!(sorted_unique(&Vec::new()), Vec::<u64>::new());
}
