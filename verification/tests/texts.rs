use maker_desk::clock::{after, since};
use maker_desk::keyed::TextMap;
use maker_desk::text::{
    before, chars_of, contains, find, first_chars, i64_text, joined, joined5, parse_i64, parse_u64,
    same_text, text_of, to_lower, to_upper, trim, trim_slashes, u64_text,
};

#[test]
fn numbers_are_written_and_read_back() {
    for n in [0u64, 7, 10, 1_790_354_340_123, u64::MAX] {
        assert_eq!(u64_text(n), n.to_string());
        assert_eq!(parse_u64(&u64_text(n)), Some(n));
    }
    for n in [0i64, -1, 42, i64::MIN, i64::MAX] {
        assert_eq!(i64_text(n), n.to_string());
        assert_eq!(parse_i64(&i64_text(n)), Some(n));
    }
}

#[test]
fn numbers_are_read_as_the_standard_library_reads_them() {
    for text in ["", "+", "-", "+5", "-5", "--5", " 5", "5 ", "05", "1_0", "18446744073709551615",
        "18446744073709551616", "9223372036854775807", "9223372036854775808",
        "-9223372036854775808", "-9223372036854775809", "5a", "٣"]
    {
        assert_eq!(parse_u64(text), text.parse::<u64>().ok(), "{text}");
        assert_eq!(parse_i64(text), text.parse::<i64>().ok(), "{text}");
    }
}

#[test]
fn texts_are_cut_and_joined() {
    assert_eq!(joined("盘", "口"), "盘口");
    assert_eq!(joined5("a", "b", "", "d", "e"), "abde");
    assert_eq!(chars_of("盘a"), vec!['盘', 'a']);
    assert_eq!(text_of(&vec!['盘', 'a']), "盘a");
    assert_eq!(first_chars(&chars_of("盘口深度"), 2), "盘口");
    assert_eq!(trim(" \t a b \n"), " \t a b \n".trim());
    assert_eq!(trim("\u{3000}x\u{a0}"), "\u{3000}x\u{a0}".trim());
    assert_eq!(trim_slashes("https://a.b/c//"), "https://a.b/c");
    assert_eq!(trim_slashes("///"), "");
    assert!(same_text("x", "x") && !same_text("x", "X"));
}

#[test]
fn case_is_changed_in_ascii_only() {
    assert_eq!(to_upper("ethUSDC-ß1"), "ethUSDC-ß1".to_ascii_uppercase());
    assert_eq!(to_lower("ETHusdc-É1"), "ETHusdc-É1".to_ascii_lowercase());
}

#[test]
fn parts_of_texts_are_found() {
    assert!(contains("banned until 5", "until "));
    assert!(contains("x", ""));
    assert!(!contains("ab", "abc"));
    assert_eq!(find(&chars_of("aab"), &chars_of("ab")), Some(1));
    assert_eq!(find(&chars_of("aab"), &chars_of("ba")), None);
}

#[test]
fn texts_are_ordered_as_the_standard_library_orders_them() {
    let texts = ["", "a", "ab", "b", "A", "盘", "é"];
    for a in texts {
        for b in texts {
            assert_eq!(before(a, b), a < b, "{a} {b}");
        }
    }
}

#[test]
fn a_map_keeps_its_keys_in_order() {
    let mut m: TextMap<u32> = TextMap::new();
    for (k, v) in [("b", 1), ("a", 2), ("c", 3), ("a", 4)] {
        m.insert(k.to_string(), v);
    }
    let keys: Vec<&str> = (0..m.len()).map(|i| m.key(i).as_str()).collect();
    assert_eq!(keys, vec!["a", "b", "c"]);
    assert_eq!((m.get("a"), m.get("d")), (Some(&4), None));
    assert_eq!(*m.value(2), 3);
    m.remove("b");
    assert!(!m.contains("b") && m.contains("c"));
    m.remove("zz");
    assert_eq!(m.len(), 2);
}

#[test]
fn times_stop_at_their_ends() {
    assert_eq!(after(5, 7), 12);
    assert_eq!(after(i64::MAX, 1), i64::MAX);
    assert_eq!(after(i64::MIN, -1), i64::MIN);
    assert_eq!(since(12, 5), 7);
    assert_eq!(since(i64::MAX, i64::MIN), i64::MAX);
}
