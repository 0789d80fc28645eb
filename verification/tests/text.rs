use feth::text::{
    begins_with, chars_of, contains, decimal_of, find_char, found_at, found_in, pad_left,
    parse_u32, parse_u64, same_chars, same_text, slice_of, split_chars, string_of, trim,
};

fn c(s: &str) -> Vec<char> {
    s.chars().collect()
}

#[test]
fn texts_and_characters_go_back_and_forth() {
    for s in ["", "a", "hello", "größer ✓ 漢字"] {
        assert_eq!(chars_of(s), c(s));
        assert_eq!(string_of(&c(s)), s);
    }
}

#[test]
fn same_means_the_same_characters() {
    assert!(same_text("", ""));
    assert!(same_text("abc", "abc"));
    assert!(!same_text("abc", "abd"));
    assert!(!same_text("abc", "ab"));
    assert!(!same_text("ab", "abc"));
    assert!(same_chars(&c("ö"), &c("ö")));
    assert!(!same_chars(&c("o"), &c("ö")));
}

#[test]
fn a_part_is_found_where_it_stands() {
    assert!(contains("hello world", "o w"));
    assert!(contains("hello world", "hello"));
    assert!(contains("hello world", "world"));
    assert!(contains("hello world", "hello world"));
    assert!(contains("hello world", ""));
    assert!(contains("", ""));
    assert!(!contains("", "a"));
    assert!(!contains("hello world", "worlds"));
    assert!(!contains("hello", "hello world"));
    assert!(!contains("aab", "abb"));
    assert!(contains("aaab", "aab"));
    assert!(found_in(&c("xäy"), &c("ä")));
}

#[test]
fn a_part_is_looked_for_at_one_place() {
    let whole = c("abcabc");
    assert!(found_at(&whole, &c("abc"), 0));
    assert!(found_at(&whole, &c("abc"), 3));
    assert!(!found_at(&whole, &c("abc"), 1));
    assert!(!found_at(&whole, &c("abc"), 4));
    assert!(found_at(&whole, &c(""), 6));
    assert!(!found_at(&whole, &c(""), 7));
    assert!(!found_at(&whole, &c("abc"), usize::MAX));
    assert!(begins_with(&whole, &c("ab")));
    assert!(!begins_with(&whole, &c("b")));
    assert!(begins_with(&whole, &c("")));
}

#[test]
fn slices_and_positions() {
    let s = c("a,bc,,d");
    assert_eq!(slice_of(&s, 2, 4), c("bc"));
    assert_eq!(slice_of(&s, 0, 0), c(""));
    assert_eq!(slice_of(&s, 0, 7), s);
    assert_eq!(find_char(&s, ',', 0), 1);
    assert_eq!(find_char(&s, ',', 1), 1);
    assert_eq!(find_char(&s, ',', 2), 4);
    assert_eq!(find_char(&s, ',', 5), 5);
    assert_eq!(find_char(&s, ',', 6), 7);
    assert_eq!(find_char(&s, 'x', 0), 7);
    assert_eq!(find_char(&s, ',', 7), 7);
}

#[test]
fn a_text_is_split_where_the_separator_stands() {
    let pieces = |s: &str| -> Vec<String> {
        split_chars(&c(s), ',').iter().map(|p| p.iter().collect()).collect()
    };
    assert_eq!(pieces("a,bc,,d"), vec!["a", "bc", "", "d"]);
    assert_eq!(pieces(""), vec![""]);
    assert_eq!(pieces("abc"), vec!["abc"]);
    assert_eq!(pieces(","), vec!["", ""]);
    assert_eq!(pieces("a,"), vec!["a", ""]);
    assert_eq!(pieces(",a"), vec!["", "a"]);
    for s in ["a,bc,,d", "", ",", ",,", "x", "1,2,3,"] {
        let want: Vec<String> = s.split(',').map(|p| p.to_string()).collect();
        assert_eq!(pieces(s), want);
    }
}

#[test]
fn numbers_are_read_as_the_language_reads_them() {
    for s in [
        "0", "7", "42", "007", "+5", "+0", "", "+", "-", "-1", "++1", "1+", " 1", "1 ", "1_000",
        "0x10", "12a", "٣", "18446744073709551615", "18446744073709551616",
        "99999999999999999999999", "4294967295", "4294967296", "+4294967295",
        "00000000000000000000000000001",
    ] {
        assert_eq!(parse_u64(&c(s)), s.parse::<u64>().ok(), "u64 of {:?}", s);
        assert_eq!(parse_u32(&c(s)), s.parse::<u32>().ok(), "u32 of {:?}", s);
    }
}

#[test]
fn numbers_have_exact_values() {
    assert_eq!(parse_u64(&c("18446744073709551615")), Some(u64::MAX));
    assert_eq!(parse_u64(&c("18446744073709551616")), None);
    assert_eq!(parse_u32(&c("4294967295")), Some(u32::MAX));
    assert_eq!(parse_u32(&c("4294967296")), None);
    assert_eq!(parse_u64(&c("+12")), Some(12));
}

#[test]
fn numbers_are_written_without_leading_zeros() {
    for n in [0u64, 1, 9, 10, 11, 99, 100, 12345, 1_000_000_007, u32::MAX as u64, u64::MAX] {
        assert_eq!(decimal_of(n), c(&n.to_string()));
        assert_eq!(parse_u64(&decimal_of(n)), Some(n));
    }
}

#[test]
fn padding_fills_up_in_front() {
    assert_eq!(pad_left(&c("7"), 2, '0'), c("07"));
    assert_eq!(pad_left(&c("7"), 3, '0'), c("007"));
    assert_eq!(pad_left(&c("17"), 2, '0'), c("17"));
    assert_eq!(pad_left(&c("117"), 2, '0'), c("117"));
    assert_eq!(pad_left(&c(""), 2, 'x'), c("xx"));
    assert_eq!(pad_left(&c("7"), 0, '0'), c("7"));
    assert_eq!(string_of(&pad_left(&decimal_of(5), 2, '0')), format!("{:0>2}", 5));
    assert_eq!(string_of(&pad_left(&decimal_of(1234), 3, '0')), format!("{:0>3}", 1234));
}

#[test]
fn trimming_takes_the_white_space_off_both_ends() {
    assert_eq!(trim("  a b  "), "a b");
    assert_eq!(trim("\t\r\n a\u{b}\u{c}"), "a");
    assert_eq!(trim("a"), "a");
    assert_eq!(trim(""), "");
    assert_eq!(trim("   "), "");
    assert_eq!(trim(" \u{a0}\u{2003}x y\u{3000}\u{85}"), "x y");
    assert_eq!(trim("\u{200b}x\u{200b}"), "\u{200b}x\u{200b}");
    assert_eq!(trim(" é "), "é");
}

#[test]
fn six_characters_of_ascii_are_white_space() {
    let mut spaces = vec![];
    for code in 0u8..128 {
        let c = code as char;
        let text = format!("{}x{}", c, c);
        assert_eq!(trim(&text), text.trim(), "around {:?}", c);
        if trim(&c.to_string()).is_empty() {
            spaces.push(c);
        }
    }
    assert_eq!(spaces, vec!['\t', '\n', '\u{b}', '\u{c}', '\r', ' ']);
}

#[test]
fn trimming_is_that_of_the_language_for_every_character() {
    for code in 0u32..=0x10ffff {
        if let Some(c) = char::from_u32(code) {
            let text = format!("{}a{}", c, c);
            assert_eq!(trim(&text), text.trim(), "around {:?}", c);
        }
    }
}
