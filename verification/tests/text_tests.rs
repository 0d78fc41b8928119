use neobot::number::{decimal_text_i64, decimal_text_u64, parse_i32_text, parse_u32_text, parse_u64_text};
use neobot::text::{chars_of, contains_chars, join_from, split_words, string_of, trim_chars};

fn s(v: &str) -> String {
    v.to_string()
}

#[test]
fn words_split_on_any_whitespace() {
    let c = chars_of("n:  loop\tstart  100 say\u{3000}hi ");
    let w = split_words(&c, 2);
    assert_eq!(w, vec![s("loop"), s("start"), s("100"), s("say"), s("hi")]);
}

#[test]
fn words_of_blank_text_are_none() {
    let c = chars_of("   \n ");
    assert!(split_words(&c, 0).is_empty());
}

#[test]
fn join_from_middle_and_past_end() {
    let parts = vec![s("a"), s("b"), s("c")];
    assert_eq!(join_from(&parts, 1, " "), "b c");
    assert_eq!(join_from(&parts, 3, " "), "");
    assert_eq!(join_from(&parts, 7, " "), "");
    assert_eq!(join_from(&parts, 0, ","), "a,b,c");
}

#[test]
fn trim_both_ends() {
    let t = trim_chars(&chars_of("  x y \t"));
    assert_eq!(string_of(&t), "x y");
    let t = trim_chars(&chars_of(" \n "));
    assert_eq!(string_of(&t), "");
}

#[test]
fn contains_finds_blocks() {
    assert!(contains_chars(&chars_of("[x] Command set: say"), &chars_of("Command set: ")));
    assert!(!contains_chars(&chars_of("Command set:"), &chars_of("Command set: ")));
    assert!(contains_chars(&chars_of("abc"), &chars_of("")));
}

#[test]
fn decimal_texts() {
    assert_eq!(string_of(&decimal_text_u64(0)), "0");
    assert_eq!(string_of(&decimal_text_u64(18446744073709551615)), "18446744073709551615");
    assert_eq!(string_of(&decimal_text_i64(-2147483648)), "-2147483648");
    assert_eq!(string_of(&decimal_text_i64(i64::MIN)), "-9223372036854775808");
    assert_eq!(string_of(&decimal_text_i64(705)), "705");
}

#[test]
fn parse_as_std_does() {
    for t in ["0", "+7", "-0", "-7", "2147483647", "-2147483648", "2147483648", "", "+", "-", "1a", " 1", "+-1", "007"] {
        assert_eq!(parse_i32_text(t), t.parse::<i32>().ok(), "i32 {:?}", t);
        assert_eq!(parse_u32_text(t), t.parse::<u32>().ok(), "u32 {:?}", t);
        assert_eq!(parse_u64_text(t), t.parse::<u64>().ok(), "u64 {:?}", t);
    }
    assert_eq!(parse_u64_text("18446744073709551615"), Some(u64::MAX));
    assert_eq!(parse_u64_text("18446744073709551616"), None);
    assert_eq!(parse_u64_text("99999999999999999999999"), None);
    assert_eq!(parse_u32_text("4294967296"), None);
}

#[test]
fn parse_reads_back_decimal() {
    for n in [0i64, 1, -1, 42, -2147483648, 2147483647] {
        let t = string_of(&decimal_text_i64(n));
        assert_eq!(parse_i32_text(&t), Some(n as i32));
    }
}

#[test]
fn whitespace_as_std_sees_it() {
    for u in 0u32..0x3100 {
        if let Some(c) = char::from_u32(u) {
            assert_eq!(neobot::text::char_is_whitespace(c), c.is_whitespace(), "{:?}", c);
        }
    }
    assert!(!neobot::text::char_is_whitespace('\u{feff}'));
}
