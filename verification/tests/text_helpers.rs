use yunxi_webdisk::text::{
    chars_lt, chars_of, contains_char, find_char, find_last_char, parse_bounded, push_decimal, push_str,
    same_chars, split_chars, str_eq, str_lt, string_of,
};

fn chars(s: &str) -> Vec<char> {
    s.chars().collect()
}

#[test]
fn strings_and_characters_convert_both_ways() {
    for s in ["", "abc", "你好, world", "a\u{0301}", "🖼\u{fe0f}"] {
        assert_eq!(chars_of(s), chars(s));
        assert_eq!(string_of(&chars(s)), s);
    }
}

#[test]
fn equality_and_order_are_those_of_str() {
    let samples = ["", "a", "A", "ab", "abc", "abd", "b", "é", "z", "中", "🙂", "a\u{0}", "\u{ffff}", "\u{10000}"];
    for x in samples {
        for y in samples {
            assert_eq!(str_eq(x, y), x == y, "{:?} {:?}", x, y);
            assert_eq!(str_lt(x, y), x < y, "{:?} {:?}", x, y);
            assert_eq!(same_chars(&chars(x), &chars(y)), x == y);
            assert_eq!(chars_lt(&chars(x), &chars(y)), x < y);
        }
    }
}

#[test]
fn finding_characters() {
    let s = chars("a:b:c");
    assert_eq!(find_char(&s, ':'), Some(1));
    assert_eq!(find_last_char(&s, ':'), Some(3));
    assert_eq!(find_char(&s, 'x'), None);
    assert_eq!(find_last_char(&s, 'x'), None);
    assert_eq!(find_char(&[], ':'), None);
    assert!(contains_char(&s, 'c'));
    assert!(!contains_char(&s, 'd'));
}

#[test]
fn splitting_agrees_with_str_split() {
    for s in ["", "a", ".", "a.b", "a..b", ".a.", "...", "1.2.3.4", "x.é.z"] {
        let got: Vec<String> = split_chars(&chars(s), '.').iter().map(|p| p.iter().collect()).collect();
        let expected: Vec<String> = s.split('.').map(|p| p.to_string()).collect();
        assert_eq!(got, expected, "{:?}", s);
    }
}

#[test]
fn decimal_rendering() {
    for n in [0u128, 1, 9, 10, 11, 99, 100, 1234567890, u64::MAX as u128, u128::MAX] {
        let mut out = chars("n=");
        push_decimal(&mut out, n);
        assert_eq!(string_of(&out), format!("n={}", n));
    }
    let mut out = chars("x");
    push_str(&mut out, "yz");
    push_str(&mut out, "");
    assert_eq!(string_of(&out), "xyz");
}

#[test]
fn bounded_numbers() {
    assert_eq!(parse_bounded(&chars("0"), 255), Some(0));
    assert_eq!(parse_bounded(&chars("255"), 255), Some(255));
    assert_eq!(parse_bounded(&chars("256"), 255), None);
    assert_eq!(parse_bounded(&chars("0000255"), 255), Some(255));
    assert_eq!(parse_bounded(&chars(""), 255), None);
    assert_eq!(parse_bounded(&chars("1a"), 255), None);
    assert_eq!(parse_bounded(&chars("2560a"), 255), None);
    assert_eq!(parse_bounded(&chars("4294967295"), u32::MAX), Some(u32::MAX));
    assert_eq!(parse_bounded(&chars("4294967296"), u32::MAX), None);
    assert_eq!(parse_bounded(&chars("١٢"), 255), None);
}
