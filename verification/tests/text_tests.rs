use planner::text::{parse_i32, replace_str, split_str, starts_with, str_eq, trim_str, white_space};

#[test]
fn parse_i32_agrees_with_std() {
    let inputs = [
        "0", "7", "-7", "+7", "2024", "05", "-0", "", "-", "+", "+-1", "1a", " 1", "1 ",
        "2147483647", "2147483648", "-2147483648", "-2147483649", "99999999999", "٣", "00000000012",
    ];
    for s in inputs.iter() {
        assert_eq!(parse_i32(s), s.parse::<i32>().ok(), "input {:?}", s);
    }
}

#[test]
fn split_agrees_with_std() {
    let inputs = ["", "a", "a-b", "-a-", "--", "2024-05-06", "x-y-z-w", "é-ü"];
    for s in inputs.iter() {
        let expected: Vec<&str> = s.split('-').collect();
        assert_eq!(split_str(s, '-'), expected);
    }
}

#[test]
fn trim_agrees_with_std() {
    let inputs = ["", "  ", " a ", "\t\nselect 1\r\n", "\u{3000}x\u{2009}", "a b", "\u{85}z\u{a0}"];
    for s in inputs.iter() {
        assert_eq!(trim_str(s), s.trim());
    }
    for c in ['\u{0}', ' ', '\u{1680}', '\u{200b}', '\u{feff}', 'x', '\u{2028}'] {
        assert_eq!(white_space(c), c.is_whitespace(), "char {:?}", c);
    }
}

#[test]
fn replace_agrees_with_std() {
    let cases = [
        ("", "$T$", "x"),
        ("$T$", "$T$", "title"),
        ("a $T$ b $T$$T$", "$T$", "Z"),
        ("$T$T$", "$T$", "Q"),
        ("aaaa", "aa", "b"),
        ("no macro", "$T$", "x"),
    ];
    for (s, p, r) in cases.iter() {
        assert_eq!(replace_str(s, p, r), s.replace(p, r));
    }
}

#[test]
fn prefixes_and_equality() {
    assert!(starts_with("delete=task", "delete"));
    assert!(!starts_with("del", "delete"));
    assert!(starts_with("x", ""));
    assert!(str_eq("abc", "abc"));
    assert!(!str_eq("abc", "abd"));
    assert!(!str_eq("abc", "ab"));
}
