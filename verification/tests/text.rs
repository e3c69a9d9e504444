use proxyrs::text::{
    chars_of, contains, eq_ignore_ascii_case, find, is_whitespace, push_decimal,
    read_i32, read_usize, split_at_char, string_of, trim,
};

fn text_chars(s: &str) -> Vec<char> {
    s.chars().collect()
}

fn text_string(s: &[char]) -> String {
    s.iter().collect()
}

#[test]
fn chars_and_strings_round_trip() {
    assert_eq!(chars_of("a\u{e9}\u{1f600}z"), vec!['a', '\u{e9}', '\u{1f600}', 'z']);
    assert_eq!(chars_of(""), Vec::<char>::new());
    assert_eq!(string_of(&['h', 'i', '\u{e9}']), "hi\u{e9}");
    assert_eq!(string_of(&[]), "");
}

#[test]
fn whitespace_is_what_unicode_says() {
    for c in ['\t', '\n', '\u{b}', '\u{c}', '\r', ' ', '\u{85}', '\u{a0}', '\u{1680}', '\u{2000}',
        '\u{200a}', '\u{2028}', '\u{2029}', '\u{202f}', '\u{205f}', '\u{3000}']
    {
        assert!(is_whitespace(c));
        assert!(c.is_whitespace());
    }
    for c in ['a', '0', '\u{8}', '\u{e}', '\u{200b}', '\u{feff}', '_'] {
        assert!(!is_whitespace(c));
        assert!(!c.is_whitespace());
    }
}

#[test]
fn whitespace_agrees_with_std_on_every_char() {
    let mut code: u32 = 0;
    while code <= 0x10ffff {
        if let Some(c) = char::from_u32(code) {
            assert_eq!(is_whitespace(c), c.is_whitespace());
        }
        code += 1;
    }
}

#[test]
fn trim_removes_both_ends_only() {
    assert_eq!(text_string(trim(&text_chars(" \t ab c \r\n"))), "ab c");
    assert_eq!(text_string(trim(&text_chars("abc"))), "abc");
    assert_eq!(text_string(trim(&text_chars("   "))), "");
    assert_eq!(text_string(trim(&text_chars(""))), "");
    assert_eq!(text_string(trim(&text_chars("\u{3000}x\u{a0}"))), "x");
}

#[test]
fn trim_agrees_with_std() {
    for s in ["", " ", "a", " a", "a ", "  a  b  ", "\n\ta\r\n", "\u{2003}x y\u{2003}"] {
        assert_eq!(text_string(trim(&text_chars(s))), s.trim());
    }
}

#[test]
fn find_gives_first_index_or_length() {
    assert_eq!(find(&text_chars("a:b:c"), ':'), 1);
    assert_eq!(find(&text_chars(":"), ':'), 0);
    assert_eq!(find(&text_chars("abc"), ':'), 3);
    assert_eq!(find(&text_chars(""), ':'), 0);
}

#[test]
fn split_keeps_empty_pieces() {
    let s = text_chars("a,b,,c");
    let pieces: Vec<String> = split_at_char(&s, ',').into_iter().map(text_string).collect();
    assert_eq!(pieces, vec!["a", "b", "", "c"]);
    let s = text_chars("");
    let pieces: Vec<String> = split_at_char(&s, ',').into_iter().map(text_string).collect();
    assert_eq!(pieces, vec![""]);
    let s = text_chars(",");
    let pieces: Vec<String> = split_at_char(&s, ',').into_iter().map(text_string).collect();
    assert_eq!(pieces, vec!["", ""]);
    let s = text_chars("abc");
    let pieces: Vec<String> = split_at_char(&s, ',').into_iter().map(text_string).collect();
    assert_eq!(pieces, vec!["abc"]);
}

#[test]
fn split_agrees_with_std() {
    for s in ["", "+", "1+2", "+1+", "a++b", "1 + 2*ps[3] + 4"] {
        let c = text_chars(s);
        let ours: Vec<String> = split_at_char(&c, '+').into_iter().map(text_string).collect();
        let std: Vec<String> = s.split('+').map(String::from).collect();
        assert_eq!(ours, std);
    }
}

#[test]
fn contains_finds_a_run_anywhere() {
    assert!(contains(&text_chars("hello"), &text_chars("ll")));
    assert!(contains(&text_chars("hello"), &text_chars("hello")));
    assert!(contains(&text_chars("hello"), &text_chars("")));
    assert!(contains(&text_chars(""), &text_chars("")));
    assert!(contains(&text_chars("3*ps[4]"), &text_chars("*ps[")));
    assert!(!contains(&text_chars("hello"), &text_chars("lo!")));
    assert!(!contains(&text_chars(""), &text_chars("a")));
    assert!(!contains(&text_chars("ab"), &text_chars("abc")));
    assert!(!contains(&text_chars("3*p s[4]"), &text_chars("*ps[")));
}

#[test]
fn read_i32_takes_sign_and_digits() {
    assert_eq!(read_i32(&text_chars("42")), Some(42));
    assert_eq!(read_i32(&text_chars("-7")), Some(-7));
    assert_eq!(read_i32(&text_chars("+5")), Some(5));
    assert_eq!(read_i32(&text_chars("0007")), Some(7));
    assert_eq!(read_i32(&text_chars("-0")), Some(0));
    assert_eq!(read_i32(&text_chars("2147483647")), Some(i32::MAX));
    assert_eq!(read_i32(&text_chars("-2147483648")), Some(i32::MIN));
    assert_eq!(read_i32(&text_chars("2147483648")), None);
    assert_eq!(read_i32(&text_chars("-2147483649")), None);
    assert_eq!(read_i32(&text_chars("99999999999999999999999999999999999999999")), None);
    assert_eq!(read_i32(&text_chars("")), None);
    assert_eq!(read_i32(&text_chars("+")), None);
    assert_eq!(read_i32(&text_chars("-")), None);
    assert_eq!(read_i32(&text_chars("12a")), None);
    assert_eq!(read_i32(&text_chars(" 1")), None);
    assert_eq!(read_i32(&text_chars("--1")), None);
    assert_eq!(read_i32(&text_chars("\u{661}")), None);
}

#[test]
fn read_i32_agrees_with_std() {
    for s in ["", "0", "-", "+", "+0", "-0", "1", "-1", "007", "2147483647", "2147483648",
        "-2147483648", "-2147483649", "1e3", "1.0", " 1", "1 ", "+-1", "\u{661}\u{662}\u{663}"]
    {
        assert_eq!(read_i32(&text_chars(s)), s.parse::<i32>().ok());
    }
}

#[test]
fn read_usize_takes_no_minus() {
    assert_eq!(read_usize(&text_chars("0")), Some(0));
    assert_eq!(read_usize(&text_chars("+3")), Some(3));
    assert_eq!(read_usize(&text_chars("22")), Some(22));
    assert_eq!(read_usize(&text_chars("-0")), None);
    assert_eq!(read_usize(&text_chars("-1")), None);
    assert_eq!(read_usize(&text_chars("")), None);
    assert_eq!(read_usize(&text_chars("+")), None);
    assert_eq!(read_usize(&text_chars("1x")), None);
    assert_eq!(read_usize(&text_chars(&usize::MAX.to_string())), Some(usize::MAX));
    assert_eq!(read_usize(&text_chars("340282366920938463463374607431768211456")), None);
}

#[test]
fn read_usize_agrees_with_std() {
    for s in ["", "0", "-", "+", "+0", "-0", "1", "-1", "007", "18446744073709551615",
        "18446744073709551616", " 1"]
    {
        assert_eq!(read_usize(&text_chars(s)), s.parse::<usize>().ok());
    }
}

#[test]
fn push_decimal_writes_base_ten() {
    let mut out = Vec::new();
    push_decimal(&mut out, 0);
    assert_eq!(text_string(&out), "0");
    let mut out = vec!['x'];
    push_decimal(&mut out, -120);
    assert_eq!(text_string(&out), "x-120");
    let mut out = Vec::new();
    push_decimal(&mut out, i32::MIN);
    assert_eq!(text_string(&out), "-2147483648");
    let mut out = Vec::new();
    push_decimal(&mut out, i32::MAX);
    assert_eq!(text_string(&out), "2147483647");
    let mut out = Vec::new();
    push_decimal(&mut out, 1000);
    assert_eq!(text_string(&out), "1000");
}

#[test]
fn push_decimal_agrees_with_std() {
    for n in [0, 1, -1, 9, 10, 11, 99, 100, 255, 256, 65535, -65536, i32::MAX, i32::MIN] {
        let mut out = Vec::new();
        push_decimal(&mut out, n);
        assert_eq!(text_string(&out), n.to_string());
    }
}

#[test]
fn case_is_ignored_for_ascii_letters_only() {
    assert!(eq_ignore_ascii_case("us", "US"));
    assert!(eq_ignore_ascii_case("uS", "Us"));
    assert!(eq_ignore_ascii_case("", ""));
    assert!(eq_ignore_ascii_case("a1-b", "A1-B"));
    assert!(!eq_ignore_ascii_case("us", "usa"));
    assert!(!eq_ignore_ascii_case("us", "uk"));
    assert!(!eq_ignore_ascii_case("\u{e9}", "\u{c9}"));
    assert!(!eq_ignore_ascii_case("@", "`"));
    assert!(!eq_ignore_ascii_case("[", "{"));
}

#[test]
fn case_comparison_agrees_with_std() {
    let samples = ["", "a", "A", "z", "Z", "@", "`", "[", "{", "us", "US", "Us", "\u{e9}", "\u{c9}", "k", "K"];
    for a in samples {
        for b in samples {
            assert_eq!(eq_ignore_ascii_case(a, b), a.eq_ignore_ascii_case(b));
        }
    }
}
