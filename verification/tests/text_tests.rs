use rust_http_server::text::{
    chars_of, decimal, eq_ignore_ascii_case, find, find_pair, is_whitespace, lines, push_decimal,
    split_whitespace, str_eq, string_of, to_ascii_lower, trim,
};

fn chars(s: &str) -> Vec<char> {
    s.chars().collect()
}

fn text(c: &[char]) -> String {
    c.iter().collect()
}

const SAMPLES: [&str; 24] = [
    "",
    " ",
    "a",
    "  a  ",
    "\ta b\r\n",
    "GET / HTTP/1.1",
    "GET / HTTP/1.1\r\nHost: localhost\r\n\r\n",
    "a\nb",
    "a\n",
    "\n",
    "\n\n",
    "a\r",
    "a\r\n\rb\r",
    "\r\n",
    "a\r\r\nb",
    "one\u{a0}two\u{2003}three",
    "\u{3000}wide\u{3000}",
    "\u{85}next\u{2028}line\u{2029}",
    "Key: value",
    "Key:value:more",
    "no colon here",
    ": ",
    "trailing \n \n",
    "\u{feff}bom \u{200b}zero",
];

#[test]
fn whitespace_is_the_unicode_property_for_every_char() {
    let mut code: u32 = 0;
    while code <= 0x10ffff {
        if let Some(c) = char::from_u32(code) {
            assert_eq!(is_whitespace(c), c.is_whitespace(), "U+{:04X}", code);
        }
        code += 1;
    }
}

#[test]
fn whitespace_named_code_points() {
    for c in [' ', '\t', '\n', '\r', '\u{b}', '\u{c}', '\u{85}', '\u{a0}', '\u{1680}', '\u{2000}',
        '\u{200a}', '\u{2028}', '\u{2029}', '\u{202f}', '\u{205f}', '\u{3000}']
    {
        assert!(is_whitespace(c));
    }
    for c in ['a', '0', '\0', '\u{8}', '\u{e}', '\u{200b}', '\u{180e}', '\u{feff}', '\u{1f}'] {
        assert!(!is_whitespace(c));
    }
}

#[test]
fn trim_agrees_with_str_trim() {
    for s in SAMPLES {
        let cs = chars(s);
        assert_eq!(text(trim(&cs)), s.trim(), "{:?}", s);
    }
}

#[test]
fn trim_exact_values() {
    assert_eq!(text(trim(&chars("  a b \t"))), "a b");
    assert_eq!(text(trim(&chars(" \r\n "))), "");
    assert_eq!(text(trim(&chars(""))), "");
    assert_eq!(text(trim(&chars("x"))), "x");
}

#[test]
fn lines_agree_with_str_lines() {
    for s in SAMPLES {
        let cs = chars(s);
        let got: Vec<String> = lines(&cs).into_iter().map(text).collect();
        let want: Vec<String> = s.lines().map(|l| l.to_string()).collect();
        assert_eq!(got, want, "{:?}", s);
    }
}

#[test]
fn lines_exact_values() {
    let cs = chars("a\r\nb\n\nc\r");
    let got: Vec<String> = lines(&cs).into_iter().map(text).collect();
    assert_eq!(got, vec!["a", "b", "", "c\r"]);
    assert!(lines(&chars("")).is_empty());
    let one: Vec<String> = lines(&chars("\n")).into_iter().map(text).collect();
    assert_eq!(one, vec![""]);
}

#[test]
fn words_agree_with_split_whitespace() {
    for s in SAMPLES {
        let cs = chars(s);
        let got: Vec<String> = split_whitespace(&cs).into_iter().map(text).collect();
        let want: Vec<String> = s.split_whitespace().map(|l| l.to_string()).collect();
        assert_eq!(got, want, "{:?}", s);
    }
}

#[test]
fn words_exact_values() {
    let cs = chars("  GET   /index.html\tHTTP/1.1 extra ");
    let got: Vec<String> = split_whitespace(&cs).into_iter().map(text).collect();
    assert_eq!(got, vec!["GET", "/index.html", "HTTP/1.1", "extra"]);
    assert!(split_whitespace(&chars(" \t ")).is_empty());
}

#[test]
fn find_gives_first_position_or_length() {
    assert_eq!(find(&chars("a:b:c"), ':'), 1);
    assert_eq!(find(&chars(":"), ':'), 0);
    assert_eq!(find(&chars("abc"), ':'), 3);
    assert_eq!(find(&chars(""), ':'), 0);
    for s in SAMPLES {
        let want = s.chars().position(|c| c == ':').unwrap_or(s.chars().count());
        assert_eq!(find(&chars(s), ':'), want, "{:?}", s);
    }
}

#[test]
fn find_pair_gives_first_position_or_length() {
    assert_eq!(find_pair(&chars("a: b"), ':', ' '), 1);
    assert_eq!(find_pair(&chars("a:b: c"), ':', ' '), 3);
    assert_eq!(find_pair(&chars("a:b"), ':', ' '), 3);
    assert_eq!(find_pair(&chars("a:"), ':', ' '), 2);
    assert_eq!(find_pair(&chars(""), ':', ' '), 0);
    assert_eq!(find_pair(&chars(": "), ':', ' '), 0);
}

#[test]
fn ascii_lower_maps_only_ascii_capitals() {
    assert_eq!(to_ascii_lower('A'), 'a');
    assert_eq!(to_ascii_lower('Z'), 'z');
    assert_eq!(to_ascii_lower('a'), 'a');
    assert_eq!(to_ascii_lower('@'), '@');
    assert_eq!(to_ascii_lower('['), '[');
    assert_eq!(to_ascii_lower('É'), 'É');
    let mut code: u32 = 0;
    while code <= 0x10ffff {
        if let Some(c) = char::from_u32(code) {
            assert_eq!(to_ascii_lower(c), c.to_ascii_lowercase());
        }
        code += 1;
    }
}

#[test]
fn case_insensitive_equality_is_ascii_only() {
    assert!(eq_ignore_ascii_case(&chars("Content-Type"), &chars("content-type")));
    assert!(eq_ignore_ascii_case(&chars("CONTENT-TYPE"), &chars("cOnTeNt-TyPe")));
    assert!(eq_ignore_ascii_case(&chars(""), &chars("")));
    assert!(!eq_ignore_ascii_case(&chars("Content-Type"), &chars("Content-Typ")));
    assert!(!eq_ignore_ascii_case(&chars("Content-Type"), &chars("Content_Type")));
    assert!(!eq_ignore_ascii_case(&chars("É"), &chars("é")));
    for a in SAMPLES {
        for b in SAMPLES {
            assert_eq!(eq_ignore_ascii_case(&chars(a), &chars(b)), a.eq_ignore_ascii_case(b));
        }
    }
}

#[test]
fn decimal_exact_values() {
    assert_eq!(decimal(0), "0");
    assert_eq!(decimal(7), "7");
    assert_eq!(decimal(10), "10");
    assert_eq!(decimal(404), "404");
    assert_eq!(decimal(65535), "65535");
    assert_eq!(decimal(usize::MAX), usize::MAX.to_string());
    let mut n: usize = 0;
    while n < 2000 {
        assert_eq!(decimal(n), n.to_string());
        n += 1;
    }
}

#[test]
fn push_decimal_appends() {
    let mut s = String::from("n=");
    push_decimal(&mut s, 1203);
    assert_eq!(s, "n=1203");
    push_decimal(&mut s, 0);
    assert_eq!(s, "n=12030");
}

#[test]
fn str_eq_compares_characters() {
    assert!(str_eq("GET", "GET"));
    assert!(!str_eq("GET", "GEt"));
    assert!(!str_eq("GET", "GETS"));
    assert!(str_eq("", ""));
    assert!(str_eq("héllo", "héllo"));
    assert!(!str_eq("héllo", "hèllo"));
}

#[test]
fn chars_and_strings_convert_both_ways() {
    for s in SAMPLES {
        assert_eq!(chars_of(s), chars(s));
        assert_eq!(string_of(&chars(s)), s);
    }
    assert_eq!(chars_of("héllo"), vec!['h', 'é', 'l', 'l', 'o']);
    assert_eq!(string_of(&['a', '\u{1f600}', 'b']), "a\u{1f600}b");
}
