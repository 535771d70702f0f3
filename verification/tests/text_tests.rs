use guardrail::text::{
    contains_chars, find_chars, push_decimal, split_lines, to_chars, trim_chars, utf8_length,
};

fn chars(s: &str) -> Vec<char> {
    s.chars().collect()
}

#[test]
fn lines_split_like_str_lines() {
    for s in ["a\nb", "a\r\nb\r\n", "\n\nx", "x\r", "", "one"] {
        let got: Vec<String> = split_lines(&chars(s)).iter().map(|l| l.iter().collect()).collect();
        let want: Vec<String> = s.lines().map(|l| l.to_string()).collect();
        assert_eq!(got, want, "{:?}", s);
    }
}

#[test]
fn trim_matches_str_trim() {
    for s in ["  a b  ", "\t\n x \u{3000}", "", "   ", "x"] {
        let t: String = trim_chars(&chars(s)).into_iter().collect();
        assert_eq!(t, s.trim());
    }
}

#[test]
fn search_finds_the_first_occurrence() {
    assert_eq!(find_chars(&chars("abcabc"), &chars("ca")), Some(2));
    assert_eq!(find_chars(&chars("abc"), &chars("")), Some(0));
    assert_eq!(find_chars(&chars("abc"), &chars("d")), None);
    assert!(contains_chars(&chars("wasm trap: interrupt"), &chars("interrupt")));
}

#[test]
fn decimal_digits() {
    let mut v = to_chars("n=");
    push_decimal(&mut v, 0);
    push_decimal(&mut v, 1234567890);
    assert_eq!(v.iter().collect::<String>(), "n=01234567890");
}

#[test]
fn utf8_length_counts_bytes() {
    assert_eq!(utf8_length(&chars("aé—😀")), 1 + 2 + 3 + 4);
}
