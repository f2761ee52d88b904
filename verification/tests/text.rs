use rusty_fem::text::{
    chars_of, parse_usize_chars, split_whitespace_chars, string_from_chars, trim_chars, usize_to_decimal,
};

fn chars(s: &str) -> Vec<char> {
    s.chars().collect()
}

#[test]
fn decimal_text_round_trips() {
    for n in [0usize, 7, 10, 1234567890, usize::MAX] {
        let text = usize_to_decimal(n);
        assert_eq!(string_from_chars(&text), n.to_string());
        assert_eq!(parse_usize_chars(&text), Some(n));
    }
}

#[test]
fn splits_on_unicode_whitespace() {
    let fields = split_whitespace_chars(&chars("  a\tbc\u{00a0}d \n"));

    assert_eq!(fields, vec![chars("a"), chars("bc"), chars("d")]);
}

#[test]
fn trims_both_ends() {
    assert_eq!(trim_chars(&chars(" \t x y \n")), chars("x y"));
    assert_eq!(chars_of("héllo"), chars("héllo"));
}
