use noita_saves::text::{chars_of, count_lines, decimal_text, parse_digits, str_eq, to_upper};

fn parse(token: &str) -> Option<usize> {
    let chars = chars_of(token);
    parse_digits(&chars, 0, chars.len())
}

#[test]
fn count_lines_counts_one_more_than_the_newlines() {
    assert_eq!(count_lines(""), 1);
    assert_eq!(count_lines("abc"), 1);
    assert_eq!(count_lines("a\nb"), 2);
    assert_eq!(count_lines("\n"), 2);
    assert_eq!(count_lines("a\n\nb\n"), 4);
}

#[test]
fn count_lines_agrees_with_split_on_newline() {
    for text in ["", "x", "x\ny", "\n\n\n", "Error:\nmessage", "\u{2503} a\n\u{2503} b"] {
        assert_eq!(count_lines(text), text.split('\n').count());
    }
}

#[test]
fn chars_of_gives_the_characters_in_order() {
    assert_eq!(chars_of("a\u{276f}b"), vec!['a', '\u{276f}', 'b']);
    assert_eq!(chars_of(""), Vec::<char>::new());
}

#[test]
fn str_eq_compares_by_characters() {
    assert!(str_eq("", ""));
    assert!(str_eq(".noita_saves_cache.json", ".noita_saves_cache.json"));
    assert!(!str_eq("abc", "abd"));
    assert!(!str_eq("abc", "ab"));
    assert!(!str_eq("ab", "abc"));
}

#[test]
fn parse_digits_reads_plain_numbers() {
    assert_eq!(parse("0"), Some(0));
    assert_eq!(parse("7"), Some(7));
    assert_eq!(parse("42"), Some(42));
    assert_eq!(parse("007"), Some(7));
}

#[test]
fn parse_digits_accepts_one_leading_plus() {
    assert_eq!(parse("+5"), Some(5));
    assert_eq!(parse("++5"), None);
    assert_eq!(parse("+"), None);
}

#[test]
fn parse_digits_rejects_what_is_no_number() {
    assert_eq!(parse(""), None);
    assert_eq!(parse("-1"), None);
    assert_eq!(parse("-"), None);
    assert_eq!(parse(" 1"), None);
    assert_eq!(parse("1 "), None);
    assert_eq!(parse("1_000"), None);
    assert_eq!(parse("12a"), None);
    assert_eq!(parse("\u{0661}"), None);
}

#[test]
fn parse_digits_rejects_numbers_that_do_not_fit() {
    let max = usize::MAX.to_string();
    assert_eq!(parse(&max), Some(usize::MAX));
    let mut too_large = max.clone();
    too_large.push('0');
    assert_eq!(parse(&too_large), None);
    let digits: Vec<char> = max.chars().collect();
    let last = digits[digits.len() - 1].to_digit(10).unwrap();
    if last < 9 {
        let mut next: String = digits[..digits.len() - 1].iter().collect();
        next.push(char::from_digit(last + 1, 10).unwrap());
        assert_eq!(parse(&next), None);
    }
}

#[test]
fn parse_digits_agrees_with_the_standard_parser() {
    for token in ["", "+", "-", "0", "+0", "-0", "12", "+12", "1.2", "..", "1..", "99999999999999999999999", "00000000000000000000000001"] {
        assert_eq!(parse(token), token.parse::<usize>().ok(), "token {:?}", token);
    }
}

#[test]
fn parse_digits_reads_a_part_of_the_characters() {
    let chars = chars_of("12..34");
    assert_eq!(parse_digits(&chars, 0, 2), Some(12));
    assert_eq!(parse_digits(&chars, 4, 6), Some(34));
    assert_eq!(parse_digits(&chars, 2, 4), None);
    assert_eq!(parse_digits(&chars, 3, 3), None);
}

#[test]
fn decimal_text_writes_numbers_without_leading_zeros() {
    assert_eq!(decimal_text(0), "0");
    assert_eq!(decimal_text(9), "9");
    assert_eq!(decimal_text(10), "10");
    assert_eq!(decimal_text(1234567890), "1234567890");
    assert_eq!(decimal_text(u64::MAX), u64::MAX.to_string());
}

#[test]
fn decimal_text_is_read_back_by_parse_digits() {
    for n in [0usize, 1, 9, 10, 99, 100, 12345, usize::MAX] {
        assert_eq!(parse(&decimal_text(n as u64)), Some(n));
    }
}

#[test]
fn to_upper_changes_small_ascii_letters_only() {
    assert_eq!(to_upper('a'), 'A');
    assert_eq!(to_upper('s'), 'S');
    assert_eq!(to_upper('z'), 'Z');
    assert_eq!(to_upper('A'), 'A');
    assert_eq!(to_upper('1'), '1');
    assert_eq!(to_upper('\u{e9}'), '\u{e9}');
}
