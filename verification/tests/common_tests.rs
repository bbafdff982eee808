use mol_swatter::common::{
    char_x, is_char_digit, is_next_char_numeric, is_next_char_x, is_next_tag_x, not_newline,
    not_numeric, not_whitespace, not_x, parse_i32, peek_digit, tag_x, whitespace,
};

#[test]
fn test_not_whitespace() {
    assert_eq!(
        not_whitespace("parsesUpToTheFirstSpace here"),
        Ok((" here", "parsesUpToTheFirstSpace"))
    );
    let mut and_str = "Hello there";
    match not_whitespace(and_str) {
        Err(_) => {}
        Ok(x) => {
            and_str = x.0;
        }
    }
    println!("{}", and_str);
    assert_eq!(and_str, " there");
}

#[test]
fn test_not_x() {
    assert_eq!(
        not_x("parses up to the first x +here", "+3123"),
        Ok(("+here", "parses up to the first x "))
    );
}

#[test]
fn test_whitespace() {
    assert_eq!(whitespace("   here"), Ok(("here", "   ")));
    let mut and_str = " Hello there";
    match whitespace(and_str) {
        Err(_) => {}
        Ok(x) => {
            and_str = x.0;
        }
    }
    println!("{}", and_str);
    assert_eq!(and_str, "Hello there");
    let res = whitespace("  hello");
    println!("{}", res.unwrap().0);
}

#[test]
fn test_not_newline() {
    assert_eq!(
        not_newline("parses up to the first newline\nhere"),
        Ok(("here", "parses up to the first newline"))
    );
}

#[test]
fn test_tag_x() {
    let res = tag_x("Prague", "Jason Bourne");
    assert!(res.is_err());
    let res = tag_x("harry potter", "harry ");
    assert_eq!(res.unwrap().0, "potter");
}

#[test]
fn test_is_next_char_numeric() {
    let result = is_next_char_numeric("1Hello");
    assert!(result);
    let result = is_next_char_numeric("1111fhdskafh");
    assert!(result);
    let result = is_next_char_numeric("hello");
    assert_eq!(result, false);
}

#[test]
fn test_parse_i32() {
    assert_eq!(parse_i32("   1  "), Ok(("  ", 1)));
    assert_eq!(parse_i32("12312   "), Ok(("   ", 12312)));
}

#[test]
fn test_is_next_char() {
    assert!(is_next_char_x("jason bourne", 'j'));
    assert_eq!(is_next_char_x("figero_hello", 'c'), false);
}

#[test]
fn test_not_numeric() {
    assert_eq!(not_numeric("420.69here"), Ok(("here", "420.69")));
}

#[test]
fn not_x_edges() {
    // nothing to take
    assert!(not_x("", "abc").is_err());
    assert!(not_x("abc", "a").is_err());
    // no character of the set: everything is taken
    assert_eq!(not_x("Nospace", " \t"), Ok(("", "Nospace")));
    assert_eq!(not_x("abc", ""), Ok(("", "abc")));
    // characters of more than one byte
    assert_eq!(not_x("«alpha»-ethyl", "-"), Ok(("-ethyl", "«alpha»")));
    assert_eq!(not_x("ab»cd", "»"), Ok(("»cd", "ab")));
}

#[test]
fn not_whitespace_stops_at_blank_tab_and_line_feed() {
    assert_eq!(not_whitespace("ab\tcd"), Ok(("\tcd", "ab")));
    assert_eq!(not_whitespace("ab\ncd"), Ok(("\ncd", "ab")));
    assert_eq!(not_whitespace("ab\rcd ef"), Ok((" ef", "ab\rcd")));
    assert!(not_whitespace(" ab").is_err());
    assert!(not_whitespace("\nab").is_err());
    assert!(not_whitespace("").is_err());
}

#[test]
fn whitespace_takes_blanks_and_tabs_only() {
    assert_eq!(whitespace(" \t \nx"), Ok(("\nx", " \t ")));
    assert_eq!(whitespace("  "), Ok(("", "  ")));
    assert!(whitespace("\n ").is_err());
    assert!(whitespace("x ").is_err());
    assert!(whitespace("").is_err());
}

#[test]
fn not_newline_needs_a_line_that_is_not_empty_and_ends() {
    assert_eq!(not_newline("a\n"), Ok(("", "a")));
    assert_eq!(not_newline("a\n\nb"), Ok(("\nb", "a")));
    assert!(not_newline("\nabc").is_err());
    assert!(not_newline("abc").is_err());
    assert!(not_newline("").is_err());
}

#[test]
fn char_x_takes_one_character() {
    assert_eq!(char_x("abc", 'a'), Ok(("bc", 'a')));
    assert_eq!(char_x("»x", '»'), Ok(("x", '»')));
    assert!(char_x("abc", 'b').is_err());
    assert!(char_x("", 'a').is_err());
}

#[test]
fn tag_x_takes_a_prefix() {
    assert_eq!(tag_x("##TITLE=WATER", "##"), Ok(("TITLE=WATER", "##")));
    assert_eq!(tag_x("abc", ""), Ok(("abc", "")));
    assert_eq!(tag_x("abc", "abc"), Ok(("", "abc")));
    assert!(tag_x("ab", "abc").is_err());
    assert!(tag_x("", "a").is_err());
    assert!(is_next_tag_x("##END=", "##END"));
    assert!(is_next_tag_x("anything", ""));
    assert!(!is_next_tag_x("#END", "##END"));
    assert!(!is_next_tag_x("", "##END"));
}

#[test]
fn peek_digit_takes_nothing() {
    assert_eq!(peek_digit("123abc"), Ok(("123abc", "123")));
    assert_eq!(peek_digit("7"), Ok(("7", "7")));
    assert!(peek_digit("abc1").is_err());
    assert!(peek_digit("-1").is_err());
    assert!(peek_digit("").is_err());
    assert!(!is_next_char_numeric(""));
    assert!(!is_next_char_numeric(".5"));
    assert!(!is_next_char_numeric("٣"));
    assert!(is_next_char_numeric("0"));
}

#[test]
fn not_numeric_never_fails() {
    assert_eq!(not_numeric("here"), Ok(("here", "")));
    assert_eq!(not_numeric(""), Ok(("", "")));
    assert_eq!(not_numeric("1.2.3-4"), Ok(("-4", "1.2.3")));
    assert_eq!(not_numeric("..x"), Ok(("x", "..")));
    assert_eq!(not_numeric("12"), Ok(("", "12")));
}

#[test]
fn digits_and_full_stop_are_numeric() {
    for c in ['0', '1', '5', '9', '.'] {
        assert!(is_char_digit(c));
    }
    for c in ['/', ':', '-', '+', ' ', 'a', ',', '٣', '\u{ff11}', '\u{130}'] {
        assert!(!is_char_digit(c));
    }
}

#[test]
fn parse_i32_reads_signed_numbers() {
    assert_eq!(parse_i32("-17 x"), Ok((" x", -17)));
    assert_eq!(parse_i32("\t+5\n"), Ok(("\n", 5)));
    assert_eq!(parse_i32("007"), Ok(("", 7)));
    assert_eq!(parse_i32("2147483647 "), Ok((" ", i32::MAX)));
    assert_eq!(parse_i32("-2147483648 "), Ok((" ", i32::MIN)));
    assert_eq!(parse_i32("0"), Ok(("", 0)));
    assert_eq!(parse_i32("-0"), Ok(("", 0)));
}

#[test]
fn parse_i32_errors() {
    // no word
    assert!(parse_i32("").is_err());
    assert!(parse_i32("   ").is_err());
    assert!(parse_i32("  \n12").is_err());
    // a word that is no number
    assert!(parse_i32("abc").is_err());
    assert!(parse_i32("12a 3").is_err());
    assert!(parse_i32("1.5").is_err());
    assert!(parse_i32("-").is_err());
    assert!(parse_i32("+").is_err());
    assert!(parse_i32("--1").is_err());
    assert!(parse_i32("+-1").is_err());
    assert!(parse_i32("٣").is_err());
    // a number that an i32 cannot hold
    assert!(parse_i32("2147483648").is_err());
    assert!(parse_i32("-2147483649").is_err());
    assert!(parse_i32("99999999999999999999").is_err());
}
