//! Small parsers on text, shared by the readers of molecule files and of
//! spectrum files.
//!
//! Each parser takes the text that is left and gives back what it took and what
//! is left after it, in the way of the `nom` crate: the rest first.

use vstd::prelude::*;

verus! {

/// The error of a `nom` parser. Nothing is known of what it holds.
#[verifier::external_type_specification]
#[verifier::external_body]
#[verifier::reject_recursive_types(E)]
pub struct ExErr<E>(nom::Err<E>);

/// What the error of a `nom` parser holds by default. Nothing is known of it.
#[verifier::external_type_specification]
#[verifier::external_body]
#[verifier::reject_recursive_types(I)]
pub struct ExError<I>(nom::error::Error<I>);

/// A class of characters.
pub enum Class {
    /// The characters of the given set.
    Of(Seq<char>),
    /// The characters that are not in the given set.
    NotOf(Seq<char>),
    /// The decimal digits `0` to `9`.
    Digit,
    /// The decimal digits and the full stop.
    Numeric,
}

impl Class {
    /// The character `c` belongs to the class.
    pub open spec fn holds(self, c: char) -> bool {
        match self {
            Class::Of(set) => set.contains(c),
            Class::NotOf(set) => !set.contains(c),
            Class::Digit => '0' <= c <= '9',
            Class::Numeric => '0' <= c <= '9' || c == '.',
        }
    }
}

/// The length of the longest prefix of `s` whose characters all belong to
/// `class`.
pub open spec fn run_len(s: Seq<char>, class: Class) -> nat
    decreases s.len(),
{
    if s.len() == 0 || !class.holds(s[0]) {
        0
    } else {
        1 + run_len(s.skip(1), class)
    }
}

/// The longest prefix of `s` in `class`, with what follows it: the rest first.
/// `None` if the prefix is empty.
pub open spec fn run1(s: Seq<char>, class: Class) -> Option<(Seq<char>, Seq<char>)> {
    let n = run_len(s, class) as int;
    if n == 0 {
        None
    } else {
        Some((s.skip(n), s.take(n)))
    }
}

/// The text `s` without the prefix `t`, and that prefix: the rest first. `None`
/// if `s` does not begin with `t`.
pub open spec fn tagged(s: Seq<char>, t: Seq<char>) -> Option<(Seq<char>, Seq<char>)> {
    if t.is_prefix_of(s) {
        Some((s.skip(t.len() as int), s.take(t.len() as int)))
    } else {
        None
    }
}

/// The text `s` without its first character `c`, and `c`. `None` if `s` does
/// not begin with `c`.
pub open spec fn headed(s: Seq<char>, c: char) -> Option<(Seq<char>, char)> {
    if s.len() > 0 && s[0] == c {
        Some((s.skip(1), c))
    } else {
        None
    }
}

/// The first line of `s`, which must not be empty and must end in a line feed,
/// with what follows the line feed: the rest first.
pub open spec fn line(s: Seq<char>) -> Option<(Seq<char>, Seq<char>)> {
    match run1(s, Class::NotOf("\n"@)) {
        Some((rest, text)) => match tagged(rest, "\n"@) {
            Some((next, _)) => Some((next, text)),
            None => None,
        },
        None => None,
    }
}

/// The run of digits at the start of `s`, with all of `s` as the rest. `None`
/// if `s` does not begin with a digit.
pub open spec fn peeked_digits(s: Seq<char>) -> Option<(Seq<char>, Seq<char>)> {
    match run1(s, Class::Digit) {
        Some((_, found)) => Some((s, found)),
        None => None,
    }
}

/// The number that a text of decimal digits stands for.
pub open spec fn digits_value(s: Seq<char>) -> nat
    decreases s.len(),
{
    if s.len() == 0 {
        0
    } else {
        digits_value(s.drop_last()) * 10 + (s.last() as u32 - '0' as u32) as nat
    }
}

/// The `i32` that the text `s` stands for: an optional `+` or `-`, then one or
/// more decimal digits and nothing else, with a value that an `i32` can hold.
pub open spec fn int_of_text(s: Seq<char>) -> Option<i32> {
    let signed = s.len() > 0 && (s[0] == '-' || s[0] == '+');
    let body = if signed {
        s.skip(1)
    } else {
        s
    };
    let v = if s.len() > 0 && s[0] == '-' {
        -(digits_value(body) as int)
    } else {
        digits_value(body) as int
    };
    if body.len() > 0 && run_len(body, Class::Digit) == body.len() && i32::MIN <= v <= i32::MAX {
        Some(v as i32)
    } else {
        None
    }
}

/// The number at the start of `s`: blanks and tabs are skipped, and the word
/// up to the next blank, tab or line feed must stand for an `i32`. The rest
/// starts behind the word.
pub open spec fn number(s: Seq<char>) -> Option<(Seq<char>, i32)> {
    let trimmed = match run1(s, Class::Of(" \t"@)) {
        Some((rest, _)) => rest,
        None => s,
    };
    match run1(trimmed, Class::NotOf(" \t\n"@)) {
        Some((rest, word)) => match int_of_text(word) {
            Some(v) => Some((rest, v)),
            None => None,
        },
        None => None,
    }
}

/// What a parser of text gave, as sequences of characters: the rest first, or
/// `None` for an error.
pub open spec fn taken<E>(r: Result<(&str, &str), E>) -> Option<(Seq<char>, Seq<char>)> {
    match r {
        Ok(p) => Some((p.0@, p.1@)),
        Err(_) => None,
    }
}

/// What a parser gave whose value is no text: the rest as a sequence of
/// characters and the value, or `None` for an error.
pub open spec fn found<T, E>(r: Result<(&str, T), E>) -> Option<(Seq<char>, T)> {
    match r {
        Ok(p) => Some((p.0@, p.1)),
        Err(_) => None,
    }
}

/// The run of a class is a prefix of the text: every character of it belongs
/// to the class, and the character after it, if there is one, does not.
pub proof fn lemma_run_len(s: Seq<char>, class: Class)
    ensures
        run_len(s, class) <= s.len(),
        forall|k: int| 0 <= k < run_len(s, class) ==> class.holds(#[trigger] s[k]),
        run_len(s, class) < s.len() ==> !class.holds(s[run_len(s, class) as int]),
    decreases s.len(),
{
    if s.len() > 0 && class.holds(s[0]) {
        let t = s.skip(1);
        lemma_run_len(t, class);
        assert forall|k: int| 0 <= k < run_len(s, class) implies class.holds(#[trigger] s[k]) by {
            if k > 0 {
                assert(s[k] == t[k - 1]);
            }
        }
        if run_len(s, class) < s.len() {
            assert(s[run_len(s, class) as int] == t[run_len(t, class) as int]);
        }
    }
}

/// A run that is not empty leaves less text than there was.
pub proof fn lemma_run1_shorter(s: Seq<char>, class: Class)
    ensures
        run1(s, class) matches Some(p) ==> p.0.len() < s.len() && p.1.len() > 0 && p.1 + p.0 == s,
{
    lemma_run_len(s, class);
    if let Some(p) = run1(s, class) {
        assert(p.1 + p.0 =~= s);
    }
}

/// A line that was read leaves less text than there was.
pub proof fn lemma_line_shorter(s: Seq<char>)
    ensures
        line(s) matches Some(p) ==> p.0.len() < s.len(),
{
    lemma_run1_shorter(s, Class::NotOf("\n"@));
}

/// A number that was read leaves less text than there was.
pub proof fn lemma_number_shorter(s: Seq<char>)
    ensures
        number(s) matches Some(p) ==> p.0.len() < s.len(),
{
    lemma_run1_shorter(s, Class::Of(" \t"@));
    let trimmed = match run1(s, Class::Of(" \t"@)) {
        Some((rest, _)) => rest,
        None => s,
    };
    lemma_run1_shorter(trimmed, Class::NotOf(" \t\n"@));
}

/// Takes the characters of `i` up to the first one that is in `x`; an error if
/// there is none to take.
///
/// This is `nom::bytes::complete::is_not`: the longest prefix without a
/// character of `x`, which may be all of `i`, and an error where that prefix is
/// empty.
#[verifier::external_body]
pub fn not_x<'a>(i: &'a str, x: &'a str) -> (r: nom::IResult<&'a str, &'a str>)
    ensures
        taken(r) == run1(i@, Class::NotOf(x@)),
{
    nom::bytes::complete::is_not(x)(i)
}

/// Takes the characters of `i` up to the first blank, tab or line feed.
pub fn not_whitespace(i: &str) -> (r: nom::IResult<&str, &str>)
    ensures
        taken(r) == run1(i@, Class::NotOf(" \t\n"@)),
{
    not_x(i, " \t\n")
}

/// Takes the characters at the start of `i` that are in `x`; an error if there
/// is none to take.
///
/// This is `nom::bytes::complete::is_a`: the longest prefix made of characters
/// of `x`, and an error where that prefix is empty.
#[verifier::external_body]
pub(crate) fn any_of<'a>(i: &'a str, x: &'a str) -> (r: nom::IResult<&'a str, &'a str>)
    ensures
        taken(r) == run1(i@, Class::Of(x@)),
{
    nom::bytes::complete::is_a(x)(i)
}

/// Takes the blanks and tabs at the start of `i`; an error if there is none.
pub fn whitespace(i: &str) -> (r: nom::IResult<&str, &str>)
    ensures
        taken(r) == run1(i@, Class::Of(" \t"@)),
{
    any_of(i, " \t")
}

/// Takes the first line of `i` and the line feed behind it. An empty line and a
/// line without a line feed are errors.
pub fn not_newline(i: &str) -> (r: nom::IResult<&str, &str>)
    ensures
        taken(r) == line(i@),
{
    match not_x(i, "\n") {
        Ok(result) => match tag_x(result.0, "\n") {
            Ok(next_line) => Ok((next_line.0, result.1)),
            Err(e) => Err(e),
        },
        Err(e) => Err(e),
    }
}

/// Takes the character `x` from the start of `i`; an error if `i` begins
/// otherwise.
///
/// This is `nom::character::complete::char`: it compares the first character
/// of `i` with `x`, and leaves what follows it.
#[verifier::external_body]
pub fn char_x(i: &str, x: char) -> (r: nom::IResult<&str, char>)
    ensures
        found(r) == headed(i@, x),
{
    nom::character::complete::char(x)(i)
}

/// Takes the text `x` from the start of `i`; an error if `i` begins otherwise.
///
/// This is `nom::bytes::complete::tag`: it succeeds where `x` is a prefix of
/// `i`, gives that prefix of `i`, and leaves what follows it.
#[verifier::external_body]
pub fn tag_x<'a>(i: &'a str, x: &'a str) -> (r: nom::IResult<&'a str, &'a str>)
    ensures
        taken(r) == tagged(i@, x@),
{
    nom::bytes::complete::tag(x)(i)
}

/// Whether `i` begins with the text `x`.
pub fn is_next_tag_x(i: &str, x: &str) -> (b: bool)
    ensures
        b == x@.is_prefix_of(i@),
{
    match tag_x(i, x) {
        Ok(_) => { return true },
        Err(_) => { return false },
    }
}

/// Finds the digits at the start of `i` and takes nothing; an error if `i` does
/// not begin with a digit.
///
/// This is `nom::combinator::peek` of `nom::character::complete::digit1`:
/// `digit1` gives the longest prefix of decimal digits and fails where it is
/// empty, and `peek` hands back the input in place of the rest.
#[verifier::external_body]
pub fn peek_digit(i: &str) -> (r: nom::IResult<&str, &str>)
    ensures
        taken(r) == peeked_digits(i@),
{
    nom::combinator::peek(nom::character::complete::digit1)(i)
}

/// Whether `i` begins with a decimal digit.
pub fn is_next_char_numeric(i: &str) -> (b: bool)
    ensures
        b == (i@.len() > 0 && '0' <= i@[0] <= '9'),
{
    match peek_digit(i) {
        Ok(_) => {
            return true
        },
        Err(_) => {
            return false
        },
    }
}

/// `nom::character::is_digit` tells whether a byte is an ASCII decimal digit.
pub assume_specification[ nom::character::is_digit ](chr: u8) -> (b: bool)
    ensures
        b == (0x30 <= chr <= 0x39),
;

/// Whether `chr` is a decimal digit or a full stop.
pub fn is_char_digit(chr: char) -> (b: bool)
    ensures
        b == Class::Numeric.holds(chr),
{
    if chr <= '\u{7f}' {
        nom::character::is_digit(chr as u8) || chr == '.'
    } else {
        false
    }
}

/// Takes the digits and full stops at the start of `i`. It never fails: where
/// `i` begins otherwise it takes nothing.
///
/// This is `nom::bytes::complete::take_while` with [`is_char_digit`]: the
/// longest prefix, which may be empty, of characters that the test accepts.
#[verifier::external_body]
pub fn not_numeric(i: &str) -> (r: nom::IResult<&str, &str>)
    ensures
        taken(r) == Some(
            (
                i@.skip(run_len(i@, Class::Numeric) as int),
                i@.take(run_len(i@, Class::Numeric) as int),
            ),
        ),
{
    nom::bytes::complete::take_while(is_char_digit)(i)
}

/// Whether `i` begins with the character `x`.
pub fn is_next_char_x(i: &str, x: char) -> (b: bool)
    ensures
        b == (i@.len() > 0 && i@[0] == x),
{
    match char_x(i, x) {
        Err(_) => {
            return false
        },
        Ok(_) => {
            return true
        },
    }
}

/// The `i32` that a text stands for, as `str::parse::<i32>` of the standard
/// library reads it: an optional sign, then decimal digits and nothing else;
/// `None` where the text is not of that form or the value does not fit.
#[verifier::external_body]
pub(crate) fn text_to_i32(s: &str) -> (r: Option<i32>)
    ensures
        r == int_of_text(s@),
{
    match s.parse::<i32>() {
        Ok(v) => Some(v),
        Err(_) => None,
    }
}

/// The error that `nom` gives where digits were expected at `input`.
#[verifier::external_body]
fn no_number<'a>(input: &'a str) -> nom::Err<nom::error::Error<&'a str>> {
    nom::Err::Error(nom::error::Error::new(input, nom::error::ErrorKind::Digit))
}

/// Skips blanks and tabs, then reads the word up to the next blank, tab or line
/// feed as an `i32`. An error if there is no word or if it is no `i32`.
pub fn parse_i32(i: &str) -> (r: nom::IResult<&str, i32>)
    ensures
        found(r) == number(i@),
{
    let mut trimmed = i;
    // will munch whitespace before the phrase if whitespace exists
    match whitespace(i) {
        Err(_) => {},
        Ok(x) => {
            trimmed = x.0;
        },
    }
    // parses until the next whitespace
    match not_whitespace(trimmed) {
        Ok(result) => match text_to_i32(result.1) {
            Some(v) => Ok((result.0, v)),
            None => Err(no_number(result.1)),
        },
        Err(e) => Err(e),
    }
}

} // verus!
