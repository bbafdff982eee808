//! Reading the text of a JCAMP-DX spectrum file.
//!
//! In the header a field stands on a line of its own: `##`, the field's name,
//! `=`, and the value up to the end of the line. The data follows the field
//! `XYDATA`: each line starts with an x value, and the y values follow it. The
//! numbers are given back as text, with the sign apart: what they are worth
//! as floating-point numbers is left to the caller.

use crate::common::{
    any_of, char_x, headed, int_of_text, is_next_char_x, is_next_tag_x, lemma_line_shorter,
    lemma_run1_shorter, lemma_run_len, line, not_newline, not_numeric, run1, run_len, tag_x,
    tagged, taken, text_to_i32, Class,
};
use vstd::prelude::*;

verus! {

/// The value of the field `field` where `s` starts with that field: the text
/// behind `escape`, the field's name and `=`, up to the end of the line, which
/// must not be empty. The rest starts on the next line.
pub open spec fn field_value(s: Seq<char>, field: Seq<char>, escape: Seq<char>) -> Option<
    (Seq<char>, Seq<char>),
> {
    match tagged(s, escape) {
        Some((name, _)) => match tagged(name, field) {
            Some((sign, _)) => match headed(sign, '=') {
                Some((value, _)) => line(value),
                None => None,
            },
            None => None,
        },
        None => None,
    }
}

/// The value of the first line of `s` that holds the field `field`, with the
/// text behind that line. Lines that do not hold it are passed over. The search
/// fails at the start of the data, unless the data is what is looked for, and
/// where no further line can be read.
pub open spec fn field_search(s: Seq<char>, field: Seq<char>) -> Option<(Seq<char>, Seq<char>)>
    decreases s.len(),
{
    if "##XYDATA="@.is_prefix_of(s) && field != "XYDATA"@ {
        None
    } else {
        let here = if s.len() > 0 && s[0] == '#' {
            field_value(s, field, "##"@)
        } else {
            None
        };
        match here {
            Some(v) => Some(v),
            None => match line(s) {
                Some((rest, _)) => {
                    proof {
                        lemma_line_shorter(s);
                    }
                    field_search(rest, field)
                },
                None => None,
            },
        }
    }
}

/// The next number of a line of data, as text: whether a minus sign stands
/// before it, and its digits and full stops, which may be none. A run of
/// delimiters before the number is passed over, and so is a plus sign. The
/// rest starts behind the digits.
pub open spec fn signed_digits(s: Seq<char>, delimiter: Seq<char>) -> (
    Seq<char>,
    (bool, Seq<char>),
) {
    let a = match run1(s, Class::Of(delimiter)) {
        Some((rest, _)) => rest,
        None => s,
    };
    let b = match headed(a, '+') {
        Some((rest, _)) => rest,
        None => a,
    };
    let c = match headed(b, '-') {
        Some((rest, _)) => rest,
        None => b,
    };
    let n = run_len(c, Class::Numeric) as int;
    (c.skip(n), (headed(b, '-') is Some, c.take(n)))
}

/// The numbers of a line of data from `s` up to the line feed, as texts. Each
/// must have a digit or a full stop. The rest starts behind the line feed.
pub open spec fn data_values(s: Seq<char>, delimiter: Seq<char>) -> Option<
    (Seq<char>, Seq<(bool, Seq<char>)>),
>
    decreases s.len(),
{
    match headed(s, '\n') {
        Some((rest, _)) => Some((rest, Seq::empty())),
        None => {
            let (rest, number) = signed_digits(s, delimiter);
            if number.1.len() == 0 {
                None
            } else {
                proof {
                    lemma_signed_digits_shorter(s, delimiter);
                }
                match data_values(rest, delimiter) {
                    Some((end, numbers)) => Some((end, seq![number] + numbers)),
                    None => None,
                }
            }
        },
    }
}

/// A line of data: the x value, and the y values that follow it up to the
/// line feed, as texts.
pub open spec fn data_line(s: Seq<char>, delimiter: Seq<char>) -> Option<
    (Seq<char>, (bool, Seq<char>), Seq<(bool, Seq<char>)>),
> {
    let (rest, x) = signed_digits(s, delimiter);
    if x.1.len() == 0 {
        None
    } else {
        match data_values(rest, delimiter) {
            Some((end, ys)) => Some((end, x, ys)),
            None => None,
        }
    }
}

/// The numbers of a vector, each with its digits as a sequence of characters.
pub open spec fn numbers_of(v: Seq<(bool, &str)>) -> Seq<(bool, Seq<char>)> {
    Seq::new(v.len(), |k: int| (v[k].0, v[k].1@))
}

/// The numbers `front`, followed by the numbers that were read behind them.
pub open spec fn numbers_behind(
    front: Seq<(bool, Seq<char>)>,
    r: Option<(Seq<char>, Seq<(bool, Seq<char>)>)>,
) -> Option<(Seq<char>, Seq<(bool, Seq<char>)>)> {
    match r {
        Some((end, numbers)) => Some((end, front + numbers)),
        None => None,
    }
}

/// A number with at least one digit or full stop leaves less text than there
/// was.
pub proof fn lemma_signed_digits_shorter(s: Seq<char>, delimiter: Seq<char>)
    ensures
        signed_digits(s, delimiter).0.len() <= s.len(),
        signed_digits(s, delimiter).1.1.len() > 0 ==> signed_digits(s, delimiter).0.len()
            < s.len(),
{
    lemma_run1_shorter(s, Class::Of(delimiter));
    let a = match run1(s, Class::Of(delimiter)) {
        Some((rest, _)) => rest,
        None => s,
    };
    let b = match headed(a, '+') {
        Some((rest, _)) => rest,
        None => a,
    };
    let c = match headed(b, '-') {
        Some((rest, _)) => rest,
        None => b,
    };
    lemma_run_len(c, Class::Numeric);
}

/// Splits the next number of a line of data from the text: passes over a run
/// of characters of `delimiter` and over a plus sign, notes a minus sign, and
/// takes the digits and full stops that follow.
///
/// The delimiter and the sign cannot both stand before the number, only one of
/// them: with the delimiter `" "`, the text `-123.3-23.41 12.43` gives
/// `-123.3` and leaves `-23.41 12.43`.
pub fn split_number<'a>(i: &'a str, delimiter: &'a str) -> (r: (&'a str, (bool, &'a str)))
    ensures
        (r.0@, (r.1.0, r.1.1@)) == signed_digits(i@, delimiter@),
{
    let mut i = i;
    // Takes the delimiter from the start of the text if it is there
    match any_of(i, delimiter) {
        Err(_) => {},
        Ok(x) => {
            i = x.0;
        },
    }
    let mut neg: bool = false;
    // Handles the + or - signs
    match char_x(i, '+') {
        Err(_) => {},
        Ok(x) => {
            i = x.0;
        },
    }
    match char_x(i, '-') {
        Err(_) => {},
        Ok(x) => {
            i = x.0;
            neg = true;
        },
    }
    // Takes the digits and full stops
    match not_numeric(i) {
        Ok(res) => (res.0, (neg, res.1)),
        // not taken: this parser does not fail
        Err(_) => (i, (neg, i)),
    }
}

/// Reads a line of data: the x value at its start, and the y values up to the
/// line feed, each as text. `None` where a number without a digit or full stop
/// stands in the line, or where the line does not end. Without a delimiter,
/// blanks and line feeds separate the numbers.
#[verifier::loop_isolation(false)]
pub fn parse_xydata_line<'a>(i: &'a str, delimiter: Option<&'a str>) -> (r: Option<
    (&'a str, (bool, &'a str), Vec<(bool, &'a str)>),
>)
    ensures
        match r {
            Some(p) => data_line(
                i@,
                match delimiter {
                    Some(d) => d@,
                    None => " \n"@,
                },
            ) == Some((p.0@, (p.1.0, p.1.1@), numbers_of(p.2@))),
            None => data_line(
                i@,
                match delimiter {
                    Some(d) => d@,
                    None => " \n"@,
                },
            ) is None,
        },
{
    let set: &str = match delimiter {
        Some(d) => d,
        None => " \n",
    };
    // The x value that is at the start of every line of data
    let (start, first) = split_number(i, set);
    if first.1.is_empty() {
        return None;
    }
    let mut out = start;
    let mut vec: Vec<(bool, &str)> = Vec::new();
    assert(numbers_of(vec@) =~= Seq::<(bool, Seq<char>)>::empty());
    proof {
        lemma_nothing_before(data_values(start@, set@));
    }
    loop
        invariant
            data_values(start@, set@) == numbers_behind(
                numbers_of(vec@),
                data_values(out@, set@),
            ),
        decreases out@.len(),
    {
        // Ends the line at the line feed, and takes it
        match char_x(out, '\n') {
            Err(_) => {},
            Ok(x) => {
                out = x.0;
                assert(numbers_of(vec@) + Seq::<(bool, Seq<char>)>::empty() =~= numbers_of(vec@));
                return Some((out, first, vec));
            },
        }
        let ghost before = numbers_of(vec@);
        let res = split_number(out, set);
        if res.1.1.is_empty() {
            return None;
        }
        proof {
            lemma_signed_digits_shorter(out@, set@);
        }
        out = res.0;
        vec.push(res.1);
        proof {
            let number = (res.1.0, res.1.1@);
            assert(numbers_of(vec@) =~= before.push(number));
            if let Some((end, numbers)) = data_values(out@, set@) {
                assert(before.push(number) + numbers =~= before + (seq![number] + numbers));
            }
        }
    }
}

/// Nothing in front of what was read changes nothing.
proof fn lemma_nothing_before(r: Option<(Seq<char>, Seq<(bool, Seq<char>)>)>)
    ensures
        numbers_behind(Seq::empty(), r) == r,
{
    if let Some((end, numbers)) = r {
        assert(Seq::<(bool, Seq<char>)>::empty() + numbers =~= numbers);
    }
}

/// The error that `nom` gives where something that was looked for at `input`
/// is not there.
#[verifier::external_body]
fn not_there<'a>(input: &'a str) -> nom::Err<nom::error::Error<&'a str>> {
    nom::Err::Error(nom::error::Error { input, code: nom::error::ErrorKind::Not })
}

/// Reads the field `field` at the start of `i`: `escape_str`, the field's
/// name, `=`, and the value up to the end of the line.
pub fn parse_field<'a>(i: &'a str, field: &'a str, escape_str: &'a str) -> (r: nom::IResult<
    &'a str,
    &'a str,
>)
    ensures
        taken(r) == field_value(i@, field@, escape_str@),
{
    // Removes the "##"
    let out = match tag_x(i, escape_str) {
        Ok(p) => p.0,
        Err(e) => {
            return Err(e);
        },
    };
    // Parses the field, returns an error otherwise
    let out = match tag_x(out, field) {
        Ok(p) => p.0,
        Err(e) => {
            return Err(e);
        },
    };
    // Parses the equals sign after the field
    let out = match char_x(out, '=') {
        Ok(p) => p.0,
        Err(e) => {
            return Err(e);
        },
    };
    not_newline(out)
}

/// Looks for the field `field` line by line, and gives its value and the text
/// behind its line.
pub fn parse_until_field<'a>(i: &'a str, field: &'a str) -> (r: nom::IResult<&'a str, &'a str>)
    ensures
        taken(r) == field_search(i@, field@),
{
    let mut out = i;
    let wants_data = field.to_owned() == "XYDATA".to_owned();
    loop
        invariant
            wants_data == (field@ == "XYDATA"@),
            field_search(out@, field@) == field_search(i@, field@),
        decreases out@.len(),
    {
        // The data starts here: the field was not found in the header
        if is_next_tag_x(out, "##XYDATA=") && !wants_data {
            return Err(not_there(out));
        }
        proof {
            lemma_line_shorter(out@);
        }
        // If the next char is not a #, it should skip to the next line
        if !is_next_char_x(out, '#') {
            out = match not_newline(out) {
                Ok(p) => p.0,
                Err(e) => {
                    return Err(e);
                },
            };
            continue ;
        }
        match parse_field(out, field, "##") {
            // The field is not on this line: only skips to the next line
            Err(_) => {
                out = match not_newline(out) {
                    Ok(p) => p.0,
                    Err(e) => {
                        return Err(e);
                    },
                };
            },
            Ok(x) => {
                return Ok(x);
            },
        }
    }
}

/// The value of the field `field` and the text behind its line; or, where the
/// field is not found, `default` and the text as it was.
pub fn get_field_or_default<'a>(i: &'a str, field: &'a str, default: &'a str) -> (r: (
    &'a str,
    &'a str,
))
    ensures
        match field_search(i@, field@) {
            Some(v) => r.0@ == v.0 && r.1@ == v.1,
            None => r.0@ == i@ && r.1@ == default@,
        },
{
    match parse_until_field(i, field) {
        Ok(x) => {
            return (x.0, x.1)
        },
        Err(_) => {
            return (i, default)
        },
    }
}

/// Why a text is not the text of a spectrum.
#[derive(Clone, Copy, Debug, PartialEq, Eq, Structural)]
pub enum JdxError {
    /// The text does not start with `#`.
    NotJdx,
    /// The header has no field `FIRSTX`.
    FirstX,
    /// The header has no field `LASTX` behind `FIRSTX`.
    LastX,
    /// The header has no field `NPOINTS` behind `LASTX`, or its value is no
    /// `i32`.
    NPoints,
    /// There is no field `XYDATA` behind `NPOINTS`.
    Data,
    /// A line of the data holds a number without a digit, or does not end.
    Line,
}

/// The fields of the header of a spectrum file, with the numbers among them
/// still as text, but for the number of points.
pub struct HeaderText<'a> {
    pub title: &'a str,
    pub spectrum_type: &'a str,
    pub state: &'a str,
    pub y_factor: &'a str,
    pub first_x: &'a str,
    pub last_x: &'a str,
    pub npoints: i32,
}

/// The mathematical model of a [`HeaderText`].
pub struct HeaderModel {
    pub title: Seq<char>,
    pub spectrum_type: Seq<char>,
    pub state: Seq<char>,
    pub y_factor: Seq<char>,
    pub first_x: Seq<char>,
    pub last_x: Seq<char>,
    pub npoints: i32,
}

impl<'a> View for HeaderText<'a> {
    type V = HeaderModel;

    open spec fn view(&self) -> HeaderModel {
        HeaderModel {
            title: self.title@,
            spectrum_type: self.spectrum_type@,
            state: self.state@,
            y_factor: self.y_factor@,
            first_x: self.first_x@,
            last_x: self.last_x@,
            npoints: self.npoints,
        }
    }
}

/// What a spectrum file holds, with its numbers still as text: each with its
/// sign apart from its digits.
pub struct SpectrumText<'a> {
    pub header: HeaderText<'a>,
    /// The x value at the start of each line of data.
    pub x_values: Vec<(bool, &'a str)>,
    /// The y values of all lines of data, in order.
    pub y_values: Vec<(bool, &'a str)>,
}

/// The mathematical model of a [`SpectrumText`].
pub struct SpectrumModel {
    pub header: HeaderModel,
    pub x_values: Seq<(bool, Seq<char>)>,
    pub y_values: Seq<(bool, Seq<char>)>,
}

impl<'a> View for SpectrumText<'a> {
    type V = SpectrumModel;

    open spec fn view(&self) -> SpectrumModel {
        SpectrumModel {
            header: self.header@,
            x_values: numbers_of(self.x_values@),
            y_values: numbers_of(self.y_values@),
        }
    }
}

/// The value of a field and the text behind its line; or, where the field is
/// not found, the default and the text as it was.
pub open spec fn field_or(s: Seq<char>, field: Seq<char>, default: Seq<char>) -> (
    Seq<char>,
    Seq<char>,
) {
    match field_search(s, field) {
        Some(v) => v,
        None => (s, default),
    }
}

/// What separates the numbers of the data that starts at `data`: plus signs,
/// if one follows the first number, else blanks; and line feeds.
pub open spec fn delimiter_of(data: Seq<char>) -> Seq<char> {
    let rest = data.skip(run_len(data, Class::Numeric) as int);
    if rest.len() > 0 && rest[0] == '+' {
        "+\n"@
    } else {
        " \n"@
    }
}

/// The x values and the y values of the lines of data from `s` up to the line
/// that starts with `##END`.
pub open spec fn data_lines(s: Seq<char>, delimiter: Seq<char>) -> Option<
    (Seq<(bool, Seq<char>)>, Seq<(bool, Seq<char>)>),
>
    decreases s.len(),
{
    if "##END"@.is_prefix_of(s) {
        Some((Seq::empty(), Seq::empty()))
    } else {
        match data_line(s, delimiter) {
            Some((rest, x, ys)) => {
                proof {
                    lemma_data_line_shorter(s, delimiter);
                }
                match data_lines(rest, delimiter) {
                    Some((xs, more)) => Some((seq![x] + xs, ys + more)),
                    None => None,
                }
            },
            None => None,
        }
    }
}

/// The x and y values `front`, followed by those that were read behind them.
pub open spec fn lines_behind(
    front: (Seq<(bool, Seq<char>)>, Seq<(bool, Seq<char>)>),
    r: Option<(Seq<(bool, Seq<char>)>, Seq<(bool, Seq<char>)>)>,
) -> Option<(Seq<(bool, Seq<char>)>, Seq<(bool, Seq<char>)>)> {
    match r {
        Some((xs, ys)) => Some((front.0 + xs, front.1 + ys)),
        None => None,
    }
}

/// The header of a spectrum file: the fields `TITLE`, `DATA TYPE`, `STATE`,
/// `YFACTOR`, `FIRSTX`, `LASTX`, `NPOINTS`, each looked for behind the one
/// before, the first four with a default. The rest starts behind the line of
/// `NPOINTS`.
pub open spec fn header_of_text(s: Seq<char>) -> Result<(Seq<char>, HeaderModel), JdxError> {
    let (s1, title) = field_or(s, "TITLE"@, "UNKNOWN TITLE"@);
    let (s2, spectrum_type) = field_or(s1, "DATA TYPE"@, "UNKNOWN TYPE"@);
    let (s3, state) = field_or(s2, "STATE"@, "UNKNOWN STATE"@);
    let (s4, y_factor) = field_or(s3, "YFACTOR"@, "1"@);
    match field_search(s4, "FIRSTX"@) {
        None => Err(JdxError::FirstX),
        Some((s5, first_x)) => match field_search(s5, "LASTX"@) {
            None => Err(JdxError::LastX),
            Some((s6, last_x)) => match field_search(s6, "NPOINTS"@) {
                None => Err(JdxError::NPoints),
                Some((s7, points)) => match int_of_text(points) {
                    None => Err(JdxError::NPoints),
                    Some(npoints) => Ok(
                        (
                            s7,
                            HeaderModel {
                                title,
                                spectrum_type,
                                state,
                                y_factor,
                                first_x,
                                last_x,
                                npoints,
                            },
                        ),
                    ),
                },
            },
        },
    }
}

/// What the text of a spectrum file holds: the header, and the data behind the
/// field `XYDATA`. The text must start with `#`.
pub open spec fn spectrum_of_text(s: Seq<char>) -> Result<SpectrumModel, JdxError> {
    if !(s.len() > 0 && s[0] == '#') {
        Err(JdxError::NotJdx)
    } else {
        match header_of_text(s) {
            Err(e) => Err(e),
            Ok((rest, header)) => match field_search(rest, "XYDATA"@) {
                None => Err(JdxError::Data),
                Some((data, _)) => match data_lines(data, delimiter_of(data)) {
                    None => Err(JdxError::Line),
                    Some((x_values, y_values)) => Ok(SpectrumModel { header, x_values, y_values }),
                },
            },
        }
    }
}

/// The numbers of a line of data that were read leave less text than there
/// was.
pub proof fn lemma_data_values_shorter(s: Seq<char>, delimiter: Seq<char>)
    ensures
        data_values(s, delimiter) matches Some(p) ==> p.0.len() < s.len(),
    decreases s.len(),
{
    if headed(s, '\n') is None {
        lemma_signed_digits_shorter(s, delimiter);
        let (rest, number) = signed_digits(s, delimiter);
        if number.1.len() > 0 {
            lemma_data_values_shorter(rest, delimiter);
        }
    }
}

/// A line of data that was read leaves less text than there was.
pub proof fn lemma_data_line_shorter(s: Seq<char>, delimiter: Seq<char>)
    ensures
        data_line(s, delimiter) matches Some(p) ==> p.0.len() < s.len(),
{
    lemma_signed_digits_shorter(s, delimiter);
    lemma_data_values_shorter(signed_digits(s, delimiter).0, delimiter);
}

/// Reads the header of a spectrum file. The rest starts behind the line of
/// the field `NPOINTS`.
pub fn read_header<'a>(file: &'a str) -> (r: Result<(&'a str, HeaderText<'a>), JdxError>)
    ensures
        match r {
            Ok(p) => header_of_text(file@) == Ok::<(Seq<char>, HeaderModel), JdxError>(
                (p.0@, p.1@),
            ),
            Err(e) => header_of_text(file@) == Err::<(Seq<char>, HeaderModel), JdxError>(e),
        },
{
    // The order of these statements is important
    let (rest, title) = get_field_or_default(file, "TITLE", "UNKNOWN TITLE");
    let (rest, spectrum_type) = get_field_or_default(rest, "DATA TYPE", "UNKNOWN TYPE");
    let (rest, state) = get_field_or_default(rest, "STATE", "UNKNOWN STATE");
    let (rest, y_factor) = get_field_or_default(rest, "YFACTOR", "1");
    let (rest, first_x) = match parse_until_field(rest, "FIRSTX") {
        Ok(p) => p,
        Err(_) => {
            return Err(JdxError::FirstX);
        },
    };
    let (rest, last_x) = match parse_until_field(rest, "LASTX") {
        Ok(p) => p,
        Err(_) => {
            return Err(JdxError::LastX);
        },
    };
    let (rest, points) = match parse_until_field(rest, "NPOINTS") {
        Ok(p) => p,
        Err(_) => {
            return Err(JdxError::NPoints);
        },
    };
    let npoints: i32 = match text_to_i32(points) {
        Some(v) => v,
        None => {
            return Err(JdxError::NPoints);
        },
    };
    Ok((rest, HeaderText { title, spectrum_type, state, y_factor, first_x, last_x, npoints }))
}

/// Finds what separates the numbers of the data: `+` or a blank.
pub fn find_delimiter(data: &str) -> (delimiter: &'static str)
    ensures
        delimiter@ == delimiter_of(data@),
{
    let after_number: &str = match not_numeric(data) {
        Ok(p) => p.0,
        // not taken: this parser does not fail
        Err(_) => data,
    };
    if is_next_char_x(after_number, '+') {
        "+\n"
    } else {
        " \n"
    }
}

/// Reads the lines of data up to the line that starts with `##END`, and gives
/// their x values and their y values as text.
pub fn read_data<'a>(data: &'a str, delimiter: &'a str) -> (r: Option<
    (Vec<(bool, &'a str)>, Vec<(bool, &'a str)>),
>)
    ensures
        match r {
            Some(p) => data_lines(data@, delimiter@) == Some(
                (numbers_of(p.0@), numbers_of(p.1@)),
            ),
            None => data_lines(data@, delimiter@) is None,
        },
{
    let mut left = data;
    let mut x_values: Vec<(bool, &str)> = Vec::new();
    let mut y_values: Vec<(bool, &str)> = Vec::new();
    assert(numbers_of(x_values@) =~= Seq::<(bool, Seq<char>)>::empty());
    proof {
        lemma_no_lines_before(data_lines(data@, delimiter@));
    }
    // Reads until reaching the ##END
    while !is_next_tag_x(left, "##END")
        invariant
            data_lines(data@, delimiter@) == lines_behind(
                (numbers_of(x_values@), numbers_of(y_values@)),
                data_lines(left@, delimiter@),
            ),
        decreases left@.len(),
    {
        let ghost xs = numbers_of(x_values@);
        let ghost ys = numbers_of(y_values@);
        match parse_xydata_line(left, Some(delimiter)) {
            None => {
                return None;
            },
            Some(p) => {
                proof {
                    lemma_data_line_shorter(left@, delimiter@);
                }
                left = p.0;
                x_values.push(p.1);
                let mut values = p.2;
                let ghost more = numbers_of(values@);
                y_values.append(&mut values);
                proof {
                    let x = (p.1.0, p.1.1@);
                    assert(numbers_of(x_values@) =~= xs.push(x));
                    assert(numbers_of(y_values@) =~= ys + more);
                    if let Some((next_xs, next_ys)) = data_lines(left@, delimiter@) {
                        assert(xs.push(x) + next_xs =~= xs + (seq![x] + next_xs));
                        assert((ys + more) + next_ys =~= ys + (more + next_ys));
                    }
                }
            },
        }
    }
    proof {
        assert(numbers_of(x_values@) + Seq::<(bool, Seq<char>)>::empty() =~= numbers_of(
            x_values@,
        ));
        assert(numbers_of(y_values@) + Seq::<(bool, Seq<char>)>::empty() =~= numbers_of(
            y_values@,
        ));
    }
    Some((x_values, y_values))
}

/// Reads the text of a spectrum file: the fields of the header and the numbers
/// of the data, all as text.
pub fn read_jdx<'a>(file: &'a str) -> (r: Result<SpectrumText<'a>, JdxError>)
    ensures
        match r {
            Ok(t) => spectrum_of_text(file@) == Ok::<SpectrumModel, JdxError>(t@),
            Err(e) => spectrum_of_text(file@) == Err::<SpectrumModel, JdxError>(e),
        },
{
    // If this is so, the file is probably not of the expected format
    if !is_next_char_x(file, '#') {
        return Err(JdxError::NotJdx);
    }
    let (rest, header) = match read_header(file) {
        Ok(p) => p,
        Err(e) => {
            return Err(e);
        },
    };
    // Goes on to the data
    let data = match parse_until_field(rest, "XYDATA") {
        Ok(p) => p.0,
        Err(_) => {
            return Err(JdxError::Data);
        },
    };
    let delimiter = find_delimiter(data);
    match read_data(data, delimiter) {
        Some(p) => Ok(SpectrumText { header, x_values: p.0, y_values: p.1 }),
        None => Err(JdxError::Line),
    }
}

/// Nothing in front of the lines that were read changes nothing.
proof fn lemma_no_lines_before(r: Option<(Seq<(bool, Seq<char>)>, Seq<(bool, Seq<char>)>)>)
    ensures
        lines_behind((Seq::empty(), Seq::empty()), r) == r,
{
    if let Some((xs, ys)) = r {
        assert(Seq::<(bool, Seq<char>)>::empty() + xs =~= xs);
        assert(Seq::<(bool, Seq<char>)>::empty() + ys =~= ys);
    }
}

} // verus!
