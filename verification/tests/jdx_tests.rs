use mol_swatter::jdx::{
    find_delimiter, get_field_or_default, parse_field, parse_until_field, parse_xydata_line,
    read_data, read_header, read_jdx, split_number, JdxError,
};

const WATER_HEADER: &str = "##TITLE=WATER
##JCAMP-DX=4.24
##DATA TYPE=INFRARED SPECTRUM
##ORIGIN=Sadtler Research Labs Under US-EPA Contract
##OWNER=NIST Standard Reference Data Program
$$ a comment
##CAS REGISTRY NO=7732-18-5
##MOLFORM=H2 O
##STATE=LIQUID (NEAT)
##XUNITS=1/CM
##YUNITS=TRANSMITTANCE
##YFACTOR=1
##FIRSTX=388.677
##LASTX=3799.46
##NPOINTS=3917
##XYDATA=(X++(Y..Y))
388.677 0.0 0.012 0.013
392.161 0.013 0.015 0.016
##END=
";

#[test]
fn test_parse_field() {
    let res =
        parse_field("##SUBJECT NAME=COOL BREEZE\n##MORE STUFF=NULL", "SUBJECT NAME", "##").unwrap();
    println!("{:?},\t {:?}", res.0, res.1);
    assert_eq!(res, ("##MORE STUFF=NULL", "COOL BREEZE"));
}

#[test]
fn test_until_field() {
    let content = WATER_HEADER;
    let res = parse_until_field(content, "TITLE").unwrap();
    assert_eq!(res.1, "WATER");
    let res = parse_until_field(content, "MOLFORM").unwrap();
    assert_eq!(res.1, "H2 O");
}

#[test]
fn parse_field_errors() {
    // another escape
    assert!(parse_field("$$TITLE=WATER\n", "TITLE", "##").is_err());
    // another field
    assert!(parse_field("##TITLE=WATER\n", "STATE", "##").is_err());
    // the name goes on
    assert!(parse_field("##TITLES=WATER\n", "TITLE", "##").is_err());
    // no value
    assert!(parse_field("##TITLE=\n", "TITLE", "##").is_err());
    // the line does not end
    assert!(parse_field("##TITLE=WATER", "TITLE", "##").is_err());
    assert_eq!(parse_field("##TITLE==\nx", "TITLE", "##"), Ok(("x", "=")));
}

#[test]
fn search_gives_the_rest_behind_the_line() {
    let res = parse_until_field(WATER_HEADER, "NPOINTS").unwrap();
    assert_eq!(res.1, "3917");
    assert!(res.0.starts_with("##XYDATA=(X++(Y..Y))\n388.677"));
    let res = parse_until_field(res.0, "XYDATA").unwrap();
    assert_eq!(res.1, "(X++(Y..Y))");
    assert!(res.0.starts_with("388.677 0.0"));
}

#[test]
fn search_takes_the_first_line_that_holds_the_field() {
    let text = "junk\n##A=1\n##B=2\n##A=3\n";
    assert_eq!(parse_until_field(text, "A"), Ok(("##B=2\n##A=3\n", "1")));
    assert_eq!(parse_until_field("##B=2\n##A=3\n", "A"), Ok(("", "3")));
}

#[test]
fn search_stops_at_the_data() {
    // the field stands behind the start of the data
    let text = "##A=1\n##XYDATA=(X++(Y..Y))\n1 2 3\n##B=2\n";
    assert!(parse_until_field(text, "B").is_err());
    assert_eq!(parse_until_field(text, "XYDATA"), Ok(("1 2 3\n##B=2\n", "(X++(Y..Y))")));
    // the field is not there at all
    assert!(parse_until_field(WATER_HEADER, "PRESSURE").is_err());
    assert!(parse_until_field("##A=1\n##B=2\n", "C").is_err());
    assert!(parse_until_field("", "A").is_err());
    // an empty line cannot be passed over
    assert!(parse_until_field("##B=2\n\n##A=1\n", "A").is_err());
}

#[test]
fn default_where_the_field_is_missing() {
    assert_eq!(
        get_field_or_default(WATER_HEADER, "STATE", "UNKNOWN STATE").1,
        "LIQUID (NEAT)"
    );
    assert_eq!(
        get_field_or_default(WATER_HEADER, "PRESSURE", "UNKNOWN"),
        (WATER_HEADER, "UNKNOWN")
    );
    assert_eq!(get_field_or_default("##A=1\nrest", "A", "0"), ("rest", "1"));
    assert_eq!(get_field_or_default("", "A", "0"), ("", "0"));
}

fn value(number: &(bool, &str)) -> f32 {
    number.1.parse::<f32>().unwrap() * if number.0 { -1.0 } else { 1.0 }
}

fn parse_f32_delimited<'a>(i: &'a str, delimiter: &'a str) -> Result<(&'a str, f32), ()> {
    let (rest, number) = split_number(i, delimiter);
    Ok((rest, value(&number)))
}

#[test]
fn test_parse_f32_delimited() {
    assert_eq!(parse_f32_delimited("o420.69o2", "o"), Ok(("o2", 420.69)));
    assert_eq!(
        parse_f32_delimited("+870976752+\nMore stuff", "+"),
        Ok(("+\nMore stuff", 870976752.0))
    );
    assert_eq!(parse_f32_delimited("+42\nMore stuff", "+\n"), Ok(("\nMore stuff", 42.0)));
    assert_eq!(parse_f32_delimited("42-20.1-10.0", "-\n"), Ok(("-20.1-10.0", 42.0)));
    assert_eq!(parse_f32_delimited("-20.1-10.0\n", "\n"), Ok(("-10.0\n", -20.1)));
}

#[test]
fn test_parse_xydata_line() {
    let res = parse_xydata_line(
        "234.221345 0.4380 0.4380 0.4370 0.4370 0.4269\nTrampled under foot",
        None,
    );
    let res_vec = res.unwrap().2;
    let should_be = vec![0.4380, 0.4380, 0.4370, 0.4370, 0.4269];
    assert_eq!(should_be.len(), res_vec.len());
    for i in 0..should_be.len() {
        assert_eq!(should_be[i], value(&res_vec[i]));
    }
}

#[test]
fn test_parse_delimited_line() {
    let res = parse_xydata_line("-42.1 420.69-18.2-12.1+13.5\nSomething else", None);
    let res_vec = res.unwrap().2;
    // The -42.1 is skipped because it is the x value of the line
    let should_be = vec![420.69, -18.2, -12.1];
    for i in 0..should_be.len() {
        assert_eq!(should_be[i], value(&res_vec[i]));
    }
    assert_eq!(res_vec, vec![(false, "420.69"), (true, "18.2"), (true, "12.1"), (false, "13.5")]);
}

#[test]
fn split_number_gives_sign_and_digits() {
    assert_eq!(split_number("o420.69o2", "o"), ("o2", (false, "420.69")));
    assert_eq!(split_number("-20.1-10.0\n", "\n"), ("-10.0\n", (true, "20.1")));
    assert_eq!(split_number("   +7.5 x", " "), (" x", (false, "7.5")));
    // the delimiter before the sign, and both signs
    assert_eq!(split_number(" -3", " "), ("", (true, "3")));
    assert_eq!(split_number("+-3", " "), ("", (true, "3")));
    // a minus sign is what is left of "-+"
    assert_eq!(split_number("-+3", " "), ("+3", (true, "")));
    // the minus sign as a delimiter is passed over
    assert_eq!(split_number("42-20.1-10.0", "-\n"), ("-20.1-10.0", (false, "42")));
    assert_eq!(split_number("--20.1-10.0", "-\n"), ("-10.0", (false, "20.1")));
    // no digits
    assert_eq!(split_number("abc", " "), ("abc", (false, "")));
    assert_eq!(split_number("", " "), ("", (false, "")));
    assert_eq!(split_number("  ", " "), ("", (false, "")));
    // more than one full stop is taken as it stands
    assert_eq!(split_number("1.2.3 4", " "), (" 4", (false, "1.2.3")));
}

#[test]
fn data_line_keeps_the_x_value() {
    let res = parse_xydata_line("388.677 0.0 0.012\n392.161 0.013\n", None).unwrap();
    assert_eq!(res.0, "392.161 0.013\n");
    assert_eq!(res.1, (false, "388.677"));
    assert_eq!(res.2, vec![(false, "0.0"), (false, "0.012")]);
    // an x value alone
    assert_eq!(parse_xydata_line("5\nnext", None), Some(("next", (false, "5"), vec![])));
    assert_eq!(
        parse_xydata_line("100+1+2+3\nnext", Some("+\n")),
        Some(("next", (false, "100"), vec![(false, "1"), (false, "2"), (false, "3")]))
    );
}

#[test]
fn data_line_errors() {
    // the line does not end
    assert_eq!(parse_xydata_line("1 2 3", None), None);
    assert_eq!(parse_xydata_line("", None), None);
    // no x value
    assert_eq!(parse_xydata_line("\n1 2\n", Some(" ")), None);
    assert_eq!(parse_xydata_line("##END=\n", None), None);
    // something that is no number
    assert_eq!(parse_xydata_line("1 2 x 3\n", None), None);
    // a comma is neither a delimiter nor a sign
    assert_eq!(parse_xydata_line("1,2,3\n", None), None);
    // a plus sign is passed over as a sign where it is no delimiter
    assert_eq!(
        parse_xydata_line("1+2+3\n", None),
        Some(("", (false, "1"), vec![(false, "2"), (false, "3")]))
    );
    // the line feed is a delimiter as well: an empty line is passed over
    assert_eq!(
        parse_xydata_line("1 2\n\n3 4\n", None),
        Some(("\n3 4\n", (false, "1"), vec![(false, "2")]))
    );
}

#[test]
fn delimiter_is_found_behind_the_first_number() {
    assert_eq!(find_delimiter("388.677 0.0 0.012\n"), " \n");
    assert_eq!(find_delimiter("388.677+0.0+0.012\n"), "+\n");
    assert_eq!(find_delimiter("388.677-0.0-0.012\n"), " \n");
    assert_eq!(find_delimiter("+1+2\n"), "+\n");
    assert_eq!(find_delimiter(""), " \n");
}

#[test]
fn header_fields_in_order() {
    let (rest, header) = read_header(WATER_HEADER).unwrap();
    assert_eq!(header.title, "WATER");
    assert_eq!(header.spectrum_type, "INFRARED SPECTRUM");
    assert_eq!(header.state, "LIQUID (NEAT)");
    assert_eq!(header.y_factor, "1");
    assert_eq!(header.first_x, "388.677");
    assert_eq!(header.last_x, "3799.46");
    assert_eq!(header.npoints, 3917);
    assert!(rest.starts_with("##XYDATA="));
}

#[test]
fn header_defaults_and_errors() {
    let (rest, header) = read_header("##FIRSTX=1\n##LASTX=2\n##NPOINTS=3\nrest").unwrap();
    assert_eq!(header.title, "UNKNOWN TITLE");
    assert_eq!(header.spectrum_type, "UNKNOWN TYPE");
    assert_eq!(header.state, "UNKNOWN STATE");
    assert_eq!(header.y_factor, "1");
    assert_eq!((header.first_x, header.last_x, header.npoints), ("1", "2", 3));
    assert_eq!(rest, "rest");
    assert_eq!(read_header("##LASTX=2\n##NPOINTS=3\n").err(), Some(JdxError::FirstX));
    assert_eq!(read_header("##FIRSTX=1\n##NPOINTS=3\n").err(), Some(JdxError::LastX));
    // LASTX is looked for behind FIRSTX only
    assert_eq!(read_header("##LASTX=2\n##FIRSTX=1\n##NPOINTS=3\n").err(), Some(JdxError::LastX));
    assert_eq!(read_header("##FIRSTX=1\n##LASTX=2\n").err(), Some(JdxError::NPoints));
    assert_eq!(
        read_header("##FIRSTX=1\n##LASTX=2\n##NPOINTS=3.5\n").err(),
        Some(JdxError::NPoints)
    );
    // a field with a default that stands behind FIRSTX is found, and FIRSTX is lost
    assert_eq!(
        read_header("##FIRSTX=1\n##TITLE=T\n##LASTX=2\n##NPOINTS=3\n").err(),
        Some(JdxError::FirstX)
    );
}

#[test]
fn spectrum_text_of_a_file() {
    let text = read_jdx(WATER_HEADER).unwrap();
    assert_eq!(text.header.title, "WATER");
    assert_eq!(text.header.npoints, 3917);
    assert_eq!(text.x_values, vec![(false, "388.677"), (false, "392.161")]);
    assert_eq!(
        text.y_values,
        vec![
            (false, "0.0"),
            (false, "0.012"),
            (false, "0.013"),
            (false, "0.013"),
            (false, "0.015"),
            (false, "0.016")
        ]
    );
}

#[test]
fn spectrum_text_with_plus_and_minus_between_numbers() {
    let file = "##TITLE=T\n##FIRSTX=1\n##LASTX=2\n##NPOINTS=4\n##XYDATA=(X++(Y..Y))\n1+10-20\n2-30+40\n##END=\n";
    let text = read_jdx(file).unwrap();
    assert_eq!(text.x_values, vec![(false, "1"), (false, "2")]);
    assert_eq!(
        text.y_values,
        vec![(false, "10"), (true, "20"), (true, "30"), (false, "40")]
    );
    let values: Vec<f32> = text.y_values.iter().map(value).collect();
    assert_eq!(values, vec![10.0, -20.0, -30.0, 40.0]);
}

#[test]
fn spectrum_text_errors() {
    assert_eq!(read_jdx("").err(), Some(JdxError::NotJdx));
    assert_eq!(read_jdx("TITLE=WATER\n").err(), Some(JdxError::NotJdx));
    assert_eq!(read_jdx("##TITLE=WATER\n").err(), Some(JdxError::FirstX));
    assert_eq!(read_jdx("##FIRSTX=1\n").err(), Some(JdxError::LastX));
    assert_eq!(read_jdx("##FIRSTX=1\n##LASTX=2\n##NPOINTS=x\n").err(), Some(JdxError::NPoints));
    let head = "##FIRSTX=1\n##LASTX=2\n##NPOINTS=3\n";
    assert_eq!(read_jdx(head).err(), Some(JdxError::Data));
    // the data does not end
    assert_eq!(read_jdx(&format!("{}##XYDATA=(XY)\n1 2 3\n", head)).err(), Some(JdxError::Line));
    assert_eq!(
        read_jdx(&format!("{}##XYDATA=(XY)\n1 a 3\n##END=\n", head)).err(),
        Some(JdxError::Line)
    );
    // data without lines
    let file = format!("{}##XYDATA=(XY)\n##END=\n", head);
    let text = read_jdx(&file).unwrap();
    assert!(text.x_values.is_empty() && text.y_values.is_empty());
    assert_eq!(read_data("##END", " \n"), Some((vec![], vec![])));
    assert_eq!(read_data("1 2\n", " \n"), None);
}

#[test]
fn test_non_utf8() {
    // characters of more than one byte in a value
    let file = "##TITLE=Benzeneacetamide, «alpha»-ethyl-\n##FIRSTX=1\n##LASTX=2\n##NPOINTS=2\n##XYDATA=(XY)\n1 5 6\n##END=\n";
    let text = read_jdx(file).unwrap();
    assert_eq!(text.header.title, "Benzeneacetamide, «alpha»-ethyl-");
    assert_eq!(text.y_values, vec![(false, "5"), (false, "6")]);
}
