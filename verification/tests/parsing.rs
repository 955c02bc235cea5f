use viu::parse::{parse_ident_tuple, render_name_list};

fn cs(s: &str) -> Vec<char> {
    s.chars().collect()
}

fn parse_str(s: &str) -> Result<Vec<Vec<char>>, usize> {
    match parse_ident_tuple(&cs(s)) {
        Ok(names) => Ok(names),
        Err(e) => Err(e.offset),
    }
}

#[test]
fn empty_payload_yields_no_names() {
    let names = parse_str("").unwrap();
    assert_eq!(names.len(), 0);
}

#[test]
fn whitespace_payload_yields_no_names() {
    let names = parse_str("  \t ").unwrap();
    assert_eq!(names.len(), 0);
}

#[test]
fn empty_parens_yield_no_names() {
    let names = parse_str("()").unwrap();
    assert_eq!(names.len(), 0);
    let names = parse_str("(  )").unwrap();
    assert_eq!(names.len(), 0);
}

#[test]
fn single_name() {
    let names = parse_str("(ReadView)").unwrap();
    assert_eq!(names, vec![cs("ReadView")]);
}

#[test]
fn names_in_payload_order_with_whitespace() {
    let names = parse_str(" ( A , B2 , _c ) ").unwrap();
    assert_eq!(names, vec![cs("A"), cs("B2"), cs("_c")]);
}

#[test]
fn trailing_comma_accepted() {
    let names = parse_str("(A, B,)").unwrap();
    assert_eq!(names, vec![cs("A"), cs("B")]);
}

#[test]
fn name_starting_with_digit_rejected() {
    assert!(parse_str("(1A)").is_err());
}

#[test]
fn unbalanced_list_rejected() {
    assert!(parse_str("(A").is_err());
    assert!(parse_str("A)").is_err());
    assert!(parse_str("(A))").is_err());
}

#[test]
fn missing_separator_rejected() {
    assert!(parse_str("(A B)").is_err());
    assert!(parse_str("(A,,B)").is_err());
    assert!(parse_str("(,A)").is_err());
}

#[test]
fn error_offset_points_at_the_offending_character() {
    assert_eq!(parse_str("(A B)").unwrap_err(), 3);
    assert_eq!(parse_str("x").unwrap_err(), 0);
    assert_eq!(parse_str("(A").unwrap_err(), 2);
    assert_eq!(parse_str("(A) junk").unwrap_err(), 4);
}

#[test]
fn empty_list_renders_as_bare_parens() {
    let rendered = render_name_list(&Vec::new());
    assert_eq!(rendered, cs("()"));
    assert_eq!(parse_ident_tuple(&rendered).unwrap().len(), 0);
}

#[test]
fn round_trip_is_order_insensitive_as_a_set() {
    let first = parse_str("(A, B, C)").unwrap();
    let second = parse_str("(C ,A,B,)").unwrap();

    let rendered_first: Vec<char> = render_name_list(&first);
    let rendered_second: Vec<char> = render_name_list(&second);
    assert_eq!(rendered_first, cs("(A,B,C)"));
    assert_eq!(rendered_second, cs("(C,A,B)"));

    let reparsed_first = parse_ident_tuple(&rendered_first).unwrap();
    let reparsed_second = parse_ident_tuple(&rendered_second).unwrap();
    assert_eq!(reparsed_first, first);
    assert_eq!(reparsed_second, second);

    for name in &reparsed_first {
        assert!(reparsed_second.contains(name));
    }
    for name in &reparsed_second {
        assert!(reparsed_first.contains(name));
    }
}
