use metadol::text::parse_usize;

#[test]
fn test_parse_usize_accepts_digits_and_plus() {
    assert_eq!(parse_usize("7"), Some(7));
    assert_eq!(parse_usize("+42"), Some(42));
    assert_eq!(parse_usize("007"), Some(7));
    assert_eq!(parse_usize(&usize::MAX.to_string()), Some(usize::MAX));
}

#[test]
fn test_parse_usize_rejects_what_str_parse_rejects() {
    for s in ["", "+", "-1", "1a", " 1", "1 ", "++1"] {
        assert_eq!(parse_usize(s), None, "{:?}", s);
        assert_eq!(parse_usize(s), s.parse::<usize>().ok());
    }
    let too_big = format!("{}0", usize::MAX);
    assert_eq!(parse_usize(&too_big), None);
}

#[test]
fn test_parse_usize_agrees_with_str_parse() {
    for s in ["0", "+0", "123456", "99999999999999999999999", "12-3", "٣"] {
        assert_eq!(parse_usize(s), s.parse::<usize>().ok(), "{:?}", s);
    }
}
